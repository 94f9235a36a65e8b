//! A plugin host: keeps a catalog of extensions described by manifest
//! files, assigns each started extension a fresh identity, frames the
//! messages exchanged with a sandboxed extension over its pipe pair,
//! and turns guest-originated notifications into dispatcher actions.
use vstd::prelude::*;

pub mod catalog;
pub mod channel;
pub mod dispatch;
pub mod id;
pub mod json;
pub mod manifest;
pub mod notification;
pub mod text;

verus! {

/// A plugin is keyed in the catalog by the name its manifest declares.
pub type PluginName = String;

} // verus!
