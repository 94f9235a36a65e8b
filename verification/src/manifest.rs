//! Manifest-derived plugin descriptions. Reading and parsing the
//! manifest file is the caller's work; this module owns the path
//! resolution rule and the description's shape and invariant.
use vstd::prelude::*;

use crate::json::opt_view;
use crate::text::{is_absolute, join_path, spec_join};

verus! {

/// Why one manifest was rejected. A rejected manifest is logged and
/// skipped; it never blocks the other manifests.
pub enum ManifestError {
    /// The manifest file could not be read.
    Unreadable,
    /// The manifest text does not parse into a description.
    Malformed,
    /// The declared executable does not resolve to an existing file.
    ExecPathUnresolved,
}

/// What one manifest declares, immutable after load: the plugin's
/// name (its key in the catalog), an informational version, the
/// loadable module's path, the manifest's own directory, and an
/// optional configuration value carried as compact JSON text.
pub struct PluginDescription {
    pub name: String,
    pub version: String,
    pub exec_path: String,
    pub dir: Option<String>,
    pub configuration: Option<String>,
}

/// The mathematical content of a description.
pub ghost struct DescriptionView {
    pub name: Seq<char>,
    pub version: Seq<char>,
    pub exec_path: Seq<char>,
    pub dir: Option<Seq<char>>,
    pub configuration: Option<Seq<char>>,
}

impl View for PluginDescription {
    type V = DescriptionView;

    open spec fn view(&self) -> DescriptionView {
        DescriptionView {
            name: self.name@,
            version: self.version@,
            exec_path: self.exec_path@,
            dir: opt_view(self.dir),
            configuration: opt_view(self.configuration),
        }
    }
}

impl PluginDescription {
    /// A loaded description's paths are absolute: the executable and
    /// the manifest directory can be found from anywhere.
    pub open spec fn paths_absolute(self) -> bool {
        &&& is_absolute(self.exec_path@)
        &&& self@.dir matches Some(d) && is_absolute(d)
    }

    /// Assembles a description from already-resolved parts.
    pub fn new(
        name: String,
        version: String,
        exec_path: String,
        dir: Option<String>,
        configuration: Option<String>,
    ) -> (r: PluginDescription)
        ensures
            r@ == (DescriptionView {
                name: name@,
                version: version@,
                exec_path: exec_path@,
                dir: opt_view(dir),
                configuration: opt_view(configuration),
            }),
    {
        PluginDescription { name, version, exec_path, dir, configuration }
    }

    /// The manifest's directory.
    pub fn dir(&self) -> (r: &Option<String>)
        ensures
            opt_view(*r) == self@.dir,
    {
        &self.dir
    }

    /// The configuration value the manifest declares, as JSON text.
    pub fn configuration(&self) -> (r: &Option<String>)
        ensures
            opt_view(*r) == self@.configuration,
    {
        &self.configuration
    }
}

/// The well-known plugins directory under the user's home: one
/// subdirectory per extension.
pub fn plugins_root(home: &str) -> (r: String)
    ensures
        r@ == home@ + "/.lapce/plugins"@,
        is_absolute(home@) ==> is_absolute(r@),
{
    let mut r = home.to_owned();
    r.append("/.lapce/plugins");
    proof {
        if home@.len() > 0 {
            assert(r@[0] == home@[0]);
        }
    }
    r
}

/// The manifest file expected inside one extension's directory.
pub fn manifest_path(plugin_dir: &str) -> (r: String)
    ensures
        r@ == plugin_dir@ + "/manifest.toml"@,
{
    let mut r = plugin_dir.to_owned();
    r.append("/manifest.toml");
    r
}

/// Resolves what a manifest declares against the manifest's own
/// directory: the executable path is rooted at that directory unless
/// already absolute, and the directory is recorded. With an absolute
/// directory both stored paths are absolute. Resolving symlinks and
/// checking that the executable exists read the filesystem and are
/// the caller's work; a missing executable is `ExecPathUnresolved`.
pub fn resolve_description(
    name: String,
    version: String,
    exec_path: String,
    manifest_dir: String,
    configuration: Option<String>,
) -> (r: PluginDescription)
    ensures
        r@.name == name@,
        r@.version == version@,
        r@.exec_path == spec_join(manifest_dir@, exec_path@),
        r@.dir == Some(manifest_dir@),
        r@.configuration == opt_view(configuration),
        is_absolute(manifest_dir@) ==> r.paths_absolute(),
{
    let resolved = join_path(manifest_dir.as_str(), exec_path.as_str());
    PluginDescription {
        name,
        version,
        exec_path: resolved,
        dir: Some(manifest_dir),
        configuration,
    }
}

} // verus!
