//! The host capability bridge: the one function sandboxed code may
//! call into the host, and the legacy peer's handler with the same
//! notification vocabulary. Both forward decoded notifications to the
//! dispatcher; a malformed payload is a silent no-op.
use vstd::prelude::*;

use crate::notification::{decode_notification, spec_decode, NotificationView, PluginNotification, PluginRequest};
use crate::json::opt_view;

verus! {

/// One recorded `start_server` invocation on the dispatcher.
pub struct StartServerCall {
    pub exec_path: String,
    pub language_id: String,
    pub options: Option<String>,
}

/// The mathematical content of one `start_server` invocation.
pub ghost struct StartServerCallView {
    pub exec_path: Seq<char>,
    pub language_id: Seq<char>,
    pub options: Option<Seq<char>>,
}

impl View for StartServerCall {
    type V = StartServerCallView;

    open spec fn view(&self) -> StartServerCallView {
        StartServerCallView {
            exec_path: self.exec_path@,
            language_id: self.language_id@,
            options: opt_view(self.options),
        }
    }
}

/// The invocation a decoded notification asks for.
pub open spec fn call_of(v: NotificationView) -> StartServerCallView {
    match v {
        NotificationView::StartLspServer { exec_path, language_id, options } => {
            StartServerCallView { exec_path, language_id, options }
        },
    }
}

/// The language-server registry: the one resource shared across all
/// plugins. It records every `start_server` invocation in order; the
/// surrounding process guards it with a single lock held only for the
/// duration of a forward call.
pub struct LspCatalog {
    calls: Vec<StartServerCall>,
}

impl LspCatalog {
    /// Every `start_server` invocation so far, in invocation order.
    pub closed spec fn calls(self) -> Seq<StartServerCallView> {
        self.calls@.map_values(|c: StartServerCall| c@)
    }

    /// A registry with no invocations yet.
    pub fn new() -> (r: LspCatalog)
        ensures
            r.calls() == Seq::<StartServerCallView>::empty(),
    {
        let r = LspCatalog { calls: Vec::new() };
        proof {
            assert(r.calls() =~= Seq::<StartServerCallView>::empty());
        }
        r
    }

    /// How many `start_server` invocations happened.
    pub fn len(&self) -> (r: usize)
        ensures
            r == self.calls().len(),
    {
        self.calls.len()
    }

    /// The `i`-th recorded invocation.
    pub fn get(&self, i: usize) -> (r: &StartServerCall)
        requires
            i < self.calls().len(),
        ensures
            r@ == self.calls()[i as int],
    {
        &self.calls[i]
    }

    /// Starts (or asks again for) a language server: records exactly
    /// one invocation with these arguments.
    pub fn start_server(&mut self, exec_path: &str, language_id: &str, options: Option<String>)
        ensures
            final(self).calls() == old(self).calls().push(
                StartServerCallView {
                    exec_path: exec_path@,
                    language_id: language_id@,
                    options: opt_view(options),
                },
            ),
    {
        let call = StartServerCall {
            exec_path: exec_path.to_owned(),
            language_id: language_id.to_owned(),
            options,
        };
        self.calls.push(call);
        proof {
            assert(self.calls() =~= old(self).calls().push(
                StartServerCallView {
                    exec_path: exec_path@,
                    language_id: language_id@,
                    options: opt_view(options),
                },
            ));
        }
    }
}

/// The host-side actions a plugin notification may trigger. The
/// language-server registry is its only resource so far.
pub struct Dispatcher {
    pub lsp: LspCatalog,
}

impl Dispatcher {
    /// A dispatcher over a fresh registry.
    pub fn new() -> (r: Dispatcher)
        ensures
            r.lsp.calls() == Seq::<StartServerCallView>::empty(),
    {
        Dispatcher { lsp: LspCatalog::new() }
    }
}

/// The one host capability: called by sandboxed code after it wrote a
/// payload to its output channel. A payload that decodes to a known
/// notification triggers exactly one dispatcher invocation with the
/// decoded fields; anything else leaves the dispatcher untouched.
pub fn host_handle_notification(payload: &str, dispatcher: &mut Dispatcher)
    ensures
        spec_decode(payload@) matches Some(v) ==> final(dispatcher).lsp.calls() == old(
            dispatcher,
        ).lsp.calls().push(call_of(v)),
        spec_decode(payload@) is None ==> final(dispatcher).lsp.calls() == old(
            dispatcher,
        ).lsp.calls(),
{
    match decode_notification(payload) {
        Some(notification) => match notification {
            PluginNotification::StartLspServer { exec_path, language_id, options } => {
                dispatcher.lsp.start_server(exec_path.as_str(), language_id.as_str(), options);
            },
        },
        None => {},
    }
}

/// An error answered to a legacy peer.
pub enum RpcError {
    /// The request is not part of the protocol.
    InvalidRequest,
}

/// The handler registered on a legacy plugin's RPC peer. Its
/// notification vocabulary is the sandbox bridge's; requests are not
/// supported.
pub struct PluginHandler {
    pub dispatcher: Dispatcher,
}

impl PluginHandler {
    /// A handler forwarding to `dispatcher`.
    pub fn new(dispatcher: Dispatcher) -> (r: PluginHandler)
        ensures
            r.dispatcher.lsp.calls() == dispatcher.lsp.calls(),
    {
        PluginHandler { dispatcher }
    }

    /// Forwards one decoded notification: exactly one dispatcher
    /// invocation with the notification's fields.
    pub fn handle_notification(&mut self, rpc: PluginNotification)
        ensures
            final(self).dispatcher.lsp.calls() == old(self).dispatcher.lsp.calls().push(
                call_of(rpc@),
            ),
    {
        match rpc {
            PluginNotification::StartLspServer { exec_path, language_id, options } => {
                self.dispatcher.lsp.start_server(
                    exec_path.as_str(),
                    language_id.as_str(),
                    options,
                );
            },
        }
    }

    /// Requests are not part of the protocol: every one is answered
    /// with an invalid-request error, and nothing else happens.
    pub fn handle_request(&mut self, rpc: PluginRequest) -> (r: Result<String, RpcError>)
        ensures
            r is Err,
            final(self).dispatcher.lsp.calls() == old(self).dispatcher.lsp.calls(),
    {
        let _ = rpc;
        Err(RpcError::InvalidRequest)
    }
}

} // verus!
