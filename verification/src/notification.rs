//! The guest-to-host notification protocol: a tagged union carried as
//! one JSON object per message, with a `method` discriminator and a
//! `params` payload. Unknown tags and malformed payloads are decode
//! failures, never a crash.
use vstd::prelude::*;

use crate::json::{field_text, json_field, json_string_value, opt_view, string_value};
use crate::text::dec_str;
use crate::text::usize_to_string;
use crate::id::PluginId;

verus! {

/// A notification a guest may send to the host. Structured option
/// values travel as their compact JSON text, so that the host's
/// decision logic works on plain values.
pub enum PluginNotification {
    StartLspServer { exec_path: String, language_id: String, options: Option<String> },
}

/// The mathematical content of a decoded notification.
pub ghost enum NotificationView {
    StartLspServer { exec_path: Seq<char>, language_id: Seq<char>, options: Option<Seq<char>> },
}

impl View for PluginNotification {
    type V = NotificationView;

    open spec fn view(&self) -> NotificationView {
        match self {
            PluginNotification::StartLspServer { exec_path, language_id, options } => {
                NotificationView::StartLspServer {
                    exec_path: exec_path@,
                    language_id: language_id@,
                    options: opt_view(*options),
                }
            },
        }
    }
}

/// Requests from a plugin are not part of the protocol: whatever a
/// peer sends as a request is unsupported and is answered with an
/// invalid-request error.
#[derive(Debug)]
pub enum PluginRequest {
    Unsupported,
}

/// The `params.options` field as the dispatcher sees it: an absent
/// field and an explicit `null` both mean that no options were given.
pub open spec fn spec_options(params: Seq<char>) -> Option<Seq<char>> {
    match json_field(params, "options"@) {
        Some(t) => if t == "null"@ {
            None
        } else {
            Some(t)
        },
        None => None,
    }
}

/// What a payload on the guest-output channel decodes to: the one
/// known tag with its three fields, or nothing for any malformed or
/// unknown message.
pub open spec fn spec_decode(s: Seq<char>) -> Option<NotificationView> {
    if json_field(s, "method"@) != Some("\"start_lsp_server\""@) {
        None
    } else {
        match json_field(s, "params"@) {
            None => None,
            Some(params) => match json_field(params, "exec_path"@) {
                None => None,
                Some(ep_text) => match json_string_value(ep_text) {
                    None => None,
                    Some(exec_path) => match json_field(params, "language_id"@) {
                        None => None,
                        Some(li_text) => match json_string_value(li_text) {
                            None => None,
                            Some(language_id) => Some(NotificationView::StartLspServer {
                                exec_path,
                                language_id,
                                options: spec_options(params),
                            }),
                        },
                    },
                },
            },
        }
    }
}

/// Decodes one guest payload. Returns the notification exactly when
/// the payload is a JSON object tagged `start_lsp_server` whose
/// params carry string `exec_path` and `language_id` fields; every
/// other payload is rejected.
pub fn decode_notification(payload: &str) -> (r: Option<PluginNotification>)
    ensures
        r matches Some(n) ==> spec_decode(payload@) == Some(n@),
        r is None ==> spec_decode(payload@) is None,
{
    let method = match field_text(payload, "method") {
        Some(m) => m,
        None => return None,
    };
    let tag: String = "\"start_lsp_server\"".to_owned();
    if !(method == tag) {
        return None;
    }
    let params = match field_text(payload, "params") {
        Some(p) => p,
        None => return None,
    };
    let exec_path = match field_text(params.as_str(), "exec_path") {
        Some(t) => match string_value(t.as_str()) {
            Some(v) => v,
            None => return None,
        },
        None => return None,
    };
    let language_id = match field_text(params.as_str(), "language_id") {
        Some(t) => match string_value(t.as_str()) {
            Some(v) => v,
            None => return None,
        },
        None => return None,
    };
    let null_text: String = "null".to_owned();
    let options = match field_text(params.as_str(), "options") {
        Some(t) => if t == null_text {
            None
        } else {
            Some(t)
        },
        None => None,
    };
    Some(PluginNotification::StartLspServer { exec_path, language_id, options })
}

/// The initialization payload handed to a sandboxed plugin before its
/// entry point runs: the manifest's configuration value, or an empty
/// object when the manifest gave none.
pub open spec fn spec_initialize_message(configuration: Option<Seq<char>>) -> Seq<char> {
    match configuration {
        Some(c) => c,
        None => "{}"@,
    }
}

/// Builds the initialization payload for a sandboxed plugin.
pub fn initialize_message(configuration: &Option<String>) -> (r: String)
    ensures
        r@ == spec_initialize_message(opt_view(*configuration)),
{
    match configuration {
        Some(c) => c.clone(),
        None => "{}".to_owned(),
    }
}

/// The initialize notification parameters sent to a legacy
/// out-of-process plugin right after it is spawned.
pub open spec fn spec_legacy_initialize_params(
    id: PluginId,
    configuration: Option<Seq<char>>,
) -> Seq<char> {
    "{\"plugin_id\":"@ + dec_str(id.0 as nat) + ",\"configuration\":"@ + match configuration {
        Some(c) => c,
        None => "null"@,
    } + "}"@
}

/// Builds the parameter object of the legacy initialize notification:
/// the plugin's identity and its manifest configuration (JSON `null`
/// when the manifest gave none).
pub fn legacy_initialize_params(id: &PluginId, configuration: &Option<String>) -> (r: String)
    ensures
        r@ == spec_legacy_initialize_params(*id, opt_view(*configuration)),
{
    let mut r: String = "{\"plugin_id\":".to_owned();
    let num = usize_to_string(id.0);
    r.append(num.as_str());
    r.append(",\"configuration\":");
    match configuration {
        Some(c) => r.append(c.as_str()),
        None => r.append("null"),
    }
    r.append("}");
    proof {
        assert(r@ =~= spec_legacy_initialize_params(*id, opt_view(*configuration)));
    }
    r
}

} // verus!
