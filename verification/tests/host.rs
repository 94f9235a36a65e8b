use plugin_host::catalog::PluginCatalog;
use plugin_host::channel::{frame_message, take_frame};
use plugin_host::dispatch::{host_handle_notification, Dispatcher, PluginHandler};
use plugin_host::id::{Counter, PluginId};
use plugin_host::manifest::{resolve_description, ManifestError};
use plugin_host::notification::{
    decode_notification, initialize_message, legacy_initialize_params, PluginNotification,
    PluginRequest,
};
use plugin_host::text::{join_path, usize_to_string};

fn demo_description(
    name: &str,
    version: &str,
    exec_path: &str,
    dir: &str,
) -> plugin_host::manifest::PluginDescription {
    resolve_description(
        name.to_string(),
        version.to_string(),
        exec_path.to_string(),
        dir.to_string(),
        None,
    )
}

#[test]
fn counter_yields_distinct_increasing_values() {
    let mut c = Counter::new();
    let mut seen = Vec::new();
    for _ in 0..5 {
        seen.push(c.next());
    }
    assert_eq!(seen, vec![1, 2, 3, 4, 5]);
    for w in seen.windows(2) {
        assert!(w[0] < w[1]);
    }
}

#[test]
fn next_plugin_id_yields_distinct_increasing_ids() {
    let mut catalog = PluginCatalog::new();
    let a = catalog.next_plugin_id();
    let b = catalog.next_plugin_id();
    let c = catalog.next_plugin_id();
    assert_eq!(a, PluginId(1));
    assert_eq!(b, PluginId(2));
    assert_eq!(c, PluginId(3));
}

#[test]
fn join_path_roots_relative_paths() {
    assert_eq!(join_path("/home/u/plugins/demo", "demo.wasm"), "/home/u/plugins/demo/demo.wasm");
    assert_eq!(join_path("/home/u/plugins/demo", "./demo.wasm"), "/home/u/plugins/demo/./demo.wasm");
    assert_eq!(join_path("/a", "/usr/bin/tool"), "/usr/bin/tool");
}

#[test]
fn resolved_description_has_absolute_paths() {
    let d = demo_description("demo", "0.1", "./demo.wasm", "/home/u/.lapce/plugins/demo");
    assert!(d.exec_path.starts_with('/'));
    assert_eq!(d.exec_path, "/home/u/.lapce/plugins/demo/./demo.wasm");
    assert_eq!(d.dir.as_deref(), Some("/home/u/.lapce/plugins/demo"));
    let abs = demo_description("demo", "0.1", "/opt/demo.wasm", "/home/u/.lapce/plugins/demo");
    assert_eq!(abs.exec_path, "/opt/demo.wasm");
}

#[test]
fn load_keeps_good_manifests_and_skips_bad_ones() {
    let mut catalog = PluginCatalog::new();
    catalog.load(vec![
        Ok(demo_description("one", "0.1", "./a.wasm", "/p/one")),
        Err(ManifestError::Malformed),
        Ok(demo_description("two", "0.2", "./b.wasm", "/p/two")),
        Err(ManifestError::Unreadable),
    ]);
    let items = catalog.items();
    assert_eq!(items.len(), 2);
    let names: Vec<&str> = items.iter().map(|d| d.name.as_str()).collect();
    assert!(names.contains(&"one"));
    assert!(names.contains(&"two"));
}

#[test]
fn load_replaces_same_name_last_wins() {
    let mut catalog = PluginCatalog::new();
    catalog.load(vec![
        Ok(demo_description("one", "0.1", "./a.wasm", "/p/one")),
        Ok(demo_description("one", "0.9", "./a.wasm", "/p/other")),
    ]);
    let items = catalog.items();
    assert_eq!(items.len(), 1);
    assert_eq!(items[0].version, "0.9");
    assert_eq!(items[0].dir.as_deref(), Some("/p/other"));
}

fn snapshot(catalog: &PluginCatalog) -> Vec<(String, String, String)> {
    let mut v: Vec<(String, String, String)> = catalog
        .items()
        .iter()
        .map(|d| (d.name.clone(), d.version.clone(), d.exec_path.clone()))
        .collect();
    v.sort();
    v
}

#[test]
fn reload_then_load_on_unchanged_directory_is_stable() {
    let discover = || {
        vec![
            Ok(demo_description("one", "0.1", "./a.wasm", "/p/one")),
            Err(ManifestError::ExecPathUnresolved),
            Ok(demo_description("two", "0.2", "./b.wasm", "/p/two")),
        ]
    };
    let mut catalog = PluginCatalog::new();
    catalog.load(discover());
    let before = snapshot(&catalog);
    catalog.reload(discover());
    catalog.load(discover());
    assert_eq!(snapshot(&catalog), before);
}

#[test]
fn reload_drops_running_instances_but_keeps_counter() {
    let mut catalog = PluginCatalog::new();
    catalog.load(vec![Ok(demo_description("one", "0.1", "./a.wasm", "/p/one"))]);
    catalog.start_all(vec![Ok("one".to_string())]);
    assert_eq!(catalog.plugins().len(), 1);
    catalog.reload(vec![Ok(demo_description("one", "0.1", "./a.wasm", "/p/one"))]);
    assert_eq!(catalog.plugins().len(), 0);
    // identities are not reused after a reload
    assert_eq!(catalog.next_plugin_id(), PluginId(2));
}

#[test]
fn first_started_plugin_gets_id_one() {
    let mut catalog = PluginCatalog::new();
    catalog.load(vec![Ok(demo_description("demo", "0.1", "./demo.wasm", "/h/.lapce/plugins/demo"))]);
    assert_eq!(catalog.items()[0].exec_path, "/h/.lapce/plugins/demo/./demo.wasm");
    catalog.start_all(vec![Ok("demo".to_string())]);
    let running = catalog.plugins();
    assert_eq!(running.len(), 1);
    assert_eq!(running[0].0, PluginId(1));
    assert_eq!(running[0].1, "demo");
    // the initialization payload for a configuration-less manifest
    assert_eq!(initialize_message(&None), "{}");
    assert_eq!(frame_message(&initialize_message(&None)), "{}\r\n");
}

#[test]
fn start_all_skips_failures_and_numbers_the_rest() {
    let mut catalog = PluginCatalog::new();
    catalog.start_all(vec![
        Ok("a".to_string()),
        Err(plugin_host::catalog::SandboxError::Compile),
        Ok("b".to_string()),
    ]);
    let running = catalog.plugins();
    assert_eq!(running.len(), 2);
    assert_eq!(running[0], (PluginId(1), "a".to_string()));
    assert_eq!(running[1], (PluginId(2), "b".to_string()));
}

#[test]
fn well_formed_notification_dispatches_exactly_once() {
    let payload = "{\"method\":\"start_lsp_server\",\"params\":{\"exec_path\":\"/usr/bin/rust-analyzer\",\"language_id\":\"rust\",\"options\":null}}";
    let mut dispatcher = Dispatcher::new();
    host_handle_notification(payload, &mut dispatcher);
    assert_eq!(dispatcher.lsp.len(), 1);
    let call = dispatcher.lsp.get(0);
    assert_eq!(call.exec_path, "/usr/bin/rust-analyzer");
    assert_eq!(call.language_id, "rust");
    assert_eq!(call.options, None);
}

#[test]
fn notification_options_value_is_carried_through() {
    let payload = "{\"method\":\"start_lsp_server\",\"params\":{\"exec_path\":\"/bin/ls\",\"language_id\":\"go\",\"options\":{\"a\": 1}}}";
    match decode_notification(payload) {
        Some(PluginNotification::StartLspServer { exec_path, language_id, options }) => {
            assert_eq!(exec_path, "/bin/ls");
            assert_eq!(language_id, "go");
            assert_eq!(options.as_deref(), Some("{\"a\":1}"));
        },
        None => panic!("a well-formed notification was rejected"),
    }
}

#[test]
fn escaped_method_tag_still_decodes() {
    // the tag is matched after JSON decoding, not textually
    let payload = "{\"method\":\"start_lsp_serve\\u0072\",\"params\":{\"exec_path\":\"/bin/x\",\"language_id\":\"c\"}}";
    let decoded = decode_notification(payload);
    assert!(decoded.is_some());
}

#[test]
fn malformed_payloads_dispatch_nothing() {
    let payloads = [
        "not json at all",
        "",
        "42",
        "[1,2,3]",
        "{}",
        "{\"params\":{\"exec_path\":\"/x\",\"language_id\":\"c\"}}",
        "{\"method\":\"unknown_tag\",\"params\":{}}",
        "{\"method\":\"start_lsp_server\"}",
        "{\"method\":\"start_lsp_server\",\"params\":{\"language_id\":\"c\"}}",
        "{\"method\":\"start_lsp_server\",\"params\":{\"exec_path\":42,\"language_id\":\"c\"}}",
        "{\"method\":7,\"params\":{\"exec_path\":\"/x\",\"language_id\":\"c\"}}",
    ];
    let mut dispatcher = Dispatcher::new();
    for payload in payloads {
        host_handle_notification(payload, &mut dispatcher);
    }
    assert_eq!(dispatcher.lsp.len(), 0);
}

#[test]
fn handler_shares_the_notification_vocabulary() {
    let mut handler = PluginHandler::new(Dispatcher::new());
    handler.handle_notification(PluginNotification::StartLspServer {
        exec_path: "/usr/bin/gopls".to_string(),
        language_id: "go".to_string(),
        options: None,
    });
    assert_eq!(handler.dispatcher.lsp.len(), 1);
    assert_eq!(handler.dispatcher.lsp.get(0).exec_path, "/usr/bin/gopls");
    let answer = handler.handle_request(PluginRequest::Unsupported);
    assert!(answer.is_err());
    assert_eq!(handler.dispatcher.lsp.len(), 1);
}

#[test]
fn decimal_rendering_is_exact() {
    assert_eq!(usize_to_string(0), "0");
    assert_eq!(usize_to_string(7), "7");
    assert_eq!(usize_to_string(1234567890), "1234567890");
}

#[test]
fn legacy_initialize_params_are_exact() {
    assert_eq!(
        legacy_initialize_params(&PluginId(7), &None),
        "{\"plugin_id\":7,\"configuration\":null}"
    );
    assert_eq!(
        legacy_initialize_params(&PluginId(12), &Some("{\"a\":1}".to_string())),
        "{\"plugin_id\":12,\"configuration\":{\"a\":1}}"
    );
}

#[test]
fn framing_round_trips_sequential_messages() {
    let mut buffer = String::new();
    buffer.push_str(&frame_message("{\"a\":1}"));
    buffer.push_str(&frame_message("{\"b\":2}"));
    let (first, rest) = take_frame(&buffer).expect("first frame");
    assert_eq!(first, "{\"a\":1}");
    let (second, rest) = take_frame(&rest).expect("second frame");
    assert_eq!(second, "{\"b\":2}");
    assert_eq!(rest, "");
    assert_eq!(take_frame(&rest), None);
}

#[test]
fn incomplete_frame_waits_for_more_bytes() {
    assert_eq!(take_frame("{\"a\":1}"), None);
    assert_eq!(take_frame(""), None);
}

#[test]
fn guest_scenario_reaches_the_dispatcher() {
    // a guest writes one framed notification to its output channel
    let written = frame_message(
        "{\"method\":\"start_lsp_server\",\"params\":{\"exec_path\":\"/usr/bin/rust-analyzer\",\"language_id\":\"rust\",\"options\":null}}",
    );
    let (payload, rest) = take_frame(&written).expect("one whole frame");
    assert_eq!(rest, "");
    let mut dispatcher = Dispatcher::new();
    host_handle_notification(&payload, &mut dispatcher);
    assert_eq!(dispatcher.lsp.len(), 1);
    let call = dispatcher.lsp.get(0);
    assert_eq!(call.exec_path, "/usr/bin/rust-analyzer");
    assert_eq!(call.language_id, "rust");
    assert_eq!(call.options, None);
}
