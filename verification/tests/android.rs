use tendril::android::{
    android_key_event, android_target_apps, classify_android_selector, decode_xml_entities, dedupe_apps,
    escape_android_input_text, find_node_for_element_id, find_node_for_selector, parse_active_app, parse_bounds,
    parse_component_from_line, parse_launchable_apps, parse_recent_apps, parse_uiautomator_nodes, parse_wm_size,
    plan_android_action, resolve_selector_on_nodes, scroll_swipe, select_auto_serial, tap_args, AndroidAppState,
    AndroidAppSummary, AndroidDevice, AndroidProbeOutputs, AndroidSelectorAction, AndroidStep,
};
use tendril::model::{Bounds, InputAction, MouseButton, RunInputPayload, TargetSelector};

const NODE_XML: &str = r#"<hierarchy><node text="Monitor" content-desc="Route monitor" resource-id="app:id/monitor" class="android.widget.Button" package="com.example" clickable="true" enabled="true" bounds="[140,1838][323,1971]" /></hierarchy>"#;

#[test]
fn parses_uiautomator_nodes_and_bounds() {
    let nodes = parse_uiautomator_nodes(NODE_XML);
    assert_eq!(nodes.len(), 1);
    assert_eq!(nodes[0].text.as_deref(), Some("Monitor"));
    assert_eq!(nodes[0].center(), Some((231, 1904)));
    assert!(nodes[0].clickable);
}

#[test]
fn auto_serial_rejects_multiple_devices_from_parser_shape() {
    let bounds = parse_wm_size("Physical size: 1440x3120\n").expect("wm size should parse");
    assert_eq!(bounds.width, 1440);
    assert_eq!(bounds.height, 3120);
}

#[test]
fn escapes_android_input_text_spaces() {
    assert_eq!(escape_android_input_text("hello world"), "hello%sworld");
}

#[test]
fn parses_active_recent_and_launchable_apps() {
    let active = parse_active_app("mCurrentFocus=Window{123 u0 com.example/.MainActivity}").expect("active app");
    assert_eq!(active.package, "com.example");
    assert_eq!(active.activity.as_deref(), Some("MainActivity"));
    assert_eq!(active.state, AndroidAppState::Active);

    let recent = parse_recent_apps(
        "Recent #0: TaskRecord{abc A=com.chat/.Inbox U=0}
Recent #1: TaskRecord{def A=com.chat/.Inbox U=0}",
    );
    assert_eq!(recent.len(), 1);
    assert_eq!(recent[0].package, "com.chat");

    let launchable = parse_launchable_apps(
        "ActivityInfo{abc com.todo/.Main}
  packageName=com.music name=.Player",
    );
    assert_eq!(launchable.len(), 2);
    assert_eq!(launchable[0].package, "com.todo");
    assert_eq!(launchable[1].package, "com.music");
}

#[test]
fn selector_matching_accepts_field_prefixes() {
    let nodes = parse_uiautomator_nodes(NODE_XML);
    assert!(find_node_for_selector(&nodes, "text=Monitor").is_some());
    assert!(find_node_for_selector(&nodes, "desc=Route monitor").is_some());
    assert!(find_node_for_selector(&nodes, "resource=app:id/monitor").is_some());
    assert!(find_node_for_selector(&nodes, "package=com.example").is_some());
}

#[test]
fn selector_matching_covers_class_suffix_quotes_and_misses() {
    let nodes = parse_uiautomator_nodes(NODE_XML);
    assert_eq!(find_node_for_selector(&nodes, "class=Button"), Some(0));
    assert_eq!(find_node_for_selector(&nodes, "  label = \"Monitor\" "), Some(0));
    assert_eq!(find_node_for_selector(&nodes, "Monitor"), Some(0));
    assert_eq!(find_node_for_selector(&nodes, "text=Other"), None);
    assert_eq!(find_node_for_selector(&nodes, "unknown=Monitor"), None);
    assert_eq!(find_node_for_element_id(&nodes, "android-node-0"), Some(0));
    assert_eq!(find_node_for_element_id(&nodes, "android-node-3"), None);
    assert_eq!(find_node_for_element_id(&nodes, "app:id/monitor"), Some(0));
}

#[test]
fn node_attributes_decode_entities_and_default_enabled() {
    let nodes = parse_uiautomator_nodes(
        r#"<node text="a &amp; b &lt;c&gt;" bounds="[0,0][10,20]"><node class="x" enabled="false" bounds="[5,5][1,1]">"#,
    );
    assert_eq!(nodes.len(), 2);
    assert_eq!(nodes[0].text.as_deref(), Some("a & b <c>"));
    assert!(nodes[0].enabled);
    assert!(nodes[0].visible());
    assert_eq!(nodes[0].label(), "a & b <c>");
    assert!(!nodes[1].enabled);
    assert_eq!(nodes[1].bounds, None);
    assert!(!nodes[1].visible());
    assert_eq!(nodes[1].label(), "x");
    assert!(parse_uiautomator_nodes("<node text=\"unclosed\"").is_empty());
}

#[test]
fn decodes_each_xml_entity_once() {
    let decoded: String = decode_xml_entities(&"&quot;&apos;&lt;&gt;&amp;lt;".chars().collect::<Vec<_>>())
        .into_iter()
        .collect();
    assert_eq!(decoded, "\"'<>&lt;");
}

#[test]
fn parses_bounds_and_rejects_reversed_corners() {
    let parse = |s: &str| parse_bounds(&s.chars().collect::<Vec<_>>());
    assert_eq!(parse("[1,2][11,22]"), Some(Bounds { x: 1, y: 2, width: 10, height: 20 }));
    assert_eq!(parse("[10,2][1,22]"), None);
    assert_eq!(parse("1,2][3,4]"), None);
    assert_eq!(parse("[a,2][3,4]"), None);
}

#[test]
fn wm_size_falls_back_to_any_line_with_an_x() {
    assert_eq!(parse_wm_size("Override size: 720x1280"), Some(Bounds { x: 0, y: 0, width: 720, height: 1280 }));
    assert_eq!(parse_wm_size("1080 x 1920\n"), Some(Bounds { x: 0, y: 0, width: 1080, height: 1920 }));
    assert_eq!(parse_wm_size("no size here"), None);
}

#[test]
fn auto_serial_picks_the_single_ready_device() {
    assert_eq!(
        select_auto_serial("List of devices attached\nemulator-5554\tdevice\nabc\toffline\n").expect("one device"),
        "emulator-5554"
    );
    let none = select_auto_serial("List of devices attached\n\n").expect_err("no device");
    assert_eq!(none.code(), "android_device_selection_failed");
    let many = select_auto_serial("a\tdevice\nb\tdevice\n").expect_err("two devices");
    assert_eq!(many.code(), "android_device_selection_failed");
}

#[test]
fn key_events_map_names_and_keep_numeric_codes() {
    assert_eq!(android_key_event("back").as_deref(), Some("KEYCODE_BACK"));
    assert_eq!(android_key_event(" volume-up ").as_deref(), Some("KEYCODE_VOLUME_UP"));
    assert_eq!(android_key_event("66").as_deref(), Some("66"));
    assert_eq!(android_key_event("F13"), None);
}

#[test]
fn components_are_read_from_dumpsys_lines() {
    assert_eq!(
        parse_component_from_line("cmp=com.app/.Main"),
        Some(("com.app".to_owned(), Some("Main".to_owned())))
    );
    assert_eq!(parse_component_from_line("http://example.com/x"), None);
    assert_eq!(parse_component_from_line("nopackage/Activity"), None);
    assert_eq!(parse_component_from_line("ActivityRecord{1 com.a/com.a.B t1}"), Some(("com.a".to_owned(), Some("com.a.B".to_owned()))));
}

#[test]
fn target_apps_keep_each_package_once_in_order() {
    let app = |p: &str, state| AndroidAppSummary { package: p.to_owned(), activity: None, label: None, state };
    let active = app("com.a", AndroidAppState::Active);
    let recent = vec![app("com.b", AndroidAppState::Recent), app("com.a", AndroidAppState::Recent)];
    let launchable = vec![app("com.c", AndroidAppState::Launchable), app("com.b", AndroidAppState::Launchable)];
    let apps = android_target_apps(Some(&active), &recent, &launchable);
    let packages: Vec<&str> = apps.iter().map(|a| a.package.as_str()).collect();
    assert_eq!(packages, ["com.a", "com.b", "com.c"]);
    assert_eq!(apps[0].state, AndroidAppState::Active);
    assert_eq!(dedupe_apps(vec![app("x.y", AndroidAppState::Recent), app("x.y", AndroidAppState::Launchable)]).len(), 1);
}

#[test]
fn element_selectors_classify_into_actions() {
    assert_eq!(
        classify_android_selector("launch:com.app").expect("launch"),
        AndroidSelectorAction::Launch { package: "com.app".to_owned() }
    );
    assert_eq!(classify_android_selector("launch: ").expect_err("blank package").code(), "invalid_run_input");
    assert_eq!(
        classify_android_selector("android:home").expect("home"),
        AndroidSelectorAction::Key { code: "KEYCODE_HOME".to_owned() }
    );
    assert_eq!(
        classify_android_selector("scroll-until:text=Done").expect("scroll"),
        AndroidSelectorAction::Tap { selector: "text=Done".to_owned(), scroll: true }
    );
    assert_eq!(
        classify_android_selector("assert-absent:Spinner").expect("absent"),
        AndroidSelectorAction::AssertAbsent { selector: "Spinner".to_owned() }
    );
}

#[test]
fn selector_actions_resolve_against_the_dump() {
    let nodes = parse_uiautomator_nodes(NODE_XML);
    let tap = AndroidSelectorAction::Tap { selector: "text=Monitor".to_owned(), scroll: false };
    assert_eq!(resolve_selector_on_nodes(&tap, &nodes, 0).expect("tap"), Some((231, 1904)));
    let missing = AndroidSelectorAction::AssertVisible { selector: "text=Gone".to_owned() };
    assert_eq!(resolve_selector_on_nodes(&missing, &nodes, 2).expect_err("missing").code(), "target_not_found");
    let absent = AndroidSelectorAction::AssertAbsent { selector: "Monitor".to_owned() };
    assert_eq!(
        resolve_selector_on_nodes(&absent, &nodes, 1).expect_err("present").code(),
        "android_assert_absent_failed"
    );
}

#[test]
fn input_actions_plan_adb_steps() {
    let tap = plan_android_action(&InputAction::Click { button: MouseButton::Left, x: 3, y: 4 }, 0).expect("tap");
    assert_eq!(tap, AndroidStep::Tap { x: 3, y: 4 });
    let right = plan_android_action(&InputAction::Click { button: MouseButton::Right, x: 3, y: 4 }, 2);
    assert_eq!(right.expect_err("right click").code(), "android_mouse_button_unsupported");
    let scroll = plan_android_action(&InputAction::Scroll { x: 10, y: 100, dy: 3 }, 0).expect("scroll");
    assert_eq!(scroll, AndroidStep::Swipe { x0: 10, y0: 340, x1: 10, y1: 100, duration_ms: 450 });
    let far = plan_android_action(&InputAction::Scroll { x: 0, y: 0, dy: -100 }, 0).expect("scroll");
    assert_eq!(far, AndroidStep::Swipe { x0: 0, y0: -1200, x1: 0, y1: 0, duration_ms: 450 });
    let text = plan_android_action(&InputAction::Send { text: "a b%".to_owned() }, 0).expect("text");
    assert_eq!(text, AndroidStep::Text { escaped: "a%sb%25".to_owned() });
    assert_eq!(
        plan_android_action(&InputAction::KeyTap { key: "nope".to_owned() }, 0).expect_err("key").code(),
        "invalid_run_input"
    );
}

#[test]
fn scroll_swipe_uses_screen_fifths_and_default_size() {
    assert_eq!(scroll_swipe(None), (540, 1536, 540, 384));
    assert_eq!(scroll_swipe(Some(Bounds { x: 0, y: 0, width: 100, height: 50 })), (50, 40, 50, 10));
    assert_eq!(tap_args(-1, 2), ["shell", "input", "tap", "-1", "2"]);
}

#[test]
fn device_summary_and_listing_reflect_query_outputs() {
    let device = AndroidDevice::new("emu".to_owned(), "/tmp/art".to_owned());
    let summary = device.summary(&AndroidProbeOutputs {
        state: Some("device\n".to_owned()),
        model: Some("  ".to_owned()),
        wm_size: Some("Physical size: 1x2\n".to_owned()),
        wm_density: None,
        windows: Some("  mCurrentFocus=Window{1 u0 com.app/.Main}\n".to_owned()),
        recents: None,
        launchables: Some("packageName=com.a name=.A\npackageName=com.a name=.B\n".to_owned()),
    });
    assert_eq!(summary.state, "device");
    assert_eq!(summary.model, None);
    assert_eq!(summary.wm_size.as_deref(), Some("Physical size: 1x2"));
    assert_eq!(summary.focused_window.as_deref(), Some("mCurrentFocus=Window{1 u0 com.app/.Main}"));
    assert_eq!(summary.active_app.as_ref().map(|a| a.package.as_str()), Some("com.app"));
    assert_eq!(summary.launchable_app_count, 1);
    let listing = device.list_output_with_apps(&vec![summary.active_app.clone().expect("active")], None, &summary);
    assert_eq!(listing.targets.len(), 2);
    assert_eq!(listing.targets[0].id, "android:emu");
    assert_eq!(listing.targets[1].id, "android:emu:app:com.app");
    assert_eq!(listing.targets[1].bounds, Bounds { x: 0, y: 0, width: 1, height: 1 });
    let run = device.run_output(&RunInputPayload::Text { text: "hi".to_owned() }, None, None);
    assert_eq!(run.action_count, 1);
    assert_eq!(run.target, TargetSelector::Display { id: "android:emu".to_owned() });
}

#[test]
fn recent_apps_keep_each_package_once_in_first_seen_order() {
    let recent = parse_recent_apps(
        "Recent #0: TaskRecord{abc A=com.chat/.Inbox U=0}\nRecent #1: TaskRecord{def A=com.chat/.Inbox U=0}",
    );
    assert_eq!(recent.len(), 1);
    assert_eq!(recent[0].package, "com.chat");
    assert_eq!(recent[0].label, None);
    assert_eq!(recent[0].state, AndroidAppState::Recent);
}
