use tendril::win32::{
    capture_display_png, capture_window_png, character_key_events, displays_from_monitors, extended_key_flag, find_display,
    focus_window, key_tap, listed_window, modifier_virtual_key, mouse_event_flags, named_virtual_key, order_displays,
    order_windows, parse_window_id, tap_key, window_capture_area, windows_from_candidates, Bounds, DisplayInfo, KeyEvent,
    KeyTap, ModifierKey, MonitorArea, MouseButton, WindowCandidate, WindowInfo, WindowRect, KEYEVENTF_EXTENDEDKEY,
    VK_CONTROL, VK_DELETE, VK_LWIN, VK_MENU, VK_NEXT, VK_RETURN, VK_SHIFT,
};

const UNAVAILABLE: &str = "native Windows runtime bindings are only available when building for Windows";

fn display(id: &str, name: &str, x: i32, y: i32) -> DisplayInfo {
    DisplayInfo { id: id.to_owned(), name: name.to_owned(), bounds: Bounds { x, y, width: 1920, height: 1080 } }
}

fn window(id: &str, title: &str, x: i32, y: i32) -> WindowInfo {
    WindowInfo {
        id: id.to_owned(),
        title: title.to_owned(),
        app_name: None,
        process_id: 7,
        bounds: Bounds { x, y, width: 800, height: 600 },
    }
}

fn rect(left: i32, top: i32, right: i32, bottom: i32) -> WindowRect {
    WindowRect { left, top, right, bottom }
}

#[test]
fn named_keys_map_to_virtual_keys_in_any_case() {
    assert_eq!(named_virtual_key("Return"), Some(VK_RETURN));
    assert_eq!(named_virtual_key("ENTER"), Some(0x0D));
    assert_eq!(named_virtual_key("del"), Some(VK_DELETE));
    assert_eq!(named_virtual_key("PageDown"), Some(VK_NEXT));
    assert_eq!(named_virtual_key("f5"), None);
}

#[test]
fn modifiers_and_buttons_map_to_event_codes() {
    assert_eq!(modifier_virtual_key(ModifierKey::Meta), VK_LWIN);
    assert_eq!(modifier_virtual_key(ModifierKey::Alt), VK_MENU);
    assert_eq!(mouse_event_flags(MouseButton::Left), (0x0002, 0x0004));
    assert_eq!(mouse_event_flags(MouseButton::Middle), (0x0020, 0x0040));
}

#[test]
fn navigation_keys_are_extended() {
    assert_eq!(extended_key_flag(VK_DELETE), KEYEVENTF_EXTENDEDKEY);
    assert_eq!(extended_key_flag(VK_CONTROL), KEYEVENTF_EXTENDEDKEY);
    assert_eq!(extended_key_flag(VK_RETURN), 0);
    assert_eq!(extended_key_flag(VK_SHIFT), 0);
}

#[test]
fn shifted_characters_are_typed_inside_their_modifier_chord() {
    assert_eq!(character_key_events(-1), None);
    // 'A' on a US layout: virtual key 0x41 with shift.
    assert_eq!(
        character_key_events(0x0141),
        Some(vec![
            KeyEvent { vk: VK_SHIFT, key_up: false },
            KeyEvent { vk: 0x41, key_up: false },
            KeyEvent { vk: 0x41, key_up: true },
            KeyEvent { vk: VK_SHIFT, key_up: true },
        ])
    );
    // Ctrl+Alt (AltGr) with shift: modifiers pressed shift, ctrl, alt and
    // released in reverse.
    let events = character_key_events(0x0751).expect("translated key");
    let order: Vec<(u16, bool)> = events.iter().map(|e| (e.vk, e.key_up)).collect();
    assert_eq!(
        order,
        vec![
            (VK_SHIFT, false),
            (VK_CONTROL, false),
            (VK_MENU, false),
            (0x51, false),
            (0x51, true),
            (VK_MENU, true),
            (VK_CONTROL, true),
            (VK_SHIFT, true),
        ]
    );
}

#[test]
fn window_ids_are_read_as_hex_after_0x_and_decimal_otherwise() {
    assert_eq!(parse_window_id("0x1A2B"), Ok(0x1A2B));
    assert_eq!(parse_window_id("  0Xff\n"), Ok(255));
    assert_eq!(parse_window_id("4242"), Ok(4242));
    assert_eq!(parse_window_id("+17"), Ok(17));
    assert_eq!(
        parse_window_id("0x"),
        Err("window target id `0x` could not be parsed: cannot parse integer from empty string".to_owned())
    );
    assert_eq!(
        parse_window_id("0xZZ"),
        Err("window target id `0xZZ` could not be parsed: invalid digit found in string".to_owned())
    );
    assert_eq!(
        parse_window_id("-1"),
        Err("window target id `-1` could not be parsed: invalid digit found in string".to_owned())
    );
    assert_eq!(
        parse_window_id("+"),
        Err("window target id `+` could not be parsed: invalid digit found in string".to_owned())
    );
    assert_eq!(
        parse_window_id(" "),
        Err("window target id ` ` could not be parsed: cannot parse integer from empty string".to_owned())
    );
    let too_large = format!("{}0", usize::MAX);
    assert_eq!(
        parse_window_id(&too_large),
        Err(format!("window target id `{too_large}` could not be parsed: number too large to fit in target type"))
    );
    // the first failure read from the left wins
    assert_eq!(
        parse_window_id(&format!("{}x", usize::MAX)),
        Err(format!("window target id `{}x` could not be parsed: invalid digit found in string", usize::MAX))
    );
    assert_eq!(
        parse_window_id(&format!("{}0x", usize::MAX)),
        Err(format!("window target id `{}0x` could not be parsed: number too large to fit in target type", usize::MAX))
    );
}

#[test]
fn window_operations_refuse_unparsable_ids_before_the_runtime() {
    assert_eq!(
        capture_window_png("window-7"),
        Err("window target id `window-7` could not be parsed: invalid digit found in string".to_owned())
    );
    assert_eq!(
        focus_window("0xG"),
        Err("window target id `0xG` could not be parsed: invalid digit found in string".to_owned())
    );
    assert_eq!(capture_window_png("0x10"), Err(UNAVAILABLE.to_owned()));
    assert_eq!(capture_display_png("1"), Err(UNAVAILABLE.to_owned()));
}

#[test]
fn window_capture_needs_an_area() {
    assert_eq!(
        window_capture_area("0x10", rect(10, 20, 110, 220)),
        Ok(Bounds { x: 10, y: 20, width: 100, height: 200 })
    );
    assert_eq!(
        window_capture_area("0x10", rect(10, 20, 10, 220)),
        Err("window `0x10` has invalid bounds".to_owned())
    );
    assert_eq!(
        window_capture_area("0x10", rect(10, 20, 110, 5)),
        Err("window `0x10` has invalid bounds".to_owned())
    );
}

#[test]
fn displays_are_found_by_their_first_matching_id() {
    let displays = vec![display("1", "A", 0, 0), display("2", "B", 1920, 0), display("2", "C", 0, 1080)];
    assert_eq!(find_display(&displays, "2"), Ok(1));
    assert_eq!(find_display(&displays, "3"), Err("display target `3` was not found".to_owned()));
    assert_eq!(find_display(&Vec::new(), "1"), Err("display target `1` was not found".to_owned()));
}

#[test]
fn key_names_become_named_keys_or_single_characters() {
    assert_eq!(key_tap("Enter"), Ok(KeyTap::Virtual(VK_RETURN)));
    assert_eq!(key_tap("q"), Ok(KeyTap::Character('q')));
    assert_eq!(key_tap("é"), Ok(KeyTap::Character('é')));
    assert_eq!(key_tap("f13"), Err("unsupported Windows key `f13`".to_owned()));
    assert_eq!(tap_key("hyper"), Err("unsupported Windows key `hyper`".to_owned()));
    assert_eq!(tap_key("tab"), Err(UNAVAILABLE.to_owned()));
}

#[test]
fn displays_are_ordered_by_position_then_name_and_numbered() {
    let ordered = order_displays(vec![
        display("", "\\\\.\\DISPLAY3", 1920, 0),
        display("", "b-side", 0, 1080),
        display("", "\\\\.\\display2", 0, 0),
        display("", "A-side", 0, 1080),
    ]);
    let summary: Vec<(&str, i32, i32, &str)> =
        ordered.iter().map(|d| (d.id.as_str(), d.bounds.x, d.bounds.y, d.name.as_str())).collect();
    assert_eq!(
        summary,
        vec![
            ("1", 0, 0, "\\\\.\\display2"),
            ("2", 1920, 0, "\\\\.\\DISPLAY3"),
            ("3", 0, 1080, "A-side"),
            ("4", 0, 1080, "b-side"),
        ]
    );
}

#[test]
fn windows_are_ordered_by_position_title_and_id_keeping_ties() {
    let mut twin = window("0x2", "Same", 0, 0);
    twin.process_id = 9;
    let ordered = order_windows(vec![
        window("0x3", "zeta", 0, 0),
        window("0xB", "Alpha", 0, 0),
        window("0xA", "alpha", 0, 0),
        window("0x1", "Top", 500, -10),
        twin.clone(),
        window("0x2", "Same", 0, 0),
    ]);
    let ids: Vec<(&str, u32)> = ordered.iter().map(|w| (w.id.as_str(), w.process_id)).collect();
    assert_eq!(ids, vec![("0x1", 7), ("0xA", 7), ("0xB", 7), ("0x2", 9), ("0x2", 7), ("0x3", 7)]);
}

#[test]
fn discovery_lists_monitors_with_an_area() {
    let monitors = vec![
        MonitorArea { name: "right".to_owned(), rect: rect(1920, 0, 3840, 1080) },
        MonitorArea { name: "ghost".to_owned(), rect: rect(0, 0, 0, 1080) },
        MonitorArea { name: "left".to_owned(), rect: rect(0, 0, 1920, 1080) },
    ];
    let displays = displays_from_monitors(monitors);
    assert_eq!(displays, vec![
        DisplayInfo { id: "1".to_owned(), name: "left".to_owned(), bounds: Bounds { x: 0, y: 0, width: 1920, height: 1080 } },
        DisplayInfo {
            id: "2".to_owned(),
            name: "right".to_owned(),
            bounds: Bounds { x: 1920, y: 0, width: 1920, height: 1080 },
        },
    ]);
}

#[test]
fn discovery_lists_visible_titled_windows_of_a_process() {
    let candidate = |handle: usize, visible: bool, title: &str, area: Option<WindowRect>, pid: u32| WindowCandidate {
        handle,
        visible,
        title: title.to_owned(),
        rect: area,
        process_id: pid,
        app_name: Some("notepad".to_owned()),
    };
    let listed = listed_window(candidate(0x1a2b, true, "  Notes  ", Some(rect(5, 6, 105, 206)), 42)).expect("listed");
    assert_eq!(
        listed,
        WindowInfo {
            id: "0x1A2B".to_owned(),
            title: "Notes".to_owned(),
            app_name: Some("notepad".to_owned()),
            process_id: 42,
            bounds: Bounds { x: 5, y: 6, width: 100, height: 200 },
        }
    );
    assert_eq!(listed_window(candidate(1, false, "Notes", Some(rect(0, 0, 10, 10)), 42)), None);
    assert_eq!(listed_window(candidate(1, true, "   ", Some(rect(0, 0, 10, 10)), 42)), None);
    assert_eq!(listed_window(candidate(1, true, "Notes", None, 42)), None);
    assert_eq!(listed_window(candidate(1, true, "Notes", Some(rect(0, 0, 0, 10)), 42)), None);
    assert_eq!(listed_window(candidate(1, true, "Notes", Some(rect(0, 0, 10, 10)), 0)), None);

    let windows = windows_from_candidates(vec![
        candidate(0xFF, true, "Lower", Some(rect(0, 500, 10, 510)), 1),
        candidate(0x10, false, "Hidden", Some(rect(0, 0, 10, 10)), 1),
        candidate(0x20, true, "Upper", Some(rect(0, 0, 10, 10)), 1),
    ]);
    let ids: Vec<&str> = windows.iter().map(|w| w.id.as_str()).collect();
    assert_eq!(ids, vec!["0x20", "0xFF"]);
}
