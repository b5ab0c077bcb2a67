use tendril::elements::{
    assign_snapshot_ids, atspi_element_in_scope, bounds_overlap, macos_accessibility_listing_jxa,
    macos_accessibility_query_targets, normalize_atspi_action, normalize_atspi_role, parent_path_for_child,
    parse_offset_only, parse_size_offset, parse_x11_geometry_from_line, parse_xwininfo_line, selector_matches_kind,
    split_geometry_offsets, target_selector_from_platform, window_targets_for_scope,
};
use tendril::model::{Bounds, ElementDescriptor, ScaleFactor, TargetSelector};
use tendril::platform::{CaptureTargetKind, TargetDescriptor, TargetInventory};

fn chars(s: &str) -> Vec<char> {
    s.chars().collect()
}

fn text(v: &[char]) -> String {
    v.iter().collect()
}

fn target() -> TargetDescriptor {
    window_target("0x400001", 100, 200, 800, 600)
}

fn window_target(id: &str, x: i32, y: i32, width: u32, height: u32) -> TargetDescriptor {
    TargetDescriptor {
        id: id.to_owned(),
        title: Some("App".to_owned()),
        kind: CaptureTargetKind::Window,
        name: "App".to_owned(),
        bounds: Bounds { x, y, width, height },
        scale_factor: ScaleFactor::identity(),
        capture_supported: true,
        input_supported: true,
        app_name: Some("App".to_owned()),
        process_id: Some(42),
        diagnostics: Vec::new(),
    }
}

fn display_target(id: &str, x: i32, y: i32, width: u32, height: u32) -> TargetDescriptor {
    TargetDescriptor {
        id: id.to_owned(),
        title: None,
        kind: CaptureTargetKind::Display,
        name: format!("Display {id}"),
        bounds: Bounds { x, y, width, height },
        scale_factor: ScaleFactor::identity(),
        capture_supported: true,
        input_supported: true,
        app_name: None,
        process_id: None,
        diagnostics: Vec::new(),
    }
}

#[test]
fn selector_matches_kind_pairs_window_and_display_only() {
    let window = TargetSelector::Window { id: "0x1".to_owned() };
    let display = TargetSelector::Display { id: "1".to_owned() };
    assert!(selector_matches_kind(&window, CaptureTargetKind::Window));
    assert!(selector_matches_kind(&display, CaptureTargetKind::Display));
    assert!(!selector_matches_kind(&window, CaptureTargetKind::Display));
    assert!(!selector_matches_kind(&display, CaptureTargetKind::Window));
}

#[test]
fn target_selector_from_platform_maps_kind_and_clones_id() {
    let mut window = window_target("0x400001", 0, 0, 100, 100);
    window.kind = CaptureTargetKind::Window;
    assert_eq!(target_selector_from_platform(&window), TargetSelector::Window { id: "0x400001".to_owned() });

    let mut display = window_target("2", 0, 0, 1920, 1080);
    display.kind = CaptureTargetKind::Display;
    assert_eq!(target_selector_from_platform(&display), TargetSelector::Display { id: "2".to_owned() });
}

#[test]
fn assign_snapshot_ids_renumbers_blank_and_auto_ids_but_keeps_real_ones() {
    fn element(id: &str) -> ElementDescriptor {
        ElementDescriptor {
            id: id.to_owned(),
            role: "button".to_owned(),
            name: "OK".to_owned(),
            description: None,
            value: None,
            bounds: None,
            target: None,
            path: Vec::new(),
            actions: Vec::new(),
            app_name: None,
            process_id: None,
        }
    }

    let mut elements = vec![element("btn"), element("   "), element("auto:xyz")];
    assign_snapshot_ids(&mut elements);
    assert_eq!(elements[0].id, "btn");
    assert_eq!(elements[1].id, "2");
    assert_eq!(elements[2].id, "3");
}

#[test]
fn parses_xwininfo_geometry_with_absolute_offsets() {
    let bounds = parse_x11_geometry_from_line(&chars("0x400123 \"OK\": ()  80x24+10+20  +110+220"), &target().bounds)
        .expect("geometry should parse")
        .0;
    assert_eq!(bounds.x, 110);
    assert_eq!(bounds.y, 220);
    assert_eq!(bounds.width, 80);
    assert_eq!(bounds.height, 24);
}

#[test]
fn parses_xwininfo_line_as_clickable_element() {
    let element = parse_xwininfo_line(&chars("     0x400123 \"New Note\": ()  80x24+10+20  +110+220"), &target(), false)
        .expect("element should parse");
    assert_eq!(element.role, "x11_window");
    assert_eq!(element.name, "New Note");
    assert_eq!(element.bounds.expect("bounds").x, 110);
    assert_eq!(element.actions, vec!["click"]);
}

#[test]
fn expands_macos_display_targets_to_windows_on_that_display() {
    let inventory = TargetInventory {
        targets: vec![
            display_target("2", 0, 0, 1000, 800),
            window_target("left", 100, 100, 200, 200),
            window_target("overlap", 900, 100, 300, 200),
            window_target("right", 1500, 100, 200, 200),
        ],
    };
    let mut notes = Vec::new();
    let query = macos_accessibility_query_targets(&inventory, &vec![0], &mut notes);
    let ids: Vec<&str> = query.iter().map(|&i| inventory.targets[i].id.as_str()).collect();
    assert_eq!(ids, vec!["left", "overlap"]);
    assert!(notes.is_empty());
}

#[test]
fn keeps_macos_window_targets_once_when_also_selected_by_a_display() {
    let inventory =
        TargetInventory { targets: vec![display_target("2", 0, 0, 1000, 800), window_target("left", 100, 100, 200, 200)] };
    let mut notes = Vec::new();
    let query = macos_accessibility_query_targets(&inventory, &vec![0, 1], &mut notes);
    assert_eq!(query.len(), 1);
    assert_eq!(inventory.targets[query[0]].id, "left");
}

#[test]
fn expands_display_scoped_native_window_element_backends_to_windows() {
    let inventory = TargetInventory {
        targets: vec![
            display_target("display-1", 0, 0, 1000, 800),
            window_target("window-1", 100, 100, 200, 200),
            window_target("window-2", 1500, 100, 200, 200),
        ],
    };
    let query = window_targets_for_scope(&inventory, &vec![0]);
    assert_eq!(query.len(), 1);
    assert_eq!(inventory.targets[query[0]].id, "window-1");
}

#[test]
fn normalizes_atspi_roles_to_contract_taxonomy_names() {
    assert_eq!(normalize_atspi_role("push button"), "push_button");
    assert_eq!(normalize_atspi_role("ROLE_TEXT"), "text");
    assert_eq!(normalize_atspi_role("ATSPI_ROLE_MENU-ITEM"), "menu_item");
}

#[test]
fn normalizes_atspi_actions_for_element_dsl() {
    assert_eq!(normalize_atspi_action("activate"), "press");
    assert_eq!(normalize_atspi_action("show menu"), "show_menu");
}

#[test]
fn filters_atspi_elements_to_target_bounds_by_default() {
    let target_bounds = target().bounds;
    let visible = Bounds { x: 120, y: 220, width: 20, height: 20 };
    let offscreen = Bounds { x: 2_000, y: 2_000, width: 20, height: 20 };
    assert!(atspi_element_in_scope(Some(&visible), &target_bounds, false));
    assert!(!atspi_element_in_scope(Some(&offscreen), &target_bounds, false));
    assert!(atspi_element_in_scope(None, &target_bounds, true));
}

#[test]
fn macos_jxa_script_interpolates_pid_bounds_and_cap() {
    let target = window_target("0x400001", 100, 200, 800, 600);
    let script = macos_accessibility_listing_jxa(7531, &target, false);
    assert!(script.contains("var pid = 7531;"), "script should interpolate the process id, got:\n{script}");
    assert!(
        script.contains("x: 100") && script.contains("y: 200") && script.contains("width: 800")
            && script.contains("height: 600"),
        "script should interpolate target bounds, got:\n{script}"
    );
    assert!(script.contains("var maxElements = 512;"));
    assert!(script.contains("ObjC.import('ApplicationServices');"));
    assert!(script.contains("$.AXUIElementCreateApplication(pid)"));
    assert!(script.contains("'AXRole'") && script.contains("'AXPosition'"));
    assert!(script.trim_end().ends_with("}());"));
}

#[test]
fn macos_jxa_script_maps_include_offscreen_to_js_boolean_literal() {
    let target = window_target("0x400001", 0, 0, 10, 10);
    let on = macos_accessibility_listing_jxa(1, &target, true);
    assert!(on.contains("var includeOffscreen = true;"));
    assert!(!on.contains("var includeOffscreen = false;"));
    let off = macos_accessibility_listing_jxa(1, &target, false);
    assert!(off.contains("var includeOffscreen = false;"));
    assert!(!off.contains("var includeOffscreen = true;"));
}

#[test]
fn split_geometry_offsets_requires_three_segments() {
    let split = |s: &str| split_geometry_offsets(&chars(s)).map(|(a, b, c)| (text(&a), text(&b), text(&c)));
    assert_eq!(split("24+10+20"), Some(("24".to_owned(), "+10".to_owned(), "+20".to_owned())));
    assert_eq!(split("24-10-20"), Some(("24".to_owned(), "-10".to_owned(), "-20".to_owned())));
    assert_eq!(split("+110+220"), None);
    assert_eq!(split("800"), None);
}

#[test]
fn parse_size_offset_reads_width_height_and_relative_offsets() {
    assert_eq!(parse_size_offset(&chars("80x24+10+20")), Some((80, 24, 10, 20)));
    assert_eq!(parse_size_offset(&chars("5x6-1-2")), Some((5, 6, -1, -2)));
    assert_eq!(parse_size_offset(&chars("0+110+220")), None);
}

#[test]
fn parse_offset_only_rejects_size_tokens_and_two_part_offsets() {
    assert_eq!(parse_offset_only(&chars("0+110+220")), Some((110, 220)));
    assert_eq!(parse_offset_only(&chars("80x24+10+20")), None);
    assert_eq!(parse_offset_only(&chars("+110+220")), None);
}

#[test]
fn bounds_overlap_is_true_only_for_real_intersection() {
    let base = Bounds { x: 0, y: 0, width: 100, height: 100 };
    let overlapping = Bounds { x: 50, y: 50, width: 100, height: 100 };
    assert!(bounds_overlap(&base, &overlapping));
    assert!(bounds_overlap(&overlapping, &base));
    let edge_touch = Bounds { x: 100, y: 0, width: 10, height: 100 };
    assert!(!bounds_overlap(&base, &edge_touch));
    let disjoint = Bounds { x: 500, y: 500, width: 10, height: 10 };
    assert!(!bounds_overlap(&base, &disjoint));
}

#[test]
fn parent_path_for_child_appends_unless_duplicate_tail() {
    let parent = vec!["root".to_owned(), "window".to_owned()];
    assert_eq!(parent_path_for_child(&parent, "button"), vec!["root", "window", "button"]);
    assert_eq!(parent_path_for_child(&parent, "window"), vec!["root", "window"]);
    assert_eq!(parent_path_for_child(&Vec::new(), "only"), vec!["only"]);
}
