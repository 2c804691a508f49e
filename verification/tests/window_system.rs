use hintsx::json::{get_number_at, get_number_of, Json};
use hintsx::window_system::{
    compositor, detect_wayland_wm, find_focused, hyprland_active_window, hyprland_window,
    parse_window_geometry, session_type, sway_active_window, Compositor, WindowSystem,
    WindowSystemType, COMPOSITOR_PATTERN, DEFAULT_SESSION, UNKNOWN_NAME,
};

fn detect(preferred: &str, session: &str, compositor: Option<&str>) -> (WindowSystemType, String) {
    let system = WindowSystem::detect(preferred, session, compositor.map(|c| c.to_string()));
    assert_eq!(system.bar_height, 0);
    (system.window_system_type, system.window_system_name)
}

#[test]
fn preferred_name_decides_alone() {
    assert_eq!(detect("x11", "wayland", Some("sway")), (WindowSystemType::X11, "x11".into()));
    assert_eq!(detect("X11", "", None), (WindowSystemType::X11, "x11".into()));
    assert_eq!(detect("Sway", "x11", None), (WindowSystemType::Wayland, "sway".into()));
    assert_eq!(detect("x11 ", "x11", None), (WindowSystemType::Wayland, "x11 ".into()));
    assert_eq!(detect("HYPRLAND", "", None), (WindowSystemType::Wayland, "hyprland".into()));
}

#[test]
fn session_type_decides_without_a_preferred_name() {
    assert_eq!(detect("", "wayland", Some("sway")), (WindowSystemType::Wayland, "sway".into()));
    assert_eq!(detect("", "Wayland", None), (WindowSystemType::Wayland, "unknown".into()));
    assert_eq!(detect("", "wayland-1", None), (WindowSystemType::Wayland, "unknown".into()));
    assert_eq!(detect("", "x11", Some("kwin_wayland")), (WindowSystemType::X11, "kwin_wayland".into()));
    assert_eq!(detect("", "tty", None), (WindowSystemType::X11, "unknown".into()));
    assert_eq!(detect("", "", None), (WindowSystemType::X11, "unknown".into()));
    assert_eq!(UNKNOWN_NAME, "unknown");
}

#[test]
fn session_type_from_the_environment() {
    assert_eq!(session_type(Some("wayland".into()), Some("wayland-0".into())), "wayland");
    assert_eq!(session_type(None, Some("wayland-0".into())), "wayland-0");
    assert_eq!(session_type(Some("tty".into()), None), "tty");
    assert_eq!(session_type(None, None), "x11");
    assert_eq!(DEFAULT_SESSION, "x11");
}

#[test]
fn compositor_is_found_among_the_processes() {
    let listing = "COMMAND\nsystemd\n  Hyprland  \nsway\n";
    assert_eq!(detect_wayland_wm(listing), Some("hyprland".to_string()));
    assert_eq!(detect_wayland_wm("bash\nsway\nhyprland\n"), Some("sway".to_string()));
    assert_eq!(detect_wayland_wm("KWIN_WAYLAND"), Some("kwin_wayland".to_string()));
    assert_eq!(detect_wayland_wm("\twayfire\r\n"), Some("wayfire".to_string()));
    assert_eq!(detect_wayland_wm("plasmashell\n"), Some("plasmashell".to_string()));
}

#[test]
fn compositor_has_to_be_the_whole_name() {
    assert_eq!(detect_wayland_wm(""), None);
    assert_eq!(detect_wayland_wm("swaybar\nswayidle\nxsway\n"), None);
    assert_eq!(detect_wayland_wm("sway --debug\n"), None);
    assert_eq!(detect_wayland_wm("kwin_x11\nXorg\n"), None);
    assert_eq!(detect_wayland_wm("sw\nay\n"), None);
}

#[test]
fn compositor_pattern_is_the_one_that_the_search_uses() {
    let pattern = regex::Regex::new(COMPOSITOR_PATTERN).unwrap();
    for name in ["sway", "SWAY", "Hyprland", "plasmashell", "kwin_wayland", "wayfire", "swayx", "", "gnome-shell", "\u{17f}way"] {
        let expected = if pattern.is_match(name) { Some(name.to_lowercase()) } else { None };
        assert_eq!(detect_wayland_wm(name), expected, "{:?}", name);
    }
}

#[test]
fn geometry_report_is_read() {
    let report = "WINDOW=62914564\nX=100\nY=-200\nWIDTH=640\nHEIGHT=480\nSCREEN=0\n";
    assert_eq!(parse_window_geometry(report), Some((100, -200, 640, 480)));
    assert_eq!(parse_window_geometry("WIDTH=1\nHEIGHT=1"), Some((0, 0, 1, 1)));
    assert_eq!(parse_window_geometry("X=1\r\nY=2\r\nWIDTH=3\r\nHEIGHT=4\r\n"), Some((1, 2, 3, 4)));
}

#[test]
fn geometry_report_needs_positive_sides() {
    assert_eq!(parse_window_geometry(""), None);
    assert_eq!(parse_window_geometry("X=1\nY=2\n"), None);
    assert_eq!(parse_window_geometry("X=1\nY=2\nWIDTH=0\nHEIGHT=5\n"), None);
    assert_eq!(parse_window_geometry("X=1\nY=2\nWIDTH=5\nHEIGHT=-5\n"), None);
    assert_eq!(parse_window_geometry("WIDTH=5\n"), None);
}

#[test]
fn geometry_report_oddities() {
    // what is no number counts as 0
    assert_eq!(parse_window_geometry("X=abc\nY=\nWIDTH=5\nHEIGHT=5\n"), Some((0, 0, 5, 5)));
    assert_eq!(parse_window_geometry("X= 7\nWIDTH=5\nHEIGHT=5\n"), Some((0, 0, 5, 5)));
    assert_eq!(parse_window_geometry("WIDTH=99999999999\nHEIGHT=5\n"), None);
    // a later line overrules an earlier one
    assert_eq!(parse_window_geometry("X=1\nX=2\nWIDTH=5\nHEIGHT=5\nWIDTH=6\n"), Some((2, 0, 6, 5)));
    assert_eq!(parse_window_geometry("WIDTH=5\nHEIGHT=5\nWIDTH=x\n"), None);
    // a key has to start the line
    assert_eq!(parse_window_geometry(" X=9\nMAX=9\nWIDTH=5\nHEIGHT=5\n"), Some((0, 0, 5, 5)));
    assert_eq!(parse_window_geometry("X=+3\nWIDTH=5\nHEIGHT=5\n"), Some((3, 0, 5, 5)));
    // a carriage return that no line feed follows stays with the line
    assert_eq!(parse_window_geometry("WIDTH=5\nHEIGHT=5\r"), None);
}

#[test]
fn compositor_to_ask() {
    assert_eq!(compositor(true, true), Some(Compositor::Hyprland));
    assert_eq!(compositor(true, false), Some(Compositor::Hyprland));
    assert_eq!(compositor(false, true), Some(Compositor::Sway));
    assert_eq!(compositor(false, false), None);
}

#[test]
fn hyprland_window_is_read() {
    let output = br#"{"address":"0x55","at":[12,34],"size":[640,480],"title":"term","floating":false}"#;
    assert_eq!(hyprland_active_window(output), Some((12, 34, 640, 480)));
    assert_eq!(hyprland_active_window(br#"{"at":[-5,0,9],"size":[1,2,3]}"#), Some((-5, 0, 1, 2)));
}

#[test]
fn hyprland_window_needs_all_four_numbers() {
    for output in [
        &b""[..],
        b"{}",
        b"[]",
        b"not json",
        br#"{"at":[12,34]}"#,
        br#"{"size":[640,480]}"#,
        br#"{"at":[12],"size":[640,480]}"#,
        br#"{"at":[12,34],"size":[640]}"#,
        br#"{"at":[12.5,34],"size":[640,480]}"#,
        br#"{"at":["12",34],"size":[640,480]}"#,
        br#"{"at":{"0":12,"1":34},"size":[640,480]}"#,
        br#"{"at":[12,34],"size":[640,480]"#,
        br#"{"at":[12,34],"size":[640,18446744073709551615]}"#,
    ] {
        assert_eq!(hyprland_active_window(output), None, "{:?}", String::from_utf8_lossy(output));
    }
}

#[test]
fn numbers_are_cut_to_32_bits() {
    let output = br#"{"at":[4294967301,-4294967295],"size":[2147483648,9223372036854775807]}"#;
    assert_eq!(hyprland_active_window(output), Some((5, 1, i32::MIN, -1)));
}

#[test]
fn sway_tree_is_searched() {
    let tree = br#"{
        "focused": false, "rect": {"x":0,"y":0,"width":1920,"height":1080},
        "nodes": [
            {"focused": false, "rect": {"x":0,"y":0,"width":960,"height":1080},
             "nodes": [], "floating_nodes": []},
            {"focused": false, "rect": {"x":960,"y":0,"width":960,"height":1080},
             "nodes": [
                {"focused": true, "rect": {"x":960,"y":0,"width":960,"height":540}, "nodes": []},
                {"focused": true, "rect": {"x":960,"y":540,"width":960,"height":540}, "nodes": []}
             ]}
        ],
        "floating_nodes": [
            {"focused": true, "rect": {"x":1,"y":2,"width":3,"height":4}}
        ]
    }"#;
    assert_eq!(sway_active_window(tree), Some((960, 0, 960, 540)));
}

#[test]
fn sway_tree_floating_windows_come_last() {
    let tree = br#"{
        "nodes": [ {"focused": false, "nodes": [ {"focused": false} ]} ],
        "floating_nodes": [
            {"focused": false},
            {"focused": true, "rect": {"x":1,"y":2,"width":3,"height":4}}
        ]
    }"#;
    assert_eq!(sway_active_window(tree), Some((1, 2, 3, 4)));
}

#[test]
fn sway_tree_root_itself_may_be_focused() {
    let tree = br#"{"focused": true, "rect": {"x":9,"y":8,"width":7,"height":6},
        "nodes": [ {"focused": true, "rect": {"x":1,"y":2,"width":3,"height":4}} ]}"#;
    assert_eq!(sway_active_window(tree), Some((9, 8, 7, 6)));
}

#[test]
fn sway_tree_without_focus() {
    for tree in [
        &b""[..],
        b"{}",
        b"[]",
        b"null",
        br#"{"focused": "true", "rect": {"x":1,"y":2,"width":3,"height":4}}"#,
        br#"{"focused": 1, "rect": {"x":1,"y":2,"width":3,"height":4}}"#,
        br#"{"nodes": {"focused": true, "rect": {"x":1,"y":2,"width":3,"height":4}}}"#,
        br#"{"nodes": [ {"focused": false}, 5, "x", null, [] ]}"#,
    ] {
        assert_eq!(sway_active_window(tree), None, "{:?}", String::from_utf8_lossy(tree));
    }
}

#[test]
fn sway_focused_node_with_a_broken_rect_ends_the_search() {
    let tree = br#"{"focused": true, "rect": {"x":1,"y":2,"width":3},
        "nodes": [ {"focused": true, "rect": {"x":1,"y":2,"width":3,"height":4}} ]}"#;
    assert_eq!(sway_active_window(tree), None);
    // without a rect at all the search goes on below
    let tree = br#"{"focused": true,
        "nodes": [ {"focused": true, "rect": {"x":1,"y":2,"width":3,"height":4}} ]}"#;
    assert_eq!(sway_active_window(tree), Some((1, 2, 3, 4)));
}

#[test]
fn json_values_made_by_hand() {
    let items = vec![
        Json::Integer(1),
        Json::Integer(-2),
        Json::Number,
        Json::Bool(true),
        Json::Null,
        Json::Text("t".to_string()),
        Json::Integer(4294967301),
    ];
    let parsed = Json::Object(vec![
        ("b".to_string(), Json::Array(items)),
        ("a".to_string(), Json::Bool(false)),
        ("a".to_string(), Json::Bool(true)),
    ]);
    assert!(matches!(parsed.member("a"), Some(Json::Bool(false))));
    assert!(parsed.member("c").is_none());
    assert!(parsed.member("").is_none());
    assert!(Json::Null.member("a").is_none());
    assert!(parsed.as_array().is_none());
    let items = parsed.member("b").and_then(|b| b.as_array()).unwrap();
    assert_eq!(items.len(), 7);
    let numbers = [Some(1), Some(-2), None, None, None, None, Some(5)];
    for (index, expected) in numbers.iter().enumerate() {
        assert_eq!(items[index].number(), *expected);
        assert_eq!(get_number_at(parsed.member("b"), index), *expected);
    }
    assert_eq!(get_number_at(parsed.member("b"), 7), None);
    assert_eq!(get_number_at(parsed.member("a"), 0), None);
    assert_eq!(get_number_at(None, 0), None);
    assert_eq!(get_number_of(&parsed, "a"), None);
    assert_eq!(get_number_of(&items[0], "a"), None);
    let point = Json::Object(vec![("x".to_string(), Json::Integer(-7))]);
    assert_eq!(get_number_of(&point, "x"), Some(-7));
    assert_eq!(get_number_of(&point, "y"), None);
}

#[test]
fn parser_and_hand_made_values_agree() {
    // the same description, once as text and once as a value
    let text = br#"{"at": [1, -2, 1.5], "size": [3, 4294967300], "title": "x", "tags": [true, null]}"#;
    let value = Json::Object(vec![
        ("at".to_string(), Json::Array(vec![Json::Integer(1), Json::Integer(-2), Json::Number])),
        ("size".to_string(), Json::Array(vec![Json::Integer(3), Json::Integer(4294967300)])),
        ("title".to_string(), Json::Text("x".to_string())),
        ("tags".to_string(), Json::Array(vec![Json::Bool(true), Json::Null])),
    ]);
    assert_eq!(hyprland_active_window(text), Some((1, -2, 3, 4)));
    assert_eq!(hyprland_window(&value), Some((1, -2, 3, 4)));
    let parsed: serde_json::Value = serde_json::from_slice(text).unwrap();
    let at = parsed.get("at").and_then(|at| at.as_array()).unwrap();
    let size = parsed.get("size").and_then(|size| size.as_array()).unwrap();
    assert_eq!(at[0].as_i64().map(|n| n as i32), Some(1));
    assert_eq!(at[2].as_i64(), None);
    assert_eq!(size[1].as_i64().map(|n| n as i32), Some(4));
}

#[test]
fn windows_are_read_from_values_made_by_hand() {
    let number = |n: i64| Json::Integer(n);
    let described = Json::Object(vec![
        ("size".to_string(), Json::Array(vec![number(3), number(4)])),
        ("at".to_string(), Json::Array(vec![number(1), number(2)])),
        ("at".to_string(), Json::Array(vec![number(9), number(9)])),
    ]);
    assert_eq!(hyprland_window(&described), Some((1, 2, 3, 4)));
    let rect = Json::Object(vec![
        ("x".to_string(), number(1)),
        ("y".to_string(), number(2)),
        ("width".to_string(), number(3)),
        ("height".to_string(), number(4)),
    ]);
    let leaf =
        Json::Object(vec![("focused".to_string(), Json::Bool(true)), ("rect".to_string(), rect)]);
    let mut tree = leaf;
    for _ in 0..50 {
        tree = Json::Object(vec![
            ("focused".to_string(), Json::Bool(false)),
            ("nodes".to_string(), Json::Array(vec![Json::Null, tree])),
        ]);
    }
    assert_eq!(find_focused(&tree), Some((1, 2, 3, 4)));
    assert_eq!(find_focused(&Json::Null), None);
}
