use wallkit::catalog::Wallpaper;
use wallkit::chooser::{
    chooser_input, chooser_selection, find_by_name, sort_by_keys, sort_by_name, wallpaper_item,
};
use wallkit::compositor::{
    compositor_from_lowered, detect_compositor, listed_monitor_names, monitor_query_command,
    namespace_monitor_names, CompositorKind, OutputInfo, SessionMarkers,
};
use wallkit::picker::{picker_step, PickError, PickerAction, PickerEvent, PickerState};

fn entry(name: &str) -> Wallpaper {
    Wallpaper {
        name: name.to_string(),
        path: format!("/w/{}.png", name),
        thumb_path: format!("/t/{}.png", name),
    }
}

fn markers(niri: bool, hypr: bool, sway: bool, desktop: Option<&str>) -> SessionMarkers {
    SessionMarkers {
        niri_socket: niri,
        hyprland_signature: hypr,
        sway_socket: sway,
        current_desktop: desktop.map(|d| d.to_string()),
    }
}

#[test]
fn sway_socket_wins_over_desktop_string() {
    assert_eq!(detect_compositor(&markers(false, false, true, Some("Hyprland"))), CompositorKind::Sway);
    assert_eq!(detect_compositor(&markers(false, false, true, Some("niri"))), CompositorKind::Sway);
    assert_eq!(detect_compositor(&markers(false, false, true, None)), CompositorKind::Sway);
}

#[test]
fn marker_precedence() {
    assert_eq!(detect_compositor(&markers(true, true, true, None)), CompositorKind::Niri);
    assert_eq!(detect_compositor(&markers(false, true, true, None)), CompositorKind::Hyprland);
}

#[test]
fn desktop_string_fallback_ignores_case() {
    assert_eq!(detect_compositor(&markers(false, false, false, Some("Hyprland"))), CompositorKind::Hyprland);
    assert_eq!(detect_compositor(&markers(false, false, false, Some("NIRI"))), CompositorKind::Niri);
    assert_eq!(detect_compositor(&markers(false, false, false, Some("sway:wlroots"))), CompositorKind::Sway);
    assert_eq!(detect_compositor(&markers(false, false, false, Some("GNOME"))), CompositorKind::Unknown);
    assert_eq!(detect_compositor(&markers(false, false, false, None)), CompositorKind::Unknown);
    assert_eq!(compositor_from_lowered(false, false, false, Some("Hyprland")), CompositorKind::Unknown);
}

#[test]
fn compositor_tokens_round_trip() {
    for k in [CompositorKind::Hyprland, CompositorKind::Niri, CompositorKind::Sway] {
        assert_eq!(CompositorKind::from_token(k.token()), Some(k));
    }
    assert_eq!(CompositorKind::Unknown.token(), "unknown");
    assert_eq!(CompositorKind::from_token("unknown"), None);
    assert_eq!(CompositorKind::from_token("Sway"), None);
}

#[test]
fn monitor_queries() {
    let h = monitor_query_command(CompositorKind::Hyprland).unwrap();
    assert_eq!(h.program, "hyprctl");
    assert_eq!(h.args, vec!["-j", "monitors"]);
    let s = monitor_query_command(CompositorKind::Sway).unwrap();
    assert_eq!(s.program, "swaymsg");
    assert_eq!(s.args, vec!["-t", "get_outputs"]);
    let n = monitor_query_command(CompositorKind::Niri).unwrap();
    assert_eq!(n.program, "swww");
    assert_eq!(n.args, vec!["query", "--namespace", "niri"]);
    assert!(monitor_query_command(CompositorKind::Unknown).is_none());
}

#[test]
fn sway_keeps_only_active_outputs() {
    let outputs = vec![
        OutputInfo { name: "eDP-1".to_string(), active: Some(true) },
        OutputInfo { name: "HDMI-A-1".to_string(), active: Some(false) },
        OutputInfo { name: "DP-2".to_string(), active: Some(true) },
    ];
    assert_eq!(listed_monitor_names(CompositorKind::Sway, &outputs), vec!["eDP-1", "DP-2"]);
    assert_eq!(listed_monitor_names(CompositorKind::Hyprland, &outputs), vec!["eDP-1", "HDMI-A-1", "DP-2"]);
    let hypr = vec![OutputInfo { name: "DP-1".to_string(), active: None }];
    assert_eq!(listed_monitor_names(CompositorKind::Hyprland, &hypr), vec!["DP-1"]);
    assert!(listed_monitor_names(CompositorKind::Sway, &hypr).is_empty());
}

#[test]
fn namespace_reply_lines() {
    let reply = ": DP-1: 2560x1440, scale: 1, currently displaying: image: /w/a.png\n: HDMI-A-1: 1920x1080, scale: 1\n";
    assert_eq!(namespace_monitor_names(reply), vec!["DP-1", "HDMI-A-1"]);
    assert_eq!(namespace_monitor_names("eDP-1:x\r\nno colon here\n"), vec!["x"]);
    assert!(namespace_monitor_names("").is_empty());
    assert_eq!(namespace_monitor_names("a:  \u{a0}b c\t"), vec!["b c"]);
}

#[test]
fn chooser_lines() {
    assert_eq!(chooser_input(&vec!["DP-1".to_string(), "HDMI-A-1".to_string()]), "DP-1\nHDMI-A-1");
    assert_eq!(chooser_input(&vec!["one".to_string()]), "one");
    assert_eq!(chooser_input(&Vec::new()), "");
    assert_eq!(wallpaper_item(&entry("beach")), "beach\0icon\x1f/t/beach.png");
}

#[test]
fn chooser_answers() {
    assert_eq!(chooser_selection(true, "beach\n"), Some("beach".to_string()));
    assert_eq!(chooser_selection(true, "  DP-1  \n"), Some("DP-1".to_string()));
    assert_eq!(chooser_selection(false, "beach\n"), None);
    assert_eq!(chooser_selection(true, ""), None);
    assert_eq!(chooser_selection(true, " \n"), None);
    assert_eq!(chooser_selection(true, "beach\0icon\x1f/t/beach.jpg\n"), Some("beach".to_string()));
    assert_eq!(chooser_selection(true, "Beach Day\0icon\x1f/t/x.png"), Some("Beach Day".to_string()));
    assert_eq!(chooser_selection(true, "\0icon\x1f/t/x.png"), Some(String::new()));
}

#[test]
fn sort_by_given_keys_is_stable() {
    let entries = vec![entry("x1"), entry("y1"), entry("x2"), entry("z"), entry("y2")];
    let keys: Vec<String> = ["b", "a", "b", "0", "a"].iter().map(|k| k.to_string()).collect();
    let sorted = sort_by_keys(&entries, &keys);
    let names: Vec<&str> = sorted.iter().map(|w| w.name.as_str()).collect();
    assert_eq!(names, vec!["z", "y1", "y2", "x1", "x2"]);
}

#[test]
fn equal_lowercase_names_keep_their_order() {
    let sorted = sort_by_name(vec![entry("Sea"), entry("b"), entry("sea"), entry("SEA"), entry("a")]);
    let names: Vec<&str> = sorted.iter().map(|w| w.name.as_str()).collect();
    assert_eq!(names, vec!["a", "b", "Sea", "sea", "SEA"]);
}

#[test]
fn entries_sorted_by_lowercase_name() {
    let sorted = sort_by_name(vec![entry("b"), entry("C"), entry("a"), entry("B2"), entry("Ä")]);
    let names: Vec<&str> = sorted.iter().map(|w| w.name.as_str()).collect();
    assert_eq!(names, vec!["a", "b", "B2", "C", "Ä"]);
    assert!(sort_by_name(Vec::new()).is_empty());
}

#[test]
fn resolve_is_exact_and_case_sensitive() {
    let entries = vec![entry("Beach"), entry("beach"), entry("lake")];
    assert_eq!(find_by_name(&entries, "beach"), Some(1));
    assert_eq!(find_by_name(&entries, "Beach"), Some(0));
    assert_eq!(find_by_name(&entries, "BEACH"), None);
    assert_eq!(find_by_name(&entries, "lak"), None);
    let dup = vec![entry("x"), entry("x")];
    assert_eq!(find_by_name(&dup, "x"), Some(0));
}

fn abort_error(a: &PickerAction) -> Option<PickError> {
    match a {
        PickerAction::Abort { error } => Some(*error),
        _ => None,
    }
}

#[test]
fn cancelled_monitor_choice_aborts_before_reading_catalog() {
    let (s, a) = picker_step(PickerState::Start, PickerEvent::Detected { kind: CompositorKind::Sway });
    assert!(matches!(a, PickerAction::QueryMonitors { .. }));
    let (s, a) = picker_step(s, PickerEvent::MonitorsListed { names: vec!["DP-1".to_string()] });
    match &a {
        PickerAction::ChooseMonitor { input } => assert_eq!(input, "DP-1"),
        _ => panic!("expected the monitor chooser"),
    }
    let (s, a) = picker_step(s, PickerEvent::ChooserFinished { success: false, output: "DP-1".to_string() });
    assert_eq!(abort_error(&a), Some(PickError::Cancelled));
    assert!(matches!(s, PickerState::Failed { error: PickError::Cancelled }));
    let (s, a) = picker_step(s, PickerEvent::CatalogRead { entries: vec![entry("a")] });
    assert_eq!(abort_error(&a), Some(PickError::Cancelled));
    assert!(matches!(s, PickerState::Failed { .. }));
}

#[test]
fn full_pick_launches_the_applier() {
    let (s, _) = picker_step(PickerState::Start, PickerEvent::Detected { kind: CompositorKind::Hyprland });
    let (s, _) = picker_step(s, PickerEvent::MonitorsListed { names: vec!["DP-1".to_string(), "DP-2".to_string()] });
    let (s, a) = picker_step(s, PickerEvent::ChooserFinished { success: true, output: "DP-2\n".to_string() });
    assert!(matches!(a, PickerAction::ReadCatalog));
    let (s, a) = picker_step(s, PickerEvent::CatalogRead { entries: vec![entry("lake"), entry("Beach")] });
    match &a {
        PickerAction::ChooseWallpaper { input } => {
            assert_eq!(input, "Beach\0icon\x1f/t/Beach.png\nlake\0icon\x1f/t/lake.png")
        }
        _ => panic!("expected the wallpaper chooser"),
    }
    let (s, a) = picker_step(
        s,
        PickerEvent::ChooserFinished { success: true, output: "lake\0icon\x1f/t/lake.png\n".to_string() },
    );
    assert!(matches!(s, PickerState::Launched));
    match a {
        PickerAction::Launch { path, compositor, monitor } => {
            assert_eq!(path, "/w/lake.png");
            assert_eq!(compositor, "hyprland");
            assert_eq!(monitor, "DP-2");
        }
        _ => panic!("expected a launch"),
    }
}

#[test]
fn picker_errors() {
    let (_, a) = picker_step(PickerState::Start, PickerEvent::Detected { kind: CompositorKind::Unknown });
    assert_eq!(abort_error(&a), Some(PickError::NoCompositor));
    let (_, a) = picker_step(
        PickerState::ListingMonitors { kind: CompositorKind::Sway },
        PickerEvent::MonitorsListed { names: Vec::new() },
    );
    assert_eq!(abort_error(&a), Some(PickError::NoMonitors));
    let (_, a) = picker_step(PickerState::ListingMonitors { kind: CompositorKind::Niri }, PickerEvent::MonitorQueryFailed);
    assert_eq!(abort_error(&a), Some(PickError::MonitorQueryFailed));
    let loading = || PickerState::LoadingCatalog { kind: CompositorKind::Sway, monitor: "DP-1".to_string() };
    let (_, a) = picker_step(loading(), PickerEvent::CatalogMissing);
    assert_eq!(abort_error(&a), Some(PickError::CatalogMissing));
    let (_, a) = picker_step(loading(), PickerEvent::CatalogUnreadable);
    assert_eq!(abort_error(&a), Some(PickError::CatalogUnreadable));
    let choosing = || PickerState::ChoosingWallpaper {
        kind: CompositorKind::Sway,
        monitor: "DP-1".to_string(),
        entries: vec![entry("a")],
    };
    let (_, a) = picker_step(choosing(), PickerEvent::ChooserFinished { success: true, output: "b".to_string() });
    assert_eq!(abort_error(&a), Some(PickError::NotInCatalog));
    let (_, a) = picker_step(choosing(), PickerEvent::ChooserFinished { success: true, output: "\n".to_string() });
    assert_eq!(abort_error(&a), Some(PickError::Cancelled));
    let (_, a) = picker_step(PickerState::Start, PickerEvent::CatalogMissing);
    assert_eq!(abort_error(&a), Some(PickError::OutOfOrder));
    let (_, a) = picker_step(PickerState::Launched, PickerEvent::CatalogMissing);
    assert_eq!(abort_error(&a), Some(PickError::OutOfOrder));
    assert_eq!(PickError::NotInCatalog.message(), "Selected wallpaper not found in cache");
}
