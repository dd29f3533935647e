use wallkit::applier::{expand_home, namespace_for, plan_apply, ApplyConfig, ApplyError, ApplyStep};

fn config() -> ApplyConfig {
    ApplyConfig {
        swww_params: vec!["--transition-type".to_string(), "grow".to_string()],
        refresh_script: "/home/u/bin/refresh.sh".to_string(),
    }
}

fn describe(steps: &[ApplyStep]) -> Vec<String> {
    steps
        .iter()
        .map(|s| match s {
            ApplyStep::Kill { process } => format!("kill {}", process),
            ApplyStep::Spawn { command } => format!("spawn {} {}", command.program, command.args.join(" ")),
            ApplyStep::StartDaemon { command } => format!("start {} {}", command.program, command.args.join(" ")),
            ApplyStep::Pause { millis } => format!("pause {}", millis),
            ApplyStep::Run { command } => format!("run {} {}", command.program, command.args.join(" ")),
            ApplyStep::WriteSideCache { contents } => format!("side-cache {}", contents),
        })
        .collect()
}

#[test]
fn sway_switches_to_one_static_background() {
    let steps = plan_apply("/w/beach.jpg", "sway", "DP-1", &config(), true).unwrap();
    assert_eq!(
        describe(&steps),
        vec![
            "kill swww-daemon",
            "kill mpvpaper",
            "kill hyprpaper",
            "spawn swaybg -o DP-1 -i /w/beach.jpg",
            "side-cache /w/beach.jpg",
        ]
    );
    let spawns = steps.iter().filter(|s| matches!(s, ApplyStep::Spawn { .. })).count();
    assert_eq!(spawns, 1);
}

#[test]
fn sway_side_cache_holds_path_verbatim() {
    let path = "/home/u/Pictures/My Walls/ñandú 01.PNG";
    let steps = plan_apply(path, "sway", "HDMI-A-1", &config(), false).unwrap();
    match steps.last().unwrap() {
        ApplyStep::WriteSideCache { contents } => assert_eq!(contents, path),
        _ => panic!("the side cache is written last"),
    }
}

#[test]
fn niri_starts_daemon_when_absent() {
    let steps = plan_apply("/w/a.png", "niri", "eDP-1", &config(), false).unwrap();
    assert_eq!(
        describe(&steps),
        vec![
            "kill mpvpaper",
            "kill swaybg",
            "start swww-daemon --namespace niri --format argb",
            "pause 100",
            "run swww img --namespace niri -o eDP-1 /w/a.png --transition-type grow",
        ]
    );
}

#[test]
fn niri_reuses_running_daemon() {
    let steps = plan_apply("/w/a.png", "niri", "eDP-1", &config(), true).unwrap();
    assert_eq!(
        describe(&steps),
        vec!["kill mpvpaper", "kill swaybg", "run swww img --namespace niri -o eDP-1 /w/a.png --transition-type grow"]
    );
}

#[test]
fn hyprland_refreshes_after_applying() {
    let steps = plan_apply("/w/a.png", "hyprland", "DP-3", &config(), true).unwrap();
    assert_eq!(
        describe(&steps),
        vec![
            "kill mpvpaper",
            "kill swaybg",
            "run swww img --namespace hypr -o DP-3 /w/a.png --transition-type grow",
            "run bash /home/u/bin/refresh.sh",
        ]
    );
}

#[test]
fn unknown_compositor_touches_nothing() {
    assert_eq!(plan_apply("/w/a.png", "gnome", "DP-1", &config(), false).err(), Some(ApplyError::UnknownCompositor));
    assert_eq!(plan_apply("/w/a.png", "Sway", "DP-1", &config(), false).err(), Some(ApplyError::UnknownCompositor));
    assert_eq!(plan_apply("/w/a.png", "", "DP-1", &config(), false).err(), Some(ApplyError::UnknownCompositor));
}

#[test]
fn daemon_namespaces() {
    assert_eq!(namespace_for("hyprland"), Some("hypr"));
    assert_eq!(namespace_for("niri"), Some("niri"));
    assert_eq!(namespace_for("sway"), None);
}

#[test]
fn home_expansion() {
    assert_eq!(expand_home("~/Pictures/walls", Some("/home/u")), "/home/u/Pictures/walls");
    assert_eq!(expand_home("~/x", None), "~/x");
    assert_eq!(expand_home("/etc/x", Some("/home/u")), "/etc/x");
    assert_eq!(expand_home("~user/x", Some("/home/u")), "~user/x");
    assert_eq!(expand_home("~", Some("/home/u")), "~");
}
