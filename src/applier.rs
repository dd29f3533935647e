//! The applier's plan: which processes to stop, start and run so that
//! exactly one background-rendering strategy is left for the compositor.
//! The caller carries the steps out in order.
use vstd::prelude::*;
use crate::paths::{join, joined};
use crate::process::{CommandView, ProcessCommand};

verus! {

/// Settings that the applier reads from the shared configuration file.
pub struct ApplyConfig {
    /// Extra arguments for the image daemon's `img` command.
    pub swww_params: Vec<String>,
    /// The script that makes Hyprland repaint, home already expanded.
    pub refresh_script: String,
}

pub enum ApplyStep {
    /// Terminate every process with exactly this name.
    Kill { process: String },
    /// Start a process and leave it running.
    Spawn { command: ProcessCommand },
    /// Start the image daemon and leave it running; should that fail, the
    /// apply command that follows reports whether a daemon answers.
    StartDaemon { command: ProcessCommand },
    /// Give a freshly started daemon time to open its socket.
    Pause { millis: u64 },
    /// Run a command to completion.
    Run { command: ProcessCommand },
    /// Overwrite the side-cache file read by the lock-screen tooling.
    WriteSideCache { contents: String },
}

pub enum StepView {
    Kill(Seq<char>),
    Spawn(CommandView),
    StartDaemon(CommandView),
    Pause(u64),
    Run(CommandView),
    WriteSideCache(Seq<char>),
}

impl View for ApplyStep {
    type V = StepView;

    open spec fn view(&self) -> StepView {
        match self {
            ApplyStep::Kill { process } => StepView::Kill(process@),
            ApplyStep::Spawn { command } => StepView::Spawn(command@),
            ApplyStep::StartDaemon { command } => StepView::StartDaemon(command@),
            ApplyStep::Pause { millis } => StepView::Pause(*millis),
            ApplyStep::Run { command } => StepView::Run(command@),
            ApplyStep::WriteSideCache { contents } => StepView::WriteSideCache(contents@),
        }
    }
}

#[derive(PartialEq, Eq, Structural, Clone, Copy, Debug)]
pub enum ApplyError {
    /// The compositor token is none of `hyprland`, `niri`, `sway`.
    UnknownCompositor,
}

/// How long to wait after starting the image daemon.
pub const DAEMON_START_MILLIS: u64 = 100;

pub open spec fn steps_view(s: Seq<ApplyStep>) -> Seq<StepView> {
    s.map_values(|st: ApplyStep| st@)
}

/// The image-daemon strategy for namespace `ns`: stop the video player and
/// the static background, start the daemon unless one runs for `ns`, and
/// have it show `path` on `monitor`.
pub open spec fn daemon_plan(
    path: Seq<char>,
    monitor: Seq<char>,
    ns: Seq<char>,
    params: Seq<Seq<char>>,
    running: bool,
) -> Seq<StepView> {
    seq![StepView::Kill("mpvpaper"@), StepView::Kill("swaybg"@)] + (if running {
        Seq::empty()
    } else {
        seq![
            StepView::StartDaemon(
                CommandView {
                    program: "swww-daemon"@,
                    args: seq!["--namespace"@, ns, "--format"@, "argb"@],
                },
            ),
            StepView::Pause(DAEMON_START_MILLIS),
        ]
    }) + seq![
        StepView::Run(
            CommandView {
                program: "swww"@,
                args: seq!["img"@, "--namespace"@, ns, "-o"@, monitor, path] + params,
            },
        ),
    ]
}

/// The static-background strategy: stop the daemon and the video player,
/// start one background process for `monitor` showing `path`, and record
/// `path` in the side cache.
pub open spec fn static_plan(path: Seq<char>, monitor: Seq<char>) -> Seq<StepView> {
    seq![
        StepView::Kill("swww-daemon"@),
        StepView::Kill("mpvpaper"@),
        StepView::Kill("hyprpaper"@),
        StepView::Spawn(
            CommandView { program: "swaybg"@, args: seq!["-o"@, monitor, "-i"@, path] },
        ),
        StepView::WriteSideCache(path),
    ]
}

/// The plan for a compositor token, or nothing for an unknown token.
pub open spec fn apply_plan(
    path: Seq<char>,
    token: Seq<char>,
    monitor: Seq<char>,
    params: Seq<Seq<char>>,
    refresh: Seq<char>,
    running: bool,
) -> Option<Seq<StepView>> {
    if token == "hyprland"@ {
        Some(
            daemon_plan(path, monitor, "hypr"@, params, running).push(
                StepView::Run(CommandView { program: "bash"@, args: seq![refresh] }),
            ),
        )
    } else if token == "niri"@ {
        Some(daemon_plan(path, monitor, "niri"@, params, running))
    } else if token == "sway"@ {
        Some(static_plan(path, monitor))
    } else {
        None
    }
}

/// The namespace of the image daemon for a compositor token.
pub open spec fn daemon_namespace(token: Seq<char>) -> Option<Seq<char>> {
    if token == "hyprland"@ {
        Some("hypr"@)
    } else if token == "niri"@ {
        Some("niri"@)
    } else {
        None
    }
}

pub fn namespace_for(token: &str) -> (r: Option<&'static str>)
    ensures
        match r {
            Some(ns) => daemon_namespace(token@) == Some(ns@),
            None => daemon_namespace(token@) is None,
        },
{
    if crate::text::str_eq(token, "hyprland") {
        Some("hypr")
    } else if crate::text::str_eq(token, "niri") {
        Some("niri")
    } else {
        None
    }
}

fn kill(process: &str) -> (r: ApplyStep)
    ensures
        r@ == StepView::Kill(process@),
{
    ApplyStep::Kill { process: process.to_owned() }
}

fn push_daemon_plan(
    steps: &mut Vec<ApplyStep>,
    path: &str,
    monitor: &str,
    ns: &str,
    params: &Vec<String>,
    running: bool,
)
    ensures
        steps_view(final(steps)@) == steps_view(old(steps)@) + daemon_plan(
            path@,
            monitor@,
            ns@,
            params@.map_values(|a: String| a@),
            running,
        ),
{
    let ghost start = steps_view(steps@);
    steps.push(kill("mpvpaper"));
    steps.push(kill("swaybg"));
    let ghost mid = steps_view(steps@);
    assert(mid =~= start + seq![StepView::Kill("mpvpaper"@), StepView::Kill("swaybg"@)]);
    if !running {
        let mut daemon = ProcessCommand::new("swww-daemon");
        daemon.arg("--namespace");
        daemon.arg(ns);
        daemon.arg("--format");
        daemon.arg("argb");
        assert(daemon@.args =~= seq!["--namespace"@, ns@, "--format"@, "argb"@]);
        steps.push(ApplyStep::StartDaemon { command: daemon });
        steps.push(ApplyStep::Pause { millis: DAEMON_START_MILLIS });
    }
    let ghost mid2 = steps_view(steps@);
    let mut img = ProcessCommand::new("swww");
    img.arg("img");
    img.arg("--namespace");
    img.arg(ns);
    img.arg("-o");
    img.arg(monitor);
    img.arg(path);
    assert(img@.args =~= seq!["img"@, "--namespace"@, ns@, "-o"@, monitor@, path@]);
    img.extend_args(params);
    steps.push(ApplyStep::Run { command: img });
    assert(steps_view(steps@) =~= steps_view(old(steps)@) + daemon_plan(
        path@,
        monitor@,
        ns@,
        params@.map_values(|a: String| a@),
        running,
    ));
}

/// The steps that show `path` on `monitor` under the compositor named by
/// `token`; `daemon_running` tells whether the image daemon already runs
/// for the compositor's namespace. An unknown token touches nothing.
pub fn plan_apply(
    path: &str,
    token: &str,
    monitor: &str,
    config: &ApplyConfig,
    daemon_running: bool,
) -> (r: Result<Vec<ApplyStep>, ApplyError>)
    ensures
        match r {
            Ok(steps) => apply_plan(
                path@,
                token@,
                monitor@,
                config.swww_params@.map_values(|a: String| a@),
                config.refresh_script@,
                daemon_running,
            ) == Some(steps_view(steps@)),
            Err(e) => e == ApplyError::UnknownCompositor && apply_plan(
                path@,
                token@,
                monitor@,
                config.swww_params@.map_values(|a: String| a@),
                config.refresh_script@,
                daemon_running,
            ) is None,
        },
{
    let mut steps: Vec<ApplyStep> = Vec::new();
    assert(steps_view(steps@) =~= Seq::<StepView>::empty());
    if crate::text::str_eq(token, "hyprland") {
        push_daemon_plan(&mut steps, path, monitor, "hypr", &config.swww_params, daemon_running);
        let mut refresh = ProcessCommand::new("bash");
        refresh.arg(config.refresh_script.as_str());
        assert(refresh@.args =~= seq![config.refresh_script@]);
        steps.push(ApplyStep::Run { command: refresh });
        assert(steps_view(steps@) =~= daemon_plan(
            path@,
            monitor@,
            "hypr"@,
            config.swww_params@.map_values(|a: String| a@),
            daemon_running,
        ).push(StepView::Run(CommandView { program: "bash"@, args: seq![config.refresh_script@] })));
        Ok(steps)
    } else if crate::text::str_eq(token, "niri") {
        push_daemon_plan(&mut steps, path, monitor, "niri", &config.swww_params, daemon_running);
        assert(steps_view(steps@) =~= daemon_plan(
            path@,
            monitor@,
            "niri"@,
            config.swww_params@.map_values(|a: String| a@),
            daemon_running,
        ));
        Ok(steps)
    } else if crate::text::str_eq(token, "sway") {
        steps.push(kill("swww-daemon"));
        steps.push(kill("mpvpaper"));
        steps.push(kill("hyprpaper"));
        let mut bg = ProcessCommand::new("swaybg");
        bg.arg("-o");
        bg.arg(monitor);
        bg.arg("-i");
        bg.arg(path);
        assert(bg@.args =~= seq!["-o"@, monitor@, "-i"@, path@]);
        steps.push(ApplyStep::Spawn { command: bg });
        steps.push(ApplyStep::WriteSideCache { contents: path.to_owned() });
        assert(steps_view(steps@) =~= static_plan(path@, monitor@));
        Ok(steps)
    } else {
        Err(ApplyError::UnknownCompositor)
    }
}

/// For Sway the applier stops the namespaced daemon and the video player,
/// starts exactly one background process, for the chosen monitor and path,
/// and records the path verbatim in the side cache; it starts nothing else.
pub proof fn lemma_sway_plan(
    path: Seq<char>,
    monitor: Seq<char>,
    params: Seq<Seq<char>>,
    refresh: Seq<char>,
    running: bool,
)
    ensures
        apply_plan(path, "sway"@, monitor, params, refresh, running) matches Some(steps) && steps.contains(
            StepView::Kill("swww-daemon"@),
        ) && steps.contains(StepView::Kill("mpvpaper"@)) && steps.contains(
            StepView::WriteSideCache(path),
        ) && (forall|i: int|
            0 <= i < steps.len() && #[trigger] steps[i] is Spawn ==> steps[i] == StepView::Spawn(
                CommandView { program: "swaybg"@, args: seq!["-o"@, monitor, "-i"@, path] },
            )) && (exists|i: int| 0 <= i < steps.len() && #[trigger] steps[i] is Spawn)
            && (forall|i: int|
            0 <= i < steps.len() ==> !(#[trigger] steps[i] is Run) && !(steps[i] is StartDaemon)),
{
    reveal_strlit("sway");
    reveal_strlit("hyprland");
    reveal_strlit("niri");
    let steps = static_plan(path, monitor);
    assert("sway"@.len() == 4 && "hyprland"@.len() == 8);
    assert("sway"@[0] == 's' && "niri"@[0] == 'n');
    assert("sway"@ != "hyprland"@);
    assert("sway"@ != "niri"@);
    assert(apply_plan(path, "sway"@, monitor, params, refresh, running) == Some(steps));
    assert(steps.len() == 5);
    assert(steps[0] == StepView::Kill("swww-daemon"@));
    assert(steps[1] == StepView::Kill("mpvpaper"@));
    assert(steps[4] == StepView::WriteSideCache(path));
    assert(steps.contains(StepView::Kill("swww-daemon"@)));
    assert(steps.contains(StepView::Kill("mpvpaper"@)));
    assert(steps.contains(StepView::WriteSideCache(path)));
    assert(steps[3] is Spawn);
    assert forall|i: int| 0 <= i < steps.len() && #[trigger] steps[i] is Spawn implies steps[i]
        == StepView::Spawn(
        CommandView { program: "swaybg"@, args: seq!["-o"@, monitor, "-i"@, path] },
    ) by {
        assert(i == 3 || i < 3 || i == 4);
    }
    assert forall|i: int| 0 <= i < steps.len() implies !(#[trigger] steps[i] is Run) && !(
    steps[i] is StartDaemon) by {
        assert(i == 0 || i == 1 || i == 2 || i == 3 || i == 4);
    }
}

/// `path` with a leading `~/` replaced by the home directory, when it is
/// known.
pub open spec fn expanded(path: Seq<char>, home: Option<Seq<char>>) -> Seq<char> {
    if path.len() >= 2 && path[0] == '~' && path[1] == '/' && home is Some {
        joined(home->Some_0, path.skip(2))
    } else {
        path
    }
}

pub fn expand_home(path: &str, home: Option<&str>) -> (r: String)
    ensures
        r@ == expanded(
            path@,
            match home {
                Some(h) => Some(h@),
                None => None,
            },
        ),
{
    let n = path.unicode_len();
    if n >= 2 && path.get_char(0) == '~' && path.get_char(1) == '/' {
        if let Some(h) = home {
            let rest = path.substring_char(2, n);
            assert(rest@ =~= path@.skip(2));
            return join(h, rest);
        }
    }
    path.to_owned()
}

} // verus!
