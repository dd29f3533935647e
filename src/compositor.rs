//! Which compositor runs the session, and which monitors it drives.
use vstd::prelude::*;
use crate::process::{CommandView, ProcessCommand};
use crate::text::{contains, has_infix, lower_of, lowercase, split, split_seq, str_eq, trim, trimmed};

verus! {

/// The compositors this manager knows how to drive.
#[derive(PartialEq, Eq, Structural, Clone, Copy, Debug)]
pub enum CompositorKind {
    Hyprland,
    Niri,
    Sway,
    Unknown,
}

/// The token that names a compositor on the applier's command line.
pub open spec fn token_of(k: CompositorKind) -> Seq<char> {
    match k {
        CompositorKind::Hyprland => "hyprland"@,
        CompositorKind::Niri => "niri"@,
        CompositorKind::Sway => "sway"@,
        CompositorKind::Unknown => "unknown"@,
    }
}

/// The compositor that a command-line token names.
pub open spec fn kind_of_token(t: Seq<char>) -> Option<CompositorKind> {
    if t == "hyprland"@ {
        Some(CompositorKind::Hyprland)
    } else if t == "niri"@ {
        Some(CompositorKind::Niri)
    } else if t == "sway"@ {
        Some(CompositorKind::Sway)
    } else {
        None
    }
}

impl CompositorKind {
    pub fn token(&self) -> (r: &'static str)
        ensures
            r@ == token_of(*self),
    {
        match self {
            CompositorKind::Hyprland => "hyprland",
            CompositorKind::Niri => "niri",
            CompositorKind::Sway => "sway",
            CompositorKind::Unknown => "unknown",
        }
    }

    /// The compositor named by `t`; nothing for any other word, `unknown`
    /// included.
    pub fn from_token(t: &str) -> (r: Option<CompositorKind>)
        ensures
            r == kind_of_token(t@),
    {
        if str_eq(t, "hyprland") {
            Some(CompositorKind::Hyprland)
        } else if str_eq(t, "niri") {
            Some(CompositorKind::Niri)
        } else if str_eq(t, "sway") {
            Some(CompositorKind::Sway)
        } else {
            None
        }
    }
}

/// What the session's environment says about the compositor: whether each
/// compositor's own socket variable is set (`NIRI_SOCKET`,
/// `HYPRLAND_INSTANCE_SIGNATURE`, `SWAYSOCK`), and the generic
/// `XDG_CURRENT_DESKTOP` string if there is one.
pub struct SessionMarkers {
    pub niri_socket: bool,
    pub hyprland_signature: bool,
    pub sway_socket: bool,
    pub current_desktop: Option<String>,
}

/// The compositor detected from the markers, with the desktop string
/// already lower-cased: the compositor-specific markers decide first, in the
/// order Niri, Hyprland, Sway; then a substring of the desktop string.
pub open spec fn compositor_for(
    niri: bool,
    hypr: bool,
    sway: bool,
    desktop_lower: Option<Seq<char>>,
) -> CompositorKind {
    if niri {
        CompositorKind::Niri
    } else if hypr {
        CompositorKind::Hyprland
    } else if sway {
        CompositorKind::Sway
    } else {
        match desktop_lower {
            Some(d) => if has_infix(d, "niri"@) {
                CompositorKind::Niri
            } else if has_infix(d, "hypr"@) {
                CompositorKind::Hyprland
            } else if has_infix(d, "sway"@) {
                CompositorKind::Sway
            } else {
                CompositorKind::Unknown
            },
            None => CompositorKind::Unknown,
        }
    }
}

pub open spec fn detected(m: SessionMarkers) -> CompositorKind {
    compositor_for(
        m.niri_socket,
        m.hyprland_signature,
        m.sway_socket,
        match m.current_desktop {
            Some(d) => Some(lower_of(d@)),
            None => None,
        },
    )
}

/// Detection from markers whose desktop string is already lower-cased.
pub fn compositor_from_lowered(
    niri: bool,
    hypr: bool,
    sway: bool,
    desktop_lower: Option<&str>,
) -> (r: CompositorKind)
    ensures
        r == compositor_for(
            niri,
            hypr,
            sway,
            match desktop_lower {
                Some(d) => Some(d@),
                None => None,
            },
        ),
{
    if niri {
        CompositorKind::Niri
    } else if hypr {
        CompositorKind::Hyprland
    } else if sway {
        CompositorKind::Sway
    } else {
        match desktop_lower {
            Some(d) => {
                if contains(d, "niri") {
                    CompositorKind::Niri
                } else if contains(d, "hypr") {
                    CompositorKind::Hyprland
                } else if contains(d, "sway") {
                    CompositorKind::Sway
                } else {
                    CompositorKind::Unknown
                }
            },
            None => CompositorKind::Unknown,
        }
    }
}

/// The compositor of the session described by `m`.
pub fn detect_compositor(m: &SessionMarkers) -> (r: CompositorKind)
    ensures
        r == detected(*m),
{
    match &m.current_desktop {
        Some(d) => {
            let lower = lowercase(d.as_str());
            compositor_from_lowered(
                m.niri_socket,
                m.hyprland_signature,
                m.sway_socket,
                Some(lower.as_str()),
            )
        },
        None => compositor_from_lowered(m.niri_socket, m.hyprland_signature, m.sway_socket, None),
    }
}

/// A set Sway socket decides the compositor when neither the Niri nor the
/// Hyprland marker is set, whatever the generic desktop string says.
pub proof fn lemma_sway_socket_decides(desktop: Option<String>)
    ensures
        detected(
            SessionMarkers {
                niri_socket: false,
                hyprland_signature: false,
                sway_socket: true,
                current_desktop: desktop,
            },
        ) == CompositorKind::Sway,
{
}

/// The command that lists the monitors of a session: the compositor's own
/// query for Hyprland and Sway; for Niri, which has none, the image
/// daemon's query of its `niri` namespace.
pub open spec fn monitor_query(k: CompositorKind) -> Option<CommandView> {
    match k {
        CompositorKind::Hyprland => Some(
            CommandView { program: "hyprctl"@, args: seq!["-j"@, "monitors"@] },
        ),
        CompositorKind::Sway => Some(
            CommandView { program: "swaymsg"@, args: seq!["-t"@, "get_outputs"@] },
        ),
        CompositorKind::Niri => Some(
            CommandView { program: "swww"@, args: seq!["query"@, "--namespace"@, "niri"@] },
        ),
        CompositorKind::Unknown => None,
    }
}

pub fn monitor_query_command(k: CompositorKind) -> (r: Option<ProcessCommand>)
    ensures
        match r {
            Some(c) => monitor_query(k) == Some(c@),
            None => monitor_query(k) is None,
        },
{
    match k {
        CompositorKind::Hyprland => {
            let mut c = ProcessCommand::new("hyprctl");
            c.arg("-j");
            c.arg("monitors");
            assert(c@.args =~= seq!["-j"@, "monitors"@]);
            Some(c)
        },
        CompositorKind::Sway => {
            let mut c = ProcessCommand::new("swaymsg");
            c.arg("-t");
            c.arg("get_outputs");
            assert(c@.args =~= seq!["-t"@, "get_outputs"@]);
            Some(c)
        },
        CompositorKind::Niri => {
            let mut c = ProcessCommand::new("swww");
            c.arg("query");
            c.arg("--namespace");
            c.arg("niri");
            assert(c@.args =~= seq!["query"@, "--namespace"@, "niri"@]);
            Some(c)
        },
        CompositorKind::Unknown => None,
    }
}

/// One output as the compositor's JSON lists it; Hyprland lists no
/// `active` flag.
pub struct OutputInfo {
    pub name: String,
    pub active: Option<bool>,
}

/// Whether a listed output counts as a monitor: Sway lists disabled outputs
/// too, and only those flagged active count; Hyprland lists monitors only.
pub open spec fn counts_as_monitor(k: CompositorKind, active: Option<bool>) -> bool {
    k != CompositorKind::Sway || active == Some(true)
}

/// The names of the outputs that count as monitors, in the listed order.
pub open spec fn listed_monitors(k: CompositorKind, outputs: Seq<OutputInfo>) -> Seq<Seq<char>>
    decreases outputs.len(),
{
    if outputs.len() == 0 {
        Seq::empty()
    } else {
        let p = listed_monitors(k, outputs.drop_last());
        if counts_as_monitor(k, outputs.last().active) {
            p.push(outputs.last().name@)
        } else {
            p
        }
    }
}

pub fn listed_monitor_names(k: CompositorKind, outputs: &Vec<OutputInfo>) -> (r: Vec<String>)
    ensures
        r@.map_values(|s: String| s@) == listed_monitors(k, outputs@),
{
    let mut out: Vec<String> = Vec::new();
    let mut i: usize = 0;
    assert(outputs@.take(0) =~= Seq::<OutputInfo>::empty());
    assert(out@.map_values(|s: String| s@) =~= Seq::<Seq<char>>::empty());
    while i < outputs.len()
        invariant
            i <= outputs@.len(),
            out@.map_values(|s: String| s@) == listed_monitors(k, outputs@.take(i as int)),
        decreases outputs@.len() - i,
    {
        assert(outputs@.take(i + 1).drop_last() =~= outputs@.take(i as int));
        let keep = match k {
            CompositorKind::Sway => match outputs[i].active {
                Some(a) => a,
                None => false,
            },
            _ => true,
        };
        if keep {
            out.push(outputs[i].name.clone());
        }
        i = i + 1;
        assert(out@.map_values(|s: String| s@) =~= listed_monitors(k, outputs@.take(i as int)));
    }
    assert(outputs@.take(outputs@.len() as int) =~= outputs@);
    out
}

/// The monitor named on one line of the daemon's `key: value` reply: the
/// second `:`-separated field, trimmed; lines without a `:` name none.
pub open spec fn namespace_line_monitor(line: Seq<char>) -> Option<Seq<char>> {
    let fields = split_seq(line, ':');
    if fields.len() >= 2 {
        Some(trimmed(fields[1]))
    } else {
        None
    }
}

/// The monitors named by the lines of a reply, in order.
pub open spec fn namespace_monitors_of_lines(lines: Seq<Seq<char>>) -> Seq<Seq<char>>
    decreases lines.len(),
{
    if lines.len() == 0 {
        Seq::empty()
    } else {
        let p = namespace_monitors_of_lines(lines.drop_last());
        match namespace_line_monitor(lines.last()) {
            Some(m) => p.push(m),
            None => p,
        }
    }
}

/// The monitors named by the daemon's reply to a namespace query.
pub open spec fn namespace_monitors(reply: Seq<char>) -> Seq<Seq<char>> {
    namespace_monitors_of_lines(split_seq(reply, '\n'))
}

pub fn namespace_monitor_names(reply: &str) -> (r: Vec<String>)
    ensures
        r@.map_values(|s: String| s@) == namespace_monitors(reply@),
{
    let lines = split(reply, '\n');
    let ghost lv = lines@.map_values(|p: &str| p@);
    let mut out: Vec<String> = Vec::new();
    let mut i: usize = 0;
    assert(lv.take(0) =~= Seq::<Seq<char>>::empty());
    assert(out@.map_values(|s: String| s@) =~= Seq::<Seq<char>>::empty());
    while i < lines.len()
        invariant
            i <= lines@.len(),
            lv == lines@.map_values(|p: &str| p@),
            lv == split_seq(reply@, '\n'),
            out@.map_values(|s: String| s@) == namespace_monitors_of_lines(lv.take(i as int)),
        decreases lines@.len() - i,
    {
        assert(lv.take(i + 1).drop_last() =~= lv.take(i as int));
        assert(lv[i as int] == lines@[i as int]@);
        let fields = split(lines[i], ':');
        assert(fields@.map_values(|p: &str| p@) == split_seq(lines@[i as int]@, ':'));
        if fields.len() >= 2 {
            assert(fields@[1]@ == split_seq(lines@[i as int]@, ':')[1]);
            let m = trim(fields[1]);
            out.push(m.to_owned());
        }
        i = i + 1;
        assert(out@.map_values(|s: String| s@) =~= namespace_monitors_of_lines(lv.take(i as int)));
    }
    assert(lv.take(lines@.len() as int) =~= lv);
    out
}

} // verus!
