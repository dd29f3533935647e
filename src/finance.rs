//! State of the finance dashboard: the watch list, its configuration, and
//! the cursor movements of its list views.
use vstd::prelude::*;

verus! {

/// How key presses are read: navigating, typing a search, or entering the
/// API key that a first run asks for.
#[derive(PartialEq, Eq, Structural, Clone, Copy, Debug)]
pub enum InputMode {
    Normal,
    Editing,
    KeyEntry,
}

/// The colours in which the dashboard shows its status message.
#[derive(PartialEq, Eq, Structural, Clone, Copy, Debug)]
pub enum MessageColor {
    White,
    Gray,
    Green,
    Red,
    Yellow,
    Blue,
    Cyan,
}

/// The persisted settings: the watched symbols and the API key.
pub struct Config {
    pub stocks: Vec<String>,
    pub api_key: Option<String>,
}

/// The watch list that a new user starts with.
pub open spec fn default_stocks() -> Seq<Seq<char>> {
    seq!["SCHO"@, "SPY"@, "BITB"@, "SGOL"@, "QQQ"@]
}

impl Default for Config {
    fn default() -> (r: Self)
        ensures
            r.stocks@.map_values(|s: String| s@) == default_stocks(),
            r.api_key is None,
    {
        let mut stocks: Vec<String> = Vec::new();
        stocks.push("SCHO".to_owned());
        stocks.push("SPY".to_owned());
        stocks.push("BITB".to_owned());
        stocks.push("SGOL".to_owned());
        stocks.push("QQQ".to_owned());
        assert(stocks@.map_values(|s: String| s@) =~= default_stocks());
        Config { stocks, api_key: None }
    }
}

/// The JSON object printed for the status bar.
pub struct WaybarOutput {
    pub text: String,
    pub tooltip: String,
    pub class: String,
}

/// The symbol search service's reply.
pub struct YahooSearchResponse {
    pub quotes: Vec<YahooSearchResult>,
}

/// One match of a symbol search.
pub struct YahooSearchResult {
    pub symbol: String,
    pub name: Option<String>,
    pub quote_type: Option<String>,
    pub exchange: Option<String>,
}

/// The dashboard's runtime state that its key handling reads and changes.
pub struct App {
    pub stocks: Vec<String>,
    pub should_quit: bool,
    /// The highlighted row of the watch list.
    pub selected: Option<usize>,
    pub api_key: Option<String>,
    pub search_results: Vec<YahooSearchResult>,
    /// The highlighted row of the search results.
    pub search_selected: Option<usize>,
    pub input: String,
    pub input_mode: InputMode,
    pub message: String,
    pub message_color: MessageColor,
}

/// The next row of a list of `len` rows, wrapping to the top; the top when
/// nothing was highlighted.
pub open spec fn next_row(sel: Option<usize>, len: int) -> int {
    match sel {
        Some(i) => if i >= len - 1 {
            0
        } else {
            i + 1
        },
        None => 0,
    }
}

/// The previous row of a list of `len` rows, wrapping to the bottom; the
/// top when nothing was highlighted.
pub open spec fn previous_row(sel: Option<usize>, len: int) -> int {
    match sel {
        Some(i) => if i == 0 {
            if len > 0 {
                len - 1
            } else {
                0
            }
        } else {
            i - 1
        },
        None => 0,
    }
}

pub open spec fn welcome_message() -> Seq<char> {
    "Welcome! Please enter your Finnhub API Key."@
}

impl App {
    /// `self` and `other` differ at most in the watch-list highlight.
    pub open spec fn same_but_selected(&self, other: &App) -> bool {
        &&& self.stocks == other.stocks
        &&& self.should_quit == other.should_quit
        &&& self.api_key == other.api_key
        &&& self.search_results == other.search_results
        &&& self.search_selected == other.search_selected
        &&& self.input == other.input
        &&& self.input_mode == other.input_mode
        &&& self.message == other.message
        &&& self.message_color == other.message_color
    }

    /// `self` and `other` differ at most in the search highlight.
    pub open spec fn same_but_search_selected(&self, other: &App) -> bool {
        &&& self.stocks == other.stocks
        &&& self.should_quit == other.should_quit
        &&& self.selected == other.selected
        &&& self.api_key == other.api_key
        &&& self.search_results == other.search_results
        &&& self.input == other.input
        &&& self.input_mode == other.input_mode
        &&& self.message == other.message
        &&& self.message_color == other.message_color
    }

    /// `self` and `other` differ at most in the watch list and its highlight.
    pub open spec fn same_but_watch_list(&self, other: &App) -> bool {
        &&& self.should_quit == other.should_quit
        &&& self.api_key == other.api_key
        &&& self.search_results == other.search_results
        &&& self.search_selected == other.search_selected
        &&& self.input == other.input
        &&& self.input_mode == other.input_mode
        &&& self.message == other.message
        &&& self.message_color == other.message_color
    }

    /// The highlighted row, if any, lies inside a non-empty watch list.
    pub open spec fn wf(&self) -> bool {
        self.selected matches Some(i) ==> (self.stocks@.len() == 0 || i < self.stocks@.len())
    }

    /// A fresh dashboard over `config`, with the first row highlighted. A
    /// configuration without an API key starts in key entry with a welcome
    /// message in yellow; otherwise navigation starts with `message` in
    /// `message_color`.
    pub fn new(config: Config, message: String, message_color: MessageColor) -> (r: App)
        ensures
            r.wf(),
            r.stocks == config.stocks,
            r.api_key == config.api_key,
            r.selected == Some(0usize),
            r.search_selected is None,
            r.search_results@.len() == 0,
            r.input@.len() == 0,
            !r.should_quit,
            config.api_key is Some ==> r.input_mode == InputMode::Normal && r.message == message
                && r.message_color == message_color,
            config.api_key is None ==> r.input_mode == InputMode::KeyEntry && r.message@
                == welcome_message() && r.message_color == MessageColor::Yellow,
    {
        let (input_mode, msg, color) = if config.api_key.is_some() {
            (InputMode::Normal, message, message_color)
        } else {
            (
                InputMode::KeyEntry,
                "Welcome! Please enter your Finnhub API Key.".to_owned(),
                MessageColor::Yellow,
            )
        };
        App {
            stocks: config.stocks,
            should_quit: false,
            selected: Some(0),
            api_key: config.api_key,
            search_results: Vec::new(),
            search_selected: None,
            input: String::new(),
            input_mode,
            message: msg,
            message_color: color,
        }
    }

    /// Moves the search highlight down, wrapping to the top.
    pub fn next_search(&mut self)
        ensures
            final(self).search_selected == Some(
                next_row(old(self).search_selected, old(self).search_results@.len() as int) as usize,
            ),
            final(self).same_but_search_selected(old(self)),
    {
        let len = self.search_results.len();
        let i = match self.search_selected {
            Some(i) => {
                if i >= len.saturating_sub(1) {
                    0
                } else {
                    i + 1
                }
            },
            None => 0,
        };
        self.search_selected = Some(i);
    }

    /// Moves the search highlight up, wrapping to the bottom.
    pub fn previous_search(&mut self)
        ensures
            final(self).search_selected == Some(
                previous_row(old(self).search_selected, old(self).search_results@.len() as int) as usize,
            ),
            final(self).same_but_search_selected(old(self)),
    {
        let len = self.search_results.len();
        let i = match self.search_selected {
            Some(i) => {
                if i == 0 {
                    len.saturating_sub(1)
                } else {
                    i - 1
                }
            },
            None => 0,
        };
        self.search_selected = Some(i);
    }

    /// Moves the watch-list highlight down, wrapping to the top.
    pub fn next(&mut self)
        requires
            old(self).selected is Some ==> old(self).stocks@.len() > 0,
        ensures
            final(self).selected == Some(
                next_row(old(self).selected, old(self).stocks@.len() as int) as usize,
            ),
            final(self).same_but_selected(old(self)),
            old(self).wf() ==> final(self).wf(),
    {
        let i = match self.selected {
            Some(i) => {
                if i >= self.stocks.len() - 1 {
                    0
                } else {
                    i + 1
                }
            },
            None => 0,
        };
        self.selected = Some(i);
    }

    /// Moves the watch-list highlight up, wrapping to the bottom.
    pub fn previous(&mut self)
        requires
            old(self).selected is Some ==> old(self).stocks@.len() > 0,
        ensures
            final(self).selected == Some(
                previous_row(old(self).selected, old(self).stocks@.len() as int) as usize,
            ),
            final(self).same_but_selected(old(self)),
            old(self).wf() ==> final(self).wf(),
    {
        let i = match self.selected {
            Some(i) => {
                if i == 0 {
                    self.stocks.len() - 1
                } else {
                    i - 1
                }
            },
            None => 0,
        };
        self.selected = Some(i);
    }

    /// Removes the highlighted symbol from the watch list. The highlight
    /// stays on the same row, which now shows the next symbol; it moves up
    /// when the last row was removed, and goes away with the last symbol.
    pub fn delete(&mut self)
        requires
            old(self).wf(),
        ensures
            final(self).wf(),
            final(self).same_but_watch_list(old(self)),
            match old(self).selected {
                Some(s) => if old(self).stocks@.len() == 0 {
                    final(self).stocks == old(self).stocks
                        && final(self).selected == old(self).selected
                } else {
                    final(self).stocks@ == old(self).stocks@.remove(s as int)
                        && final(self).selected == (if final(self).stocks@.len() == 0 {
                        None
                    } else if s >= final(self).stocks@.len() {
                        Some((final(self).stocks@.len() - 1) as usize)
                    } else {
                        Some(s)
                    })
                },
                None => final(self).stocks == old(self).stocks
                    && final(self).selected == old(self).selected,
            },
    {
        if let Some(selected) = self.selected {
            if self.stocks.len() == 0 {
                return;
            }
            self.stocks.remove(selected);
            if self.stocks.len() == 0 {
                self.selected = None;
            } else if selected >= self.stocks.len() {
                self.selected = Some(self.stocks.len() - 1);
            }
        }
    }
}

} // verus!
