use wallkit::finance::{App, Config, InputMode, MessageColor, WaybarOutput, YahooSearchResponse, YahooSearchResult};
use wallkit::text::{contains, split, str_eq, str_le, trim};
use wallkit::watcher::{watcher_start, watcher_step, WatchAction, WatchEvent, WatcherState};
use wallkit::weather::get_weather_icon;

fn app_with(stocks: &[&str], key: Option<&str>) -> App {
    let config = Config {
        stocks: stocks.iter().map(|s| s.to_string()).collect(),
        api_key: key.map(|k| k.to_string()),
    };
    App::new(config, "Ready".to_string(), MessageColor::Green)
}

fn result(symbol: &str) -> YahooSearchResult {
    YahooSearchResult { symbol: symbol.to_string(), name: None, quote_type: None, exchange: None }
}

#[test]
fn default_config_watch_list() {
    let c = Config::default();
    assert_eq!(c.stocks, vec!["SCHO", "SPY", "BITB", "SGOL", "QQQ"]);
    assert!(c.api_key.is_none());
}

#[test]
fn first_run_asks_for_key() {
    let app = app_with(&["SPY"], None);
    assert_eq!(app.input_mode, InputMode::KeyEntry);
    assert_eq!(app.message, "Welcome! Please enter your Finnhub API Key.");
    assert_eq!(app.selected, Some(0));
    assert_eq!(app.message_color, MessageColor::Yellow);
    let app = app_with(&["SPY"], Some("test-key"));
    assert_eq!(app.input_mode, InputMode::Normal);
    assert_eq!(app.message, "Ready");
    assert_eq!(app.message_color, MessageColor::Green);
    assert!(!app.should_quit);
}

#[test]
fn watch_list_navigation_wraps() {
    let mut app = app_with(&["A", "B", "C"], Some("k"));
    app.next();
    assert_eq!(app.selected, Some(1));
    app.next();
    app.next();
    assert_eq!(app.selected, Some(0));
    app.input = "typed".to_string();
    app.previous();
    assert_eq!(app.selected, Some(2));
    assert_eq!(app.input, "typed");
    assert_eq!(app.stocks, vec!["A", "B", "C"]);
    assert_eq!(app.message, "Ready");
    app.selected = None;
    app.previous();
    assert_eq!(app.selected, Some(0));
}

#[test]
fn search_navigation_wraps() {
    let mut app = app_with(&["A"], Some("k"));
    app.next_search();
    assert_eq!(app.search_selected, Some(0));
    app.previous_search();
    assert_eq!(app.search_selected, Some(0));
    app.search_results = vec![result("X"), result("Y")];
    app.previous_search();
    assert_eq!(app.search_selected, Some(1));
    app.next_search();
    assert_eq!(app.search_selected, Some(0));
    app.next_search();
    assert_eq!(app.search_selected, Some(1));
}

#[test]
fn delete_moves_selection() {
    let mut app = app_with(&["A", "B", "C"], Some("k"));
    app.selected = Some(2);
    app.delete();
    assert_eq!(app.stocks, vec!["A", "B"]);
    assert_eq!(app.selected, Some(1));
    app.selected = Some(0);
    app.delete();
    assert_eq!(app.stocks, vec!["B"]);
    assert_eq!(app.selected, Some(0));
    app.delete();
    assert!(app.stocks.is_empty());
    assert_eq!(app.selected, None);
    app.delete();
    assert!(app.stocks.is_empty());
}

#[test]
fn plain_records() {
    let out = WaybarOutput { text: "SPY 1.0%".to_string(), tooltip: "t".to_string(), class: "up".to_string() };
    assert_eq!(out.class, "up");
    let resp = YahooSearchResponse { quotes: vec![result("QQQ")] };
    assert_eq!(resp.quotes[0].symbol, "QQQ");
}

#[test]
fn weather_icons() {
    assert_eq!(get_weather_icon(211, true), "\u{f0593}");
    assert_eq!(get_weather_icon(301, true), "\u{f0596}");
    assert_eq!(get_weather_icon(502, false), "\u{f0596}");
    assert_eq!(get_weather_icon(601, true), "\u{f0598}");
    assert_eq!(get_weather_icon(741, true), "\u{f0591}");
    assert_eq!(get_weather_icon(800, true), "\u{f0599}");
    assert_eq!(get_weather_icon(800, false), "\u{f0594}");
    assert_eq!(get_weather_icon(803, true), "\u{f0590}");
    assert_eq!(get_weather_icon(803, false), "\u{f0591}");
    assert_eq!(get_weather_icon(900, false), "\u{f0590}");
    assert_eq!(get_weather_icon(0, true), "\u{f0590}");
}

#[test]
fn watcher_coalesces_changes_during_a_rebuild() {
    let (s, a) = watcher_start();
    assert_eq!(a, WatchAction::Rebuild);
    let (s, a) = watcher_step(s, WatchEvent::Changed);
    assert_eq!(a, WatchAction::Wait);
    let (s, a) = watcher_step(s, WatchEvent::Changed);
    assert_eq!(a, WatchAction::Wait);
    let (s, a) = watcher_step(s, WatchEvent::ScanFinished);
    assert_eq!(a, WatchAction::Rebuild);
    let (s, a) = watcher_step(s, WatchEvent::ScanFinished);
    assert_eq!((s, a), (WatcherState::Idle, WatchAction::Wait));
    let (s, a) = watcher_step(s, WatchEvent::WatchFailed);
    assert_eq!((s, a), (WatcherState::Idle, WatchAction::Report));
    let (s, a) = watcher_step(s, WatchEvent::Changed);
    assert_eq!((s, a), (WatcherState::Scanning { pending: false }, WatchAction::Rebuild));
}

#[test]
fn text_helpers() {
    assert_eq!(trim("  a b \t\n"), "a b");
    assert_eq!(trim("\u{3000}x\u{2028}"), "x");
    assert_eq!(trim(" \n "), "");
    assert!(contains("hyprland", "hypr"));
    assert!(contains("x", ""));
    assert!(!contains("hyp", "hypr"));
    assert_eq!(split("a:b::c", ':'), vec!["a", "b", "", "c"]);
    assert_eq!(split("", ':'), vec![""]);
    assert_eq!(split("x\n", '\n'), vec!["x", ""]);
    assert!(str_eq("ab", "ab"));
    assert!(!str_eq("ab", "abc"));
    assert!(str_le("a", "ab"));
    assert!(str_le("ab", "ab"));
    assert!(!str_le("b", "ab"));
    assert!(str_le("Z", "a"));
}
