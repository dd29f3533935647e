//! Decision logic of a wallpaper manager for Wayland compositors: the
//! thumbnail catalog, compositor detection, the chooser protocol, the picker
//! and applier processes and the directory watcher, plus the state of a small
//! finance dashboard and a weather widget.
pub mod applier;
pub mod catalog;
pub mod chooser;
pub mod compositor;
pub mod finance;
pub mod paths;
pub mod picker;
pub mod process;
pub mod text;
pub mod watcher;
pub mod weather;
