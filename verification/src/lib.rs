//! The logic of Edged, a window switcher: stored settings and chords, the zones of the
//! ring, the decisions of the update check, the orderings the panel lists by, how the
//! desktop model takes each fresh read and which read comes next, the menus and rows,
//! and when window previews show and which pictures are kept.

pub mod desktop;
pub mod dock;
pub mod grab;
pub mod jobs;
pub mod listing;
pub mod menus;
pub mod motion;
pub mod pages;
pub mod panels;
pub mod permissions;
pub mod previews;
pub mod rows;
pub mod release;
pub mod screen;
pub mod server;
pub mod settings;
pub mod shortcut;
pub mod space;
pub mod text;
pub mod upkeep;
pub mod updates;
pub mod zone;
