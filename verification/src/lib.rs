//! The verified core of a terminal web browser.

pub mod adblock;
pub mod address;
pub mod assistant;
pub mod bars;
pub mod browser;
pub mod canvas;
pub mod colors;
pub mod commands;
pub mod config;
pub mod cookies;
pub mod daemon_laws;
pub mod dom;
pub mod fetch_laws;
pub mod fetcher;
pub mod firefox;
pub mod form_laws;
pub mod forms;
pub mod help;
pub mod highlight;
pub mod images;
pub mod js;
pub mod js_laws;
pub mod json;
pub mod key_laws;
pub mod listings;
pub mod number;
pub mod page_laws;
pub mod pages;
pub mod passwords;
pub mod popup;
pub mod prefs;
pub mod render_laws;
pub mod renderer;
pub mod rsc;
pub mod runs;
pub mod scripts;
pub mod search;
pub mod servo_daemon;
pub mod settings_laws;
pub mod site_laws;
pub mod stored;
pub mod strmap;
pub mod style;
pub mod tab;
pub mod tab_laws;
pub mod table;
pub mod text;
pub mod text_laws;
pub mod visit_laws;
