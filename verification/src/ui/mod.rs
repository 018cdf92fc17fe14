pub mod location_browser;
pub mod shell;
