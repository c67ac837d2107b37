//! The application settings served and replaced over HTTP.

use vstd::prelude::*;

verus! {

/// The application settings.
#[derive(Clone, Debug)]
pub struct AppConfig {
    /// The HTTP port.
    pub port: u16,
    /// The GUI theme.
    pub theme: String,
    /// The GUI language.
    pub language: String,
}

impl Default for AppConfig {
    /// Port 8080, light theme, Simplified Chinese.
    fn default() -> (r: Self)
        ensures
            r.port == 8080,
            r.theme@ == "light"@,
            r.language@ == "zh-CN"@,
    {
        AppConfig { port: 8080, theme: String::from_str("light"), language: String::from_str("zh-CN") }
    }
}

impl AppConfig {
    /// The default settings on another port.
    pub fn with_port(port: u16) -> (r: Self)
        ensures
            r.port == port,
            r.theme@ == "light"@,
            r.language@ == "zh-CN"@,
    {
        AppConfig { port, theme: String::from_str("light"), language: String::from_str("zh-CN") }
    }
}

} // verus!
