//! The settings that a caller hands to the library.

use crate::providers::{Provider, ProviderView};
use vstd::prelude::*;

verus! {

/// The directory, below the user's directory for settings, that holds the
/// settings of the add-on manager.
pub const DEFAULT_CONFIG_SUBDIR: &'static str = "wau";

/// The file, in that directory, that holds the settings.
pub const DEFAULT_CONFIG_FILENAME: &'static str = "config.toml";

/// The settings of the add-on manager.
#[derive(Clone, Debug, PartialEq)]
pub struct Config {
    /// The directory that holds the installations of the game.
    pub path: Option<String>,
    /// A directory for files on their way to an installation.
    pub tmp: Option<String>,
    /// The access token for CurseForge.
    pub token_curse: Option<String>,
}

impl Default for Config {
    fn default() -> (r: Config)
        ensures
            r.path is None,
            r.tmp is None,
            r.token_curse is None,
    {
        Config { path: None, tmp: None, token_curse: None }
    }
}

impl Config {
    /// The provider that the settings select: CurseForge with its token, if
    /// the settings hold one.
    pub fn provider(&self) -> (r: Option<Provider>)
        ensures
            match self.token_curse {
                Some(token) => r matches Some(provider) && provider@ == ProviderView::Curse(token@),
                None => r is None,
            },
    {
        match &self.token_curse {
            Some(token) => Some(Provider::Curse(token.clone())),
            None => None,
        }
    }
}

} // verus!
