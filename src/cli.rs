//! The command line, as the library sees it.
use vstd::prelude::*;

verus! {

/// The parsed command line.
#[derive(Debug)]
pub struct Cli {
    /// Path to the configuration file.
    pub config: String,
    /// Log level override.
    pub log_level: Option<String>,
    pub command: Option<Command>,
}

/// The subcommands.
#[derive(Debug)]
#[allow(inconsistent_fields)]
pub enum Command {
    /// Write an example configuration to the user's config directory.
    Init { force: bool },
    /// Print the loaded configuration.
    ShowConfig,
    /// Run a palette through a frontend (both default from the configuration).
    Run { frontend: Option<String>, palette: Option<String> },
    /// Print a palette's items.
    List { palette: Option<String> },
    /// Run an action on the value read from standard input.
    Action { name: String },
    /// List installed remote plugins.
    Plugins,
    /// Update all remote plugins.
    Update,
    /// Regenerate a palette's cache for a frontend kind.
    CacheRegen { palette: String, frontend: String },
    /// List and format items for a live query.
    InputList { palette: String, frontend: String },
    /// Rofi script-mode handler of a query-driven palette.
    RofiInput { palette: String, selected: Option<String> },
    /// Ask prompts through the active frontend and print the answers.
    Prompt { spec: Option<String> },
}

impl Cli {
    /// The command line with nothing given.
    pub fn default() -> (r: Cli)
        ensures
            r.config@ == "pal.default.toml"@,
            r.log_level is None,
            r.command is None,
    {
        Cli { config: String::from_str("pal.default.toml"), log_level: None, command: None }
    }
}

impl Command {
    /// Whether the command works on a loaded configuration.
    pub fn needs_config(&self) -> (r: bool)
        ensures
            r == !(self is Init || self is Plugins || self is Update),
    {
        match self {
            Command::Init { .. } | Command::Plugins | Command::Update => false,
            _ => true,
        }
    }
}

} // verus!
