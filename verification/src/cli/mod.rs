//! Command-line harness: arguments, session context, command outcomes.
pub mod args;
pub mod commands;
pub mod observation;
pub mod outcomes;
pub mod prose_cache;
pub mod repl;
pub mod session;

pub use args::{CharacterCmd, Commands, SceneCmd, ShowCmd, UseCmd};
pub use commands::{split_csv, story_error_summary};
pub use observation::Status;
pub use prose_cache::ProseCache;
pub use repl::{split_repl_line, status_to_exit};
pub use session::{CliError, Session};
