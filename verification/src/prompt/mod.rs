//! Interactive prompts: builders whose key handling and frame rendering are
//! state machines, plus the framed log, stream, task-log, progress-bar and
//! spinner lines.
//!
//! A prompt handles one key at a time ([`base::Prompt::handle`]) and
//! renders its state as rows ([`base::Prompt::render`]); the terminal loop
//! that reads keys and draws rows runs outside.

pub mod autocomplete;
pub mod base;
pub mod boxed;
pub mod confirm;
pub mod cursor;
pub mod date;
pub mod engine;
pub mod error;
pub mod group;
pub mod groupmultiselect;
pub mod limit_options;
pub mod log;
pub mod multiline;
pub mod multiselect;
pub mod path;
pub mod progress_bar;
pub mod select;
pub mod select_key;
pub mod settings;
pub mod spinner;
pub mod stream;
pub mod task_log;
pub mod tasks;
pub mod text;
pub mod theme;
pub mod validate;

pub use autocomplete::{autocomplete, AutocompleteSelected};
pub use boxed::{boxed, Align as BoxAlign, BoxOptions};
pub use confirm::confirm;
pub use date::{date, Date, DatePrompt};
pub use error::{is_cancel, PromptError, Result};
pub use groupmultiselect::{groupmultiselect, GroupItem, GroupSelected};
pub use multiline::multiline;
pub use multiselect::{multiselect, MultiSelected};
pub use path::path;
pub use progress_bar::{progress, Progress, Style as ProgressStyle};
pub use select::{select, Selected};
pub use select_key::{select_key, KeySelected};
pub use settings::{Colors, Settings};
pub use task_log::{task_log, TaskLog};
pub use text::{secret, text};
pub use validate::{
    alpha_only, alphanumeric, email, ends_with, exact_chars, forbid_chars, has_digit, has_lower,
    has_special, has_upper, int_between, max_chars, min_chars, one_of, only_chars, required,
    starts_with, word_count, words_between, Validate, Validator,
};
