//! Engine of an input method.
//!
//! The [`Preprocessor`] follows one composition. It is fed keyboard events,
//! keeps the symbols typed so far in a bounded buffer, and queues the
//! commands that a host replays on its own text: when the buffer completes
//! an entry of the match table, the echoed symbols are deleted and the
//! entry's replacement is committed.
//!
//! The [`Translator`] proposes texts for a composed input: the candidates
//! that its dictionary lists for the input, those of the words near the
//! input where a tolerance is set, and what each registered rule answers.
//!
//! Each engine is a value of its own: two preprocessors, or two
//! translators, share nothing. What an engine does is stated over its view,
//! by the functions `reaction` and `dictionary_records`; the module `laws`
//! proves what follows from them for every input.
pub mod command;
pub mod convert;
pub mod dictionary;
pub mod failure;
pub mod key;
pub mod laws;
pub mod preprocessor;
pub mod rules;
pub mod table;
pub mod text;
pub mod translator;

pub use command::{serialize_command, Command};
pub use convert::convert_toml_to_json;
pub use dictionary::TranslationRecord;
pub use failure::Failure;
pub use key::{deserialize_event, Key, KeyState, KeyboardEvent};
pub use preprocessor::Preprocessor;
pub use translator::Translator;
