//! Verified core of a quiz generator that asks a local language model for
//! multiple-choice practice questions and keeps the resulting sets.
pub mod json;
pub mod ollama;
pub mod platform;
pub mod prompt;
pub mod question;
pub mod store;
pub mod text;

pub use ollama::{default_model, model_matches};
pub use platform::{kill_ollama, now_ms, persist_models_env};
pub use prompt::{build_prompt, difficulty_clause};
pub use question::{extract_json_array, strip_label_prefix};
pub use text::sanitize_name;
