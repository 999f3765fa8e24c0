//! A fixed-capacity history buffer: a write-only circular container that
//! keeps the most recent values written to it, discarding the oldest value
//! once capacity is reached.

mod clock;
mod history;
mod laws;
mod model;

pub use history::Chronological;
pub use history::HistoryBuffer;
pub use laws::lemma_displaced_in_order;
pub use laws::lemma_double_ended_agree;
pub use laws::lemma_history_length;
pub use laws::lemma_history_over_capacity;
pub use laws::lemma_history_within_capacity;
pub use laws::lemma_most_recent_is_last_write;
pub use laws::lemma_write_after_clear;
pub use model::model_history;
pub use model::model_write;
