pub mod allocation_laws;
pub mod envelope;
pub mod gendy;
pub mod note;
pub mod notes;
pub mod search;
pub mod time_text;
pub mod voices;

pub use gendy::{AMP_DIST, DUR_DIST, MAX_NUM_CPS};
pub use notes::{Notes, MAX_VOICE_COUNT};
