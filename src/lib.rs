use vstd::prelude::*;

pub mod config;
pub mod engine;
pub mod ring;
pub mod state;
pub mod status;

verus! {

/// Size in bytes of one chunk of the ring.
pub const BUFSIZE: usize = 1024;

} // verus!

pub use config::{validate_config, Config, ConfigError};
pub use engine::{Recorder, Step};
pub use ring::{ChunkRing, RingError};
pub use state::{action_matches, match_char, state_is, Action, State, StateMut};
pub use status::{fill_parts, size_parts, time_parts, Elapsed, Fill, Size, SEGLEN};
