//! Reading a replay.
pub mod char_state;
pub mod events;
pub mod frame_events;
pub mod game_events;
pub mod laws;
pub mod layout;
pub mod replay;

pub use self::char_state::{CharState, FrameId};
pub use self::events::{Event, Handlers};
pub use self::frame_events::FrameEvent;
pub use self::replay::{frames_in_range, parse, parse_checked, parse_metadata};
