//! Core of a terminal-session recorder and player: the event model, the
//! stream transforms, and the decision logic of recording, playback and
//! concatenation. Every clock reading, key press and fetched event is handed
//! in as a plain value, and every write is handed out as one.

pub mod clock;
pub mod cmd;
pub mod event;
pub mod format;
pub mod player;
pub mod recorder;
pub mod transform;
pub mod tty;
