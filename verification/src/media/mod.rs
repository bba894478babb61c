//! The media session: published state, worker decisions and playback
//! controls.
pub mod controls;
pub mod session;

pub use session::{MediaState, SessionSnapshot};
