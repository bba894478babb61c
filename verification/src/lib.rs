//! LyricRail: the verified core of a taskbar lyrics overlay.
pub mod lyrics;
pub mod media;
pub mod taskbar;
pub mod text;
