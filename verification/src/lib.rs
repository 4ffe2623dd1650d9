//! Frame-rate detection for subtitle timing tracks, and rescaling of
//! timestamps from one frame rate to another.
//!
//! Frame rates are whole numbers of thousandths of a frame per second
//! (29.97 fps is `29_970`), and confidences are exact numbers, so every rule
//! of the detector is stated and proved over integers.
//!
//! Text is matched against patterns by the `regex` crate and split by the
//! standard library; the few functions that call them are marked as believed
//! in `pattern` and `text`, and everything else is proved.

pub mod confidence;
pub mod detection_laws;
pub mod digits;
pub mod framerate_detector;
pub mod pattern;
pub mod rescale;
pub mod srt_timings;
pub mod subtitle_parser;
pub mod text;
pub mod timestamp;
