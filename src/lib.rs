//! Audio acquisition and conditioning for a speech front end: raw capture
//! buffers, sample decoding, channel downmixing and resampling plans, plus
//! the small text and request helpers around the recognizer.

pub mod codec;
pub mod capture;
pub mod normalize;
pub mod resample;
pub mod pipeline;
pub mod text;
pub mod assistant;
pub mod ledger;
pub mod overlay;
pub mod hotkey;
