//! Builds binary game-engine assets for in-game video playback by patching
//! prebuilt plugin and mesh templates in place: fixed-width identifier tokens
//! are overwritten with padded names, and reserved sentinel floating values
//! are replaced bit-exactly with computed timing data.
pub mod codec;
pub mod patch;
pub mod sentinel;
pub mod timing;
pub mod pipeline;
pub mod assemble;
pub mod batch;
