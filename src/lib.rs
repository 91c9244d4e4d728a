//! Metering core of a stereo audio effect: a fixed-capacity two-channel
//! circular sample buffer, and the decisions that drive the meters on every
//! processing block.
pub mod buffers;
pub mod meter;
