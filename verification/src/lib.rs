//! Speech-activity buffering and segmentation for a microphone-driven
//! speech-recognition pipeline.
//!
//! The crate decides which spans of captured audio form an utterance that is
//! worth sending to a recognizer: it converts captured samples, cuts batches
//! into classifier frames, queues samples between the capture callback and the
//! segmentation loop, accumulates voiced audio, ends an utterance after a
//! silence timeout, lengthens or drops utterances that are too short, and
//! cleans the recognized text before it is dispatched.
pub mod config;
pub mod episode;
pub mod frames;
pub mod ring;
pub mod samples;
pub mod segmenter;
pub mod stretch;
pub mod text;
