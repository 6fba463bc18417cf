//! Verified core of a live audio-to-transcript pipeline.
//!
//! A capture callback appends microphone samples to a [`buffer::SampleBuffer`];
//! a worker wakes on a fixed cadence, drains the buffer, downmixes the batch to
//! one channel, hands it to a speech recogniser and appends the filtered text
//! of the returned segments to a transcript. This crate holds the buffering
//! policy, the framing of the downmix, the text filter and the worker's
//! decisions; devices, threads, the recogniser and files live with the caller.
//!
//! Samples are floating-point values at run time. Nothing here does arithmetic
//! on a sample, so the sample type is a parameter throughout.
//!
//! [`convert`] and [`commands`] serve the file tools that stand beside the
//! pipeline: a converter from M4A to WAV, audio extraction with an external
//! transcoder, and an external diarization script.

pub mod buffer;
pub mod capture;
pub mod commands;
pub mod convert;
pub mod downmix;
pub mod engine;
pub mod noise;
pub mod text;
pub mod transcript;
pub mod worker;
