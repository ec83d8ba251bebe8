//! Turns text into a short melody and plans its rendering as PCM audio.
//!
//! The pipeline: analyze a text's character classes, pick the melody that
//! matches the dominant class, and lay the melody's tone events out as audio
//! frames (per-event frame counts, anti-click envelope factors, and the total
//! output length). Frequencies are held in centihertz and durations in ticks
//! of 1/24 second, so every quantity here is exact integer arithmetic.

pub mod pure_tone;
pub mod text2track;
pub mod text_analyzer;
