//! Core of a push-to-talk dictation engine.
//!
//! While a global hotkey is held, audio is captured, streamed through a
//! speech recognizer that emits partial and final transcripts, optionally
//! post-processed through a user vocabulary and a translator, and pasted
//! into the focused application.  This crate holds the verified core of
//! that pipeline: the dictation state machine, the vocabulary engine, the
//! worker drain policy, transcript history, model bookkeeping and the
//! integer skeletons of the audio paths.  Platform audio, inference and
//! clipboard access live outside, behind the thin interfaces defined here.

pub mod asr_models;
pub mod audio;
pub mod config;
pub mod controller;
pub mod history;
pub mod langid;
pub mod mt_models;
pub mod paste;
pub mod state;
pub mod text;
pub mod translate;
pub mod vocabulary;
pub mod worker;
