//! Core logic of the Helldivers 2 Chinese chat helper: text cleaning and
//! batching, the capture/injection session state machine, configuration
//! rules, OCR chat-line parsing and incremental tracking, the official
//! glossary prompt builder and the keyboard policies used by the Windows
//! shell.
use vstd::prelude::*;

pub mod capture;
pub mod chars;
pub mod chat;
pub mod config;
pub mod delivery;
pub mod glossary;
pub mod injector;
pub mod ipc;
pub mod logs;
pub mod monitor;
pub mod outcome;
pub mod ocr;
pub mod ocr_words;
pub mod session;
pub mod target;
pub mod text;
pub mod tracker;
pub mod translation;
pub mod waits;

verus! {

} // verus!
