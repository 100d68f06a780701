//! Verified core of a push-to-talk dictation tool: hotkey handling, text
//! post-processing, prompt construction and delivery decisions.

pub mod text;
pub mod events;
pub mod config;
pub mod pinyin_hint;
pub mod asr;
pub mod hotkey;
pub mod delivery;
pub mod deepseek;
pub mod pipeline;
pub mod bootstrap;
pub mod control;
pub mod prompt_split;
