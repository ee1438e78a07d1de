//! Sorakey: the decision logic of a mechanical-keyboard sound daemon —
//! key naming, soundpack validation, control-request checks, health state,
//! the in-memory log buffer and the watchdog/event parsers.

pub mod keys;
pub mod text;
pub mod numbers;
pub mod paths;
pub mod strings;
pub mod folders;
pub mod status;
pub mod logs;
pub mod speakers;
pub mod json;
pub mod pack_checker;
pub mod orphan;
pub mod keyboard;
pub mod converter;
pub mod backups;
pub mod control;
pub mod pack_info;
pub mod concat;
pub mod decode;
pub mod pack_audio;
pub mod settings;

