//! NASMirror's engine: the rules that decide how folders are mirrored to a
//! NAS or a drive with robocopy or restic, stated and proved with Verus.

pub mod text;
pub mod engine;
pub mod history;
pub mod profiles;
pub mod commands;
pub mod headless;
