//! Verified core of an automatic video editor: configuration values and
//! presets, hardware-acceleration selection, file-name rules, progress
//! bookkeeping and the text formats that the editor reads and writes.
use vstd::prelude::*;

pub mod activity;
pub mod analyzer;
pub mod batch;
pub mod captions;
pub mod concat;
pub mod config;
pub mod display;
pub mod editor;
pub mod exporter;
pub mod folders;
pub mod hwaccel;
pub mod paths;
pub mod pipeline;
pub mod preset_rules;
pub mod preview;
pub mod progress;
pub mod text;
pub mod timecodes;
pub mod trim;
pub mod ui;
pub mod watch;

verus! {

} // verus!
