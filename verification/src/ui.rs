//! The state and labels behind the desktop interface: settings categories,
//! notifications, the watch-folder dialog, and how settings are summarised.
use vstd::prelude::*;

use crate::config::{JoinMode, SilenceMode};
use crate::paths::{file_name, path_file_name};
use crate::text::{append_str, chars_eq, chars_of};

verus! {

/// The sections of the settings panel.
#[derive(Debug, Clone, Copy, PartialEq, Eq, Structural)]
pub enum SettingsCategory {
    Processing,
    Audio,
    Video,
    Exports,
    Advanced,
}

impl Default for SettingsCategory {
    fn default() -> (r: Self)
        ensures
            r == SettingsCategory::Processing,
    {
        SettingsCategory::Processing
    }
}

/// The title of each settings section.
pub open spec fn category_label(c: SettingsCategory) -> Seq<char> {
    match c {
        SettingsCategory::Processing => "Processing"@,
        SettingsCategory::Audio => "Audio"@,
        SettingsCategory::Video => "Video"@,
        SettingsCategory::Exports => "Exports"@,
        SettingsCategory::Advanced => "Advanced"@,
    }
}

/// The icon of each settings section.
pub open spec fn category_icon(c: SettingsCategory) -> Seq<char> {
    match c {
        SettingsCategory::Processing => "\u{1f3ac}"@,
        SettingsCategory::Audio => "\u{1f3b5}"@,
        SettingsCategory::Video => "\u{1f4f9}"@,
        SettingsCategory::Exports => "\u{1f4e4}"@,
        SettingsCategory::Advanced => "\u{2699}"@,
    }
}

impl SettingsCategory {
    /// The section's title.
    pub fn label(&self) -> (r: &'static str)
        ensures
            r@ == category_label(*self),
    {
        match self {
            SettingsCategory::Processing => "Processing",
            SettingsCategory::Audio => "Audio",
            SettingsCategory::Video => "Video",
            SettingsCategory::Exports => "Exports",
            SettingsCategory::Advanced => "Advanced",
        }
    }

    /// The section's icon.
    pub fn icon(&self) -> (r: &'static str)
        ensures
            r@ == category_icon(*self),
    {
        match self {
            SettingsCategory::Processing => "\u{1f3ac}",
            SettingsCategory::Audio => "\u{1f3b5}",
            SettingsCategory::Video => "\u{1f4f9}",
            SettingsCategory::Exports => "\u{1f4e4}",
            SettingsCategory::Advanced => "\u{2699}",
        }
    }
}

/// The position of each settings section in the sidebar.
pub open spec fn category_index(c: SettingsCategory) -> int {
    match c {
        SettingsCategory::Processing => 0,
        SettingsCategory::Audio => 1,
        SettingsCategory::Video => 2,
        SettingsCategory::Exports => 3,
        SettingsCategory::Advanced => 4,
    }
}

/// The settings section at sidebar position `i` (`0 <= i < 5`).
pub open spec fn category_at(i: int) -> SettingsCategory {
    if i == 0 {
        SettingsCategory::Processing
    } else if i == 1 {
        SettingsCategory::Audio
    } else if i == 2 {
        SettingsCategory::Video
    } else if i == 3 {
        SettingsCategory::Exports
    } else {
        SettingsCategory::Advanced
    }
}

impl SettingsCategory {
    /// The section `delta` places further down the sidebar, wrapping around
    /// at either end.
    pub fn navigate(&self, delta: i8) -> (r: SettingsCategory)
        requires
            category_index(*self) + delta <= i8::MAX,
        ensures
            r == category_at((category_index(*self) + delta) % 5),
    {
        let idx: i8 = match self {
            SettingsCategory::Processing => 0,
            SettingsCategory::Audio => 1,
            SettingsCategory::Video => 2,
            SettingsCategory::Exports => 3,
            SettingsCategory::Advanced => 4,
        };
        let sum: i8 = idx + delta;
        let m: i8 = if sum % 5 < 0 {
            sum % 5 + 5
        } else {
            sum % 5
        };
        assert(m == (category_index(*self) + delta) % 5);
        if m == 0 {
            SettingsCategory::Processing
        } else if m == 1 {
            SettingsCategory::Audio
        } else if m == 2 {
            SettingsCategory::Video
        } else if m == 3 {
            SettingsCategory::Exports
        } else {
            SettingsCategory::Advanced
        }
    }
}

/// Moving through the sidebar comes back to the same section after five
/// steps, and a step down undone by a step up.
pub proof fn lemma_navigate_cycles(c: SettingsCategory)
    ensures
        category_at((category_index(c) + 5) % 5) == c,
        category_at((category_index(category_at((category_index(c) + 1) % 5)) - 1) % 5) == c,
{
}

/// The kinds of notification.
#[derive(Debug, Clone, Copy, PartialEq, Eq, Structural)]
pub enum ToastKind {
    Success,
    Error,
    Warning,
    Info,
}

/// The icon of each kind of notification.
pub open spec fn toast_icon(k: ToastKind) -> Seq<char> {
    match k {
        ToastKind::Success => "\u{2713}"@,
        ToastKind::Error => "\u{2717}"@,
        ToastKind::Warning => "\u{26a0}"@,
        ToastKind::Info => "\u{2139}"@,
    }
}

/// How many seconds a notification stays on screen.
pub open spec fn toast_lifetime() -> nat {
    5
}

/// How many notifications are kept at most.
pub const MAX_TOASTS: usize = 10;

/// The notifications after adding `t`: `t` last, the oldest dropped where
/// there would be more than [`MAX_TOASTS`].
pub open spec fn toasts_after(s: Seq<Toast>, t: Toast) -> Seq<Toast> {
    if s.len() + 1 > MAX_TOASTS {
        s.push(t).drop_first()
    } else {
        s.push(t)
    }
}

/// Add a notification, dropping the oldest where there would be more than
/// [`MAX_TOASTS`].
pub fn add_toast(toasts: &mut Vec<Toast>, t: Toast)
    ensures
        final(toasts)@ == toasts_after(old(toasts)@, t),
        old(toasts)@.len() <= MAX_TOASTS ==> final(toasts)@.len() <= MAX_TOASTS,
{
    toasts.push(t);
    if toasts.len() > MAX_TOASTS {
        let _ = toasts.remove(0);
        assert(toasts@ =~= old(toasts)@.push(t).drop_first());
    }
}

/// How many recent outputs are kept at most.
pub const MAX_RECENT_OUTPUTS: usize = 10;

/// The recent outputs after `p` was written: `p` first, the oldest dropped
/// where there would be more than [`MAX_RECENT_OUTPUTS`].
pub open spec fn recent_after(s: Seq<Seq<char>>, p: Seq<char>) -> Seq<Seq<char>> {
    let t = seq![p] + s;
    if t.len() > MAX_RECENT_OUTPUTS {
        t.drop_last()
    } else {
        t
    }
}

/// The views of a list of paths.
pub open spec fn string_views(v: Seq<String>) -> Seq<Seq<char>> {
    v.map_values(|s: String| s@)
}

/// Put a newly written output at the front of the recent outputs.
pub fn remember_output(recent: &mut Vec<String>, path: String)
    ensures
        string_views(final(recent)@) == recent_after(string_views(old(recent)@), path@),
{
    let ghost p = path@;
    recent.insert(0, path);
    assert(string_views(recent@) =~= seq![p] + string_views(old(recent)@));
    if recent.len() > MAX_RECENT_OUTPUTS {
        let ghost before = recent@;
        let _ = recent.pop();
        assert(string_views(recent@) =~= string_views(before).drop_last());
    }
}

/// At most this many activity entries are kept.
pub const MAX_ACTIVITY_LOG: usize = 500;

/// Keep only the newest `max` entries of a log.
pub fn keep_newest<T>(log: &mut Vec<T>, max: usize)
    ensures
        old(log)@.len() <= max ==> final(log)@ == old(log)@,
        old(log)@.len() > max ==> final(log)@ == old(log)@.skip(old(log)@.len() - max),
{
    if log.len() > max {
        let cut = log.len() - max;
        let kept = log.split_off(cut);
        *log = kept;
    }
}

/// A notification shown for a few seconds.
#[derive(Debug, Clone)]
pub struct Toast {
    /// The text shown
    pub message: String,
    /// Its kind
    pub kind: ToastKind,
    /// When it was created, in whole seconds of a monotonic clock
    pub created_secs: u64,
}

impl Toast {
    /// A notification created at `now_secs`.
    pub fn new(message: String, kind: ToastKind, now_secs: u64) -> (r: Self)
        ensures
            r.message == message,
            r.kind == kind,
            r.created_secs == now_secs,
    {
        Toast { message, kind, created_secs: now_secs }
    }

    /// Whether the notification has been shown for more than 5 seconds at
    /// `now_secs` (no time has passed when the clock reads earlier).
    pub fn expired(&self, now_secs: u64) -> (r: bool)
        ensures
            r == (now_secs > self.created_secs && now_secs - self.created_secs > toast_lifetime()),
    {
        now_secs.saturating_sub(self.created_secs) > 5
    }

    /// The icon shown with the notification.
    pub fn icon(&self) -> (r: &'static str)
        ensures
            r@ == toast_icon(self.kind),
    {
        match self.kind {
            ToastKind::Success => "\u{2713}",
            ToastKind::Error => "\u{2717}",
            ToastKind::Warning => "\u{26a0}",
            ToastKind::Info => "\u{2139}",
        }
    }
}

/// Once expired, a notification stays expired.
pub proof fn lemma_toast_expiry_monotone(created: u64, t1: u64, t2: u64)
    requires
        t1 <= t2,
        t1 > created && t1 - created > toast_lifetime(),
    ensures
        t2 > created && t2 - created > toast_lifetime(),
{
}

/// The add/edit dialog for watch folders, and the pending delete prompt.
#[derive(Debug, Clone)]
pub struct ModalState {
    /// Whether the dialog is open
    pub show: bool,
    /// The folder being edited (none when adding)
    pub editing_idx: Option<usize>,
    /// Input folder
    pub input: String,
    /// Output folder
    pub output: String,
    /// Preset name
    pub preset: String,
    /// Whether the folder is watched
    pub enabled: bool,
    /// The folder awaiting confirmation of its removal
    pub delete_confirm_idx: Option<usize>,
}

impl Default for ModalState {
    fn default() -> (r: Self)
        ensures
            !r.show,
            r.editing_idx is None,
            r.input@.len() == 0,
            r.output@.len() == 0,
            r.preset@.len() == 0,
            !r.enabled,
            r.delete_confirm_idx is None,
    {
        ModalState {
            show: false,
            editing_idx: None,
            input: String::new(),
            output: String::new(),
            preset: String::new(),
            enabled: false,
            delete_confirm_idx: None,
        }
    }
}

impl ModalState {
    /// Open the dialog to add a new folder, with the defaults for YouTube.
    pub fn reset_for_add(&mut self)
        ensures
            final(self).show,
            final(self).editing_idx is None,
            final(self).input@ == "videos/youtube"@,
            final(self).output@ == "videos/youtube/output"@,
            final(self).preset@ == "youtube"@,
            final(self).enabled,
            final(self).delete_confirm_idx == old(self).delete_confirm_idx,
    {
        self.show = true;
        self.editing_idx = None;
        self.input = "videos/youtube".to_owned();
        self.output = "videos/youtube/output".to_owned();
        self.preset = "youtube".to_owned();
        self.enabled = true;
    }

    /// Open the dialog to edit folder `idx`, filled with its settings.
    pub fn set_for_edit(&mut self, idx: usize, input: &str, output: &str, preset: &str, enabled: bool)
        ensures
            final(self).show,
            final(self).editing_idx == Some(idx),
            final(self).input@ == input@,
            final(self).output@ == output@,
            final(self).preset@ == preset@,
            final(self).enabled == enabled,
            final(self).delete_confirm_idx == old(self).delete_confirm_idx,
    {
        self.show = true;
        self.editing_idx = Some(idx);
        self.input = input.to_owned();
        self.output = output.to_owned();
        self.preset = preset.to_owned();
        self.enabled = enabled;
    }

    /// Ask for confirmation before removing folder `idx`.
    pub fn prompt_delete(&mut self, idx: usize)
        ensures
            final(self).delete_confirm_idx == Some(idx),
            final(self).show == old(self).show,
            final(self).editing_idx == old(self).editing_idx,
            final(self).input == old(self).input,
            final(self).output == old(self).output,
            final(self).preset == old(self).preset,
            final(self).enabled == old(self).enabled,
    {
        self.delete_confirm_idx = Some(idx);
    }

    /// Close the dialog and drop any pending delete prompt.
    pub fn close(&mut self)
        ensures
            !final(self).show,
            final(self).editing_idx is None,
            final(self).delete_confirm_idx is None,
            final(self).input == old(self).input,
            final(self).output == old(self).output,
            final(self).preset == old(self).preset,
            final(self).enabled == old(self).enabled,
    {
        self.show = false;
        self.editing_idx = None;
        self.delete_confirm_idx = None;
    }
}

/// The label of each join mode.
pub open spec fn join_mode_text(m: JoinMode) -> Seq<char> {
    match m {
        JoinMode::Off => "Off"@,
        JoinMode::ByDate => "By Date"@,
        JoinMode::ByName => "By Name"@,
        JoinMode::AfterCount => "After N Files"@,
    }
}

/// The label shown for a join mode.
pub fn join_mode_display(mode: &JoinMode) -> (r: String)
    ensures
        r@ == join_mode_text(*mode),
{
    match mode {
        JoinMode::Off => "Off".to_owned(),
        JoinMode::ByDate => "By Date".to_owned(),
        JoinMode::ByName => "By Name".to_owned(),
        JoinMode::AfterCount => "After N Files".to_owned(),
    }
}

/// The label of each way of handling silences.
pub open spec fn silence_mode_text(m: SilenceMode) -> Seq<char> {
    match m {
        SilenceMode::Cut => "Cut"@,
        SilenceMode::Speedup => "Speed Up"@,
    }
}

/// The label shown for a way of handling silences.
pub fn silence_mode_name(mode: SilenceMode) -> (r: &'static str)
    ensures
        r@ == silence_mode_text(mode),
{
    match mode {
        SilenceMode::Cut => "Cut",
        SilenceMode::Speedup => "Speed Up",
    }
}

/// How an optional switch of a folder is summarised.
pub open spec fn switch_text(v: Option<bool>) -> Seq<char> {
    match v {
        Some(true) => "On"@,
        Some(false) => "Off"@,
        None => "\u{2014}"@,
    }
}

/// `On`, `Off`, or a dash where the folder does not set the switch.
pub fn yes_no(val: Option<bool>) -> (r: &'static str)
    ensures
        r@ == switch_text(val),
{
    match val {
        Some(true) => "On",
        Some(false) => "Off",
        None => "\u{2014}",
    }
}

/// The folder paths the dialog fills in by itself for `preset`.
pub open spec fn is_default_folder(path: Seq<char>, preset: Seq<char>) -> bool {
    ||| path == "videos/"@ + preset
    ||| path == "videos/"@ + preset + "/output"@
    ||| path == "videos"@
    ||| path == "videos/output"@
}

/// Whether `path` is one of the folder paths the dialog fills in by itself
/// for `preset` (so picking another preset may replace it).
pub fn is_default_path(path: &str, preset: &str) -> (r: bool)
    ensures
        r == is_default_folder(path@, preset@),
{
    let p = chars_of(path);
    let mut input: Vec<char> = chars_of("videos/");
    append_str(&mut input, preset);
    let mut output: Vec<char> = chars_of("videos/");
    append_str(&mut output, preset);
    append_str(&mut output, "/output");
    let videos = chars_of("videos");
    let videos_output = chars_of("videos/output");
    chars_eq(&p, &input) || chars_eq(&p, &output) || chars_eq(&p, &videos) || chars_eq(
        &p,
        &videos_output,
    )
}

/// The setup wizard's folder counts as untouched when its last component is
/// the preset's name or `Videos`, or it is one of the dialog's own defaults.
pub open spec fn is_default_setup_folder(path: Seq<char>, preset: Seq<char>) -> bool {
    ||| path_file_name(path) == Some(preset)
    ||| path_file_name(path) == Some("Videos"@)
    ||| is_default_folder(path, preset)
}

/// Whether the setup wizard's folder is still one it chose by itself.
pub fn is_default_setup_path(path: &str, preset: &str) -> (r: bool)
    ensures
        r == is_default_setup_folder(path@, preset@),
{
    match file_name(path) {
        Some(name) => {
            let n = chars_of(name.as_str());
            let p = chars_of(preset);
            let videos = chars_of("Videos");
            if chars_eq(&n, &p) || chars_eq(&n, &videos) {
                return true;
            }
        },
        None => {},
    }
    is_default_path(path, preset)
}

} // verus!
