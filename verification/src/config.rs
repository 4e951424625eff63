//! The integer-valued parts of the editor's configuration: silence handling
//! mode, presets, output resolutions, join mode, watch and processing
//! settings, and the default values that the configuration file falls back to.
use vstd::prelude::*;

use crate::paths::{extension, file_stem, join, path_extension, path_file_stem, path_join};
use crate::text::{
    append_str, ascii_lower, chars_eq_str, chars_of, decimal, lowercase_of, push_decimal,
    lemma_ascii_lower_idempotent, sort_strings, sorted_texts, string_from_chars, text_views,
    to_lowercase,
};

verus! {

/// How to handle detected silences
#[derive(Debug, Clone, Copy, PartialEq, Eq, Structural)]
pub enum SilenceMode {
    /// Cut out silences completely (default)
    Cut,
    /// Speed up silences instead of cutting
    Speedup,
}

impl Default for SilenceMode {
    fn default() -> (r: Self)
        ensures
            r == SilenceMode::Cut,
    {
        SilenceMode::Cut
    }
}

/// Preset profiles for common use cases
#[derive(Debug, Clone, Copy, PartialEq, Eq, Structural)]
pub enum Preset {
    /// YouTube long-form: silence cut + audio enhance + chapters
    Youtube,
    /// YouTube Shorts/TikTok: speedup mode + audio enhance
    Shorts,
    /// TikTok-specific: vertical 9:16, fast cuts, trending style
    Tiktok,
    /// Instagram Reels: vertical 9:16, 90s max, engaging style
    Reels,
    /// Podcast: silence cut + audio enhance + SRT subtitles
    Podcast,
    /// Twitter/X: 2:20 max, landscape 16:9
    Twitter,
    /// Minimal: just silence detection, no enhancement
    Minimal,
}

/// The name of each preset.
pub open spec fn preset_name(p: Preset) -> Seq<char> {
    match p {
        Preset::Youtube => "youtube"@,
        Preset::Shorts => "shorts"@,
        Preset::Tiktok => "tiktok"@,
        Preset::Reels => "reels"@,
        Preset::Podcast => "podcast"@,
        Preset::Twitter => "twitter"@,
        Preset::Minimal => "minimal"@,
    }
}

/// The preset named by an already lower-cased name, aliases included.
pub open spec fn preset_from_lower(l: Seq<char>) -> Option<Preset> {
    if l == "youtube"@ {
        Some(Preset::Youtube)
    } else if l == "shorts"@ || l == "ytshorts"@ {
        Some(Preset::Shorts)
    } else if l == "tiktok"@ {
        Some(Preset::Tiktok)
    } else if l == "reels"@ || l == "instagram"@ {
        Some(Preset::Reels)
    } else if l == "podcast"@ {
        Some(Preset::Podcast)
    } else if l == "twitter"@ || l == "x"@ {
        Some(Preset::Twitter)
    } else if l == "minimal"@ {
        Some(Preset::Minimal)
    } else {
        None
    }
}

impl Preset {
    /// Get preset name as string
    pub fn as_str(&self) -> (r: &'static str)
        ensures
            r@ == preset_name(*self),
    {
        match self {
            Preset::Youtube => "youtube",
            Preset::Shorts => "shorts",
            Preset::Tiktok => "tiktok",
            Preset::Reels => "reels",
            Preset::Podcast => "podcast",
            Preset::Twitter => "twitter",
            Preset::Minimal => "minimal",
        }
    }

    /// Parse preset from string (case-insensitive, aliases included).
    pub fn parse_name(s: &str) -> (r: Option<Self>)
        ensures
            r == preset_from_lower(lowercase_of(s@)),
            vstd::utf8::is_ascii_chars(s@) ==> r == preset_from_lower(ascii_lower(s@)),
    {
        let lower = to_lowercase(s);
        Self::parse_lowercase_name(lower.as_str())
    }

    /// Parse an already lower-cased preset name (aliases included).
    pub fn parse_lowercase_name(s: &str) -> (r: Option<Self>)
        ensures
            r == preset_from_lower(s@),
    {
        let v = chars_of(s);
        if chars_eq_str(&v, "youtube") {
            Some(Preset::Youtube)
        } else if chars_eq_str(&v, "shorts") || chars_eq_str(&v, "ytshorts") {
            Some(Preset::Shorts)
        } else if chars_eq_str(&v, "tiktok") {
            Some(Preset::Tiktok)
        } else if chars_eq_str(&v, "reels") || chars_eq_str(&v, "instagram") {
            Some(Preset::Reels)
        } else if chars_eq_str(&v, "podcast") {
            Some(Preset::Podcast)
        } else if chars_eq_str(&v, "twitter") || chars_eq_str(&v, "x") {
            Some(Preset::Twitter)
        } else if chars_eq_str(&v, "minimal") {
            Some(Preset::Minimal)
        } else {
            None
        }
    }
}

/// Every preset's name is lower-case ASCII and parses back to the same
/// preset, so `Preset::parse_name(p.as_str()) == Some(p)`.
pub proof fn lemma_preset_name_roundtrip(p: Preset)
    ensures
        vstd::utf8::is_ascii_chars(preset_name(p)),
        ascii_lower(preset_name(p)) == preset_name(p),
        preset_from_lower(preset_name(p)) == Some(p),
{
    reveal_strlit("youtube");
    reveal_strlit("shorts");
    reveal_strlit("ytshorts");
    reveal_strlit("tiktok");
    reveal_strlit("reels");
    reveal_strlit("instagram");
    reveal_strlit("podcast");
    reveal_strlit("twitter");
    reveal_strlit("x");
    reveal_strlit("minimal");
    assert(ascii_lower(preset_name(p)) =~= preset_name(p));
    match p {
        Preset::Youtube => {},
        Preset::Shorts => {
            assert("shorts"@.len() != "youtube"@.len());
        },
        Preset::Tiktok => {
            assert("tiktok"@.len() != "youtube"@.len());
            assert("tiktok"@[0] != "shorts"@[0]);
            assert("tiktok"@.len() != "ytshorts"@.len());
        },
        Preset::Reels => {
            assert("reels"@.len() != "youtube"@.len());
            assert("reels"@.len() != "shorts"@.len());
            assert("reels"@.len() != "ytshorts"@.len());
            assert("reels"@.len() != "tiktok"@.len());
        },
        Preset::Podcast => {
            assert("podcast"@[0] != "youtube"@[0]);
            assert("podcast"@.len() != "shorts"@.len());
            assert("podcast"@.len() != "ytshorts"@.len());
            assert("podcast"@.len() != "tiktok"@.len());
            assert("podcast"@.len() != "reels"@.len());
            assert("podcast"@.len() != "instagram"@.len());
        },
        Preset::Twitter => {
            assert("twitter"@[0] != "youtube"@[0]);
            assert("twitter"@.len() != "shorts"@.len());
            assert("twitter"@.len() != "ytshorts"@.len());
            assert("twitter"@.len() != "tiktok"@.len());
            assert("twitter"@.len() != "reels"@.len());
            assert("twitter"@.len() != "instagram"@.len());
            assert("twitter"@[0] != "podcast"@[0]);
        },
        Preset::Minimal => {
            assert("minimal"@[0] != "youtube"@[0]);
            assert("minimal"@.len() != "shorts"@.len());
            assert("minimal"@.len() != "ytshorts"@.len());
            assert("minimal"@.len() != "tiktok"@.len());
            assert("minimal"@.len() != "reels"@.len());
            assert("minimal"@.len() != "instagram"@.len());
            assert("minimal"@[0] != "podcast"@[0]);
            assert("minimal"@[0] != "twitter"@[0]);
            assert("minimal"@.len() != "x"@.len());
        },
    }
}

/// For ASCII text, parsing a preset name is case-insensitive: the text and
/// its lower-cased form (which is ASCII too) parse to the same preset.
pub proof fn lemma_preset_parse_case_insensitive(s: Seq<char>)
    requires
        vstd::utf8::is_ascii_chars(s),
    ensures
        vstd::utf8::is_ascii_chars(ascii_lower(s)),
        preset_from_lower(ascii_lower(ascii_lower(s))) == preset_from_lower(ascii_lower(s)),
{
    lemma_ascii_lower_idempotent(s);
}

/// Target video resolution for output
#[derive(Debug, Clone, Copy, PartialEq, Eq, Structural)]
pub enum VideoResolution {
    /// 720p HD (1280x720)
    Hd720p,
    /// 1080p Full HD (1920x1080)
    Fhd1080p,
    /// 1440p QHD (2560x1440)
    Qhd1440p,
    /// 4K UHD (3840x2160)
    Uhd4k,
    /// Vertical 1080p (1080x1920) for Shorts/Reels/TikTok
    Vertical1080p,
    /// Vertical 720p (720x1280)
    Vertical720p,
}

impl Default for VideoResolution {
    fn default() -> (r: Self)
        ensures
            r == VideoResolution::Fhd1080p,
    {
        VideoResolution::Fhd1080p
    }
}

/// Width and height in pixels of each resolution.
pub open spec fn resolution_dims(r: VideoResolution) -> (u32, u32) {
    match r {
        VideoResolution::Hd720p => (1280, 720),
        VideoResolution::Fhd1080p => (1920, 1080),
        VideoResolution::Qhd1440p => (2560, 1440),
        VideoResolution::Uhd4k => (3840, 2160),
        VideoResolution::Vertical1080p => (1080, 1920),
        VideoResolution::Vertical720p => (720, 1280),
    }
}

/// The label shown for each resolution in menus.
pub open spec fn resolution_display_name(r: VideoResolution) -> Seq<char> {
    match r {
        VideoResolution::Hd720p => "720p HD"@,
        VideoResolution::Fhd1080p => "1080p Full HD"@,
        VideoResolution::Qhd1440p => "1440p QHD"@,
        VideoResolution::Uhd4k => "4K UHD"@,
        VideoResolution::Vertical1080p => "1080p Vertical"@,
        VideoResolution::Vertical720p => "720p Vertical"@,
    }
}

impl VideoResolution {
    /// Get resolution as (width, height)
    pub fn dimensions(&self) -> (r: (u32, u32))
        ensures
            r == resolution_dims(*self),
    {
        match self {
            VideoResolution::Hd720p => (1280, 720),
            VideoResolution::Fhd1080p => (1920, 1080),
            VideoResolution::Qhd1440p => (2560, 1440),
            VideoResolution::Uhd4k => (3840, 2160),
            VideoResolution::Vertical1080p => (1080, 1920),
            VideoResolution::Vertical720p => (720, 1280),
        }
    }

    /// Get as ffmpeg scale string, `"<width>:<height>"`.
    pub fn to_ffmpeg_scale(&self) -> (r: String)
        ensures
            r@ == decimal(resolution_dims(*self).0 as nat) + seq![':'] + decimal(
                resolution_dims(*self).1 as nat,
            ),
    {
        let (w, h) = self.dimensions();
        let mut v: Vec<char> = Vec::new();
        push_decimal(&mut v, w as u64);
        v.push(':');
        push_decimal(&mut v, h as u64);
        string_from_chars(&v)
    }

    /// Human-readable label for UI dropdowns.
    pub fn display_name(&self) -> (r: &'static str)
        ensures
            r@ == resolution_display_name(*self),
    {
        match self {
            VideoResolution::Hd720p => "720p HD",
            VideoResolution::Fhd1080p => "1080p Full HD",
            VideoResolution::Qhd1440p => "1440p QHD",
            VideoResolution::Uhd4k => "4K UHD",
            VideoResolution::Vertical1080p => "1080p Vertical",
            VideoResolution::Vertical720p => "720p Vertical",
        }
    }
}

/// The two vertical resolutions are the only ones taller than they are wide.
pub proof fn lemma_vertical_iff_taller(r: VideoResolution)
    ensures
        (resolution_dims(r).0 < resolution_dims(r).1) <==> (r == VideoResolution::Vertical1080p
            || r == VideoResolution::Vertical720p),
{
}

/// Join mode for combining processed videos
#[derive(Debug, Clone, Copy, PartialEq, Eq, Structural)]
pub enum JoinMode {
    /// Don't join videos
    Off,
    /// Join videos by date (newest first)
    ByDate,
    /// Join videos alphabetically by name
    ByName,
    /// Join after N videos processed
    AfterCount,
}

impl Default for JoinMode {
    fn default() -> (r: Self)
        ensures
            r == JoinMode::Off,
    {
        JoinMode::Off
    }
}

/// Configuration for processing options
#[derive(Debug, Clone)]
pub struct ProcessingConfig {
    /// How to join processed videos
    pub join_mode: JoinMode,
    /// Number of videos after which to join (when join_mode = AfterCount)
    pub join_after_count: u32,
    /// Output filename pattern for joined videos.
    /// Supports: {date}, {time}, {count}
    pub join_output_pattern: String,
}

impl Default for ProcessingConfig {
    fn default() -> (r: Self)
        ensures
            r.join_mode == JoinMode::Off,
            r.join_after_count == 5,
            r.join_output_pattern@ == "joined_{date}.mp4"@,
    {
        ProcessingConfig {
            join_mode: JoinMode::Off,
            join_after_count: default_join_after_count(),
            join_output_pattern: default_join_pattern(),
        }
    }
}

/// Configuration for watch mode
#[derive(Debug, Clone)]
pub struct WatchConfig {
    /// Enable watch mode
    pub enabled: bool,
    /// Polling interval in seconds
    pub interval: u64,
}

impl Default for WatchConfig {
    fn default() -> (r: Self)
        ensures
            !r.enabled,
            r.interval == 5,
    {
        WatchConfig { enabled: false, interval: default_watch_interval() }
    }
}

/// Default watermark position.
pub fn default_watermark_position() -> (r: String)
    ensures
        r@ == "bottom-right"@,
{
    "bottom-right".to_owned()
}

/// Default for switches that are on unless configured otherwise.
pub fn default_true() -> (r: bool)
    ensures
        r,
{
    true
}

/// Default filler words to remove.
pub fn default_filler_words() -> (r: Vec<String>)
    ensures
        r@.len() == 4,
        r@[0]@ == "um"@,
        r@[1]@ == "uh"@,
        r@[2]@ == "ah"@,
        r@[3]@ == "er"@,
{
    vec!["um".to_owned(), "uh".to_owned(), "ah".to_owned(), "er".to_owned()]
}

/// Default thumbnail width in pixels.
pub fn default_thumbnail_width() -> (r: u32)
    ensures
        r == 1280,
{
    1280
}

/// Default thumbnail height in pixels.
pub fn default_thumbnail_height() -> (r: u32)
    ensures
        r == 720,
{
    720
}

/// Default number of highlight clips.
pub fn default_clip_count() -> (r: u32)
    ensures
        r == 3,
{
    3
}

/// Default preset name of a watch folder.
pub fn default_preset() -> (r: String)
    ensures
        r@ == "youtube"@,
{
    "youtube".to_owned()
}

/// Default watch polling interval in seconds.
pub fn default_watch_interval() -> (r: u64)
    ensures
        r == 5,
{
    5
}

/// Default number of videos after which to join.
pub fn default_join_after_count() -> (r: u32)
    ensures
        r == 5,
{
    5
}

/// Default output filename pattern for joined videos.
pub fn default_join_pattern() -> (r: String)
    ensures
        r@ == "joined_{date}.mp4"@,
{
    "joined_{date}.mp4".to_owned()
}

/// The folder that holds preset files.
pub open spec fn presets_dir() -> Seq<char> {
    "presets"@
}

/// The file of the preset named `name`: `<name>.toml` in the presets
/// folder.
pub open spec fn preset_file(name: Seq<char>) -> Seq<char> {
    path_join(presets_dir(), name + ".toml"@)
}

/// Where the preset named `name` is read from (see [`preset_file`]).
pub fn preset_file_path(name: &str) -> (r: String)
    ensures
        r@ == preset_file(name@),
{
    let mut v: Vec<char> = chars_of(name);
    append_str(&mut v, ".toml");
    let f = string_from_chars(&v);
    join("presets", f.as_str())
}

/// The preset a file in the presets folder provides: the stem of a
/// `.toml` file; none for other files.
pub open spec fn preset_of_file(path: Seq<char>) -> Option<Seq<char>> {
    if path_extension(path) == Some("toml"@) {
        path_file_stem(path)
    } else {
        None
    }
}

/// The preset name of a file in the presets folder (see
/// [`preset_of_file`]).
pub fn preset_name_of_file(path: &str) -> (r: Option<String>)
    ensures
        match r {
            Some(n) => preset_of_file(path@) == Some(n@),
            None => preset_of_file(path@) is None,
        },
{
    match extension(path) {
        Some(e) => {
            let ec = chars_of(e.as_str());
            if chars_eq_str(&ec, "toml") {
                file_stem(path)
            } else {
                None
            }
        },
        None => None,
    }
}

/// The presets offered when no preset file is found.
pub open spec fn builtin_preset_names() -> Seq<Seq<char>> {
    seq!["youtube"@, "shorts"@, "podcast"@, "minimal"@]
}

/// The names of the available presets, from the names of the preset files
/// found (none where the presets folder does not exist): those names in
/// order, or the built-in presets where there are none.
pub fn available_preset_names(found: Option<Vec<String>>) -> (r: Vec<String>)
    ensures
        match found {
            Some(v) if v@.len() > 0 => {
                &&& sorted_texts(text_views(r@))
                &&& text_views(r@).to_multiset() == text_views(v@).to_multiset()
            },
            _ => text_views(r@) == builtin_preset_names(),
        },
{
    match found {
        Some(v) => {
            if v.len() > 0 {
                return sort_strings(v);
            }
        },
        None => {},
    }
    let r = vec![
        "youtube".to_string(),
        "shorts".to_string(),
        "podcast".to_string(),
        "minimal".to_string(),
    ];
    assert(text_views(r@) =~= builtin_preset_names());
    r
}

} // verus!
