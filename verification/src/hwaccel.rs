//! Hardware acceleration backends for video encoding.
use vstd::prelude::*;

use crate::text::{
    ascii_lower, chars_eq_str, chars_of, contains_str, lowercase_of, occurs_in, to_lowercase,
};

verus! {

/// Hardware acceleration backend for video encoding.
#[derive(Debug, Clone, Copy, PartialEq, Eq, Structural)]
pub enum HwAccel {
    /// Software encoding (CPU, default)
    Software,
    /// NVIDIA NVENC
    Nvenc,
    /// AMD AMF
    Amf,
    /// Intel/AMD VAAPI (Linux)
    Vaapi,
    /// Apple VideoToolbox (macOS)
    VideoToolbox,
}

impl Default for HwAccel {
    fn default() -> (r: Self)
        ensures
            r == HwAccel::Software,
    {
        HwAccel::Software
    }
}

/// The configuration name of each backend.
pub open spec fn hw_name(a: HwAccel) -> Seq<char> {
    match a {
        HwAccel::Software => "none"@,
        HwAccel::Nvenc => "nvenc"@,
        HwAccel::Amf => "amf"@,
        HwAccel::Vaapi => "vaapi"@,
        HwAccel::VideoToolbox => "videotoolbox"@,
    }
}

/// The label shown for each backend in menus.
pub open spec fn hw_display_name(a: HwAccel) -> Seq<char> {
    match a {
        HwAccel::Software => "None (CPU)"@,
        HwAccel::Nvenc => "NVIDIA NVENC"@,
        HwAccel::Amf => "AMD AMF"@,
        HwAccel::Vaapi => "VAAPI (Linux)"@,
        HwAccel::VideoToolbox => "VideoToolbox (macOS)"@,
    }
}

/// The backend named by an already lower-cased name, aliases included.
pub open spec fn hw_from_lower(l: Seq<char>) -> Option<HwAccel> {
    if l == "none"@ {
        Some(HwAccel::Software)
    } else if l == "nvenc"@ || l == "nvidia"@ {
        Some(HwAccel::Nvenc)
    } else if l == "amf"@ || l == "amd"@ {
        Some(HwAccel::Amf)
    } else if l == "vaapi"@ || l == "intel"@ {
        Some(HwAccel::Vaapi)
    } else if l == "videotoolbox"@ || l == "apple"@ || l == "mac"@ {
        Some(HwAccel::VideoToolbox)
    } else {
        None
    }
}

/// The H.264 encoder that ffmpeg uses for each backend.
pub open spec fn hw_video_codec(a: HwAccel) -> Seq<char> {
    match a {
        HwAccel::Software => "libx264"@,
        HwAccel::Nvenc => "h264_nvenc"@,
        HwAccel::Amf => "h264_amf"@,
        HwAccel::Vaapi => "h264_vaapi"@,
        HwAccel::VideoToolbox => "h264_videotoolbox"@,
    }
}

/// The ffmpeg arguments placed before `-i` for each backend.
pub open spec fn hw_input_args(a: HwAccel) -> Seq<Seq<char>> {
    match a {
        HwAccel::Vaapi => seq!["-hwaccel"@, "vaapi"@, "-hwaccel_device"@, "/dev/dri/renderD128"@],
        HwAccel::VideoToolbox => seq!["-hwaccel"@, "videotoolbox"@],
        _ => seq![],
    }
}

/// Which backend to use, given ffmpeg's lower-cased `-hwaccels` listing and
/// its `-encoders` listing: the first of NVENC, AMF, VAAPI and VideoToolbox
/// that the listing mentions and whose encoder is available, else software.
pub open spec fn hw_choice(hwaccels: Seq<char>, encoders: Seq<char>) -> HwAccel {
    if (occurs_in(hwaccels, "cuda"@) || occurs_in(hwaccels, "nvenc"@)) && occurs_in(
        encoders,
        "h264_nvenc"@,
    ) {
        HwAccel::Nvenc
    } else if occurs_in(hwaccels, "amf"@) && occurs_in(encoders, "h264_amf"@) {
        HwAccel::Amf
    } else if occurs_in(hwaccels, "vaapi"@) && occurs_in(encoders, "h264_vaapi"@) {
        HwAccel::Vaapi
    } else if occurs_in(hwaccels, "videotoolbox"@) && occurs_in(encoders, "h264_videotoolbox"@) {
        HwAccel::VideoToolbox
    } else {
        HwAccel::Software
    }
}

impl HwAccel {
    /// String representation for CLI/config.
    pub fn as_str(&self) -> (r: &'static str)
        ensures
            r@ == hw_name(*self),
    {
        match self {
            HwAccel::Software => "none",
            HwAccel::Nvenc => "nvenc",
            HwAccel::Amf => "amf",
            HwAccel::Vaapi => "vaapi",
            HwAccel::VideoToolbox => "videotoolbox",
        }
    }

    /// Human-readable label for UI dropdowns.
    pub fn display_name(&self) -> (r: &'static str)
        ensures
            r@ == hw_display_name(*self),
    {
        match self {
            HwAccel::Software => "None (CPU)",
            HwAccel::Nvenc => "NVIDIA NVENC",
            HwAccel::Amf => "AMD AMF",
            HwAccel::Vaapi => "VAAPI (Linux)",
            HwAccel::VideoToolbox => "VideoToolbox (macOS)",
        }
    }

    /// Parse from string (case-insensitive).
    pub fn parse_name(s: &str) -> (r: Option<Self>)
        ensures
            r == hw_from_lower(lowercase_of(s@)),
            vstd::utf8::is_ascii_chars(s@) ==> r == hw_from_lower(ascii_lower(s@)),
    {
        let lower = to_lowercase(s);
        Self::parse_lowercase_name(lower.as_str())
    }

    /// Parse an already lower-cased name (aliases included).
    pub fn parse_lowercase_name(s: &str) -> (r: Option<Self>)
        ensures
            r == hw_from_lower(s@),
    {
        let v = chars_of(s);
        if chars_eq_str(&v, "none") {
            Some(HwAccel::Software)
        } else if chars_eq_str(&v, "nvenc") || chars_eq_str(&v, "nvidia") {
            Some(HwAccel::Nvenc)
        } else if chars_eq_str(&v, "amf") || chars_eq_str(&v, "amd") {
            Some(HwAccel::Amf)
        } else if chars_eq_str(&v, "vaapi") || chars_eq_str(&v, "intel") {
            Some(HwAccel::Vaapi)
        } else if chars_eq_str(&v, "videotoolbox") || chars_eq_str(&v, "apple") || chars_eq_str(
            &v,
            "mac",
        ) {
            Some(HwAccel::VideoToolbox)
        } else {
            None
        }
    }

    /// H.264 codec name for ffmpeg.
    pub fn video_codec(&self) -> (r: &'static str)
        ensures
            r@ == hw_video_codec(*self),
    {
        match self {
            HwAccel::Software => "libx264",
            HwAccel::Nvenc => "h264_nvenc",
            HwAccel::Amf => "h264_amf",
            HwAccel::Vaapi => "h264_vaapi",
            HwAccel::VideoToolbox => "h264_videotoolbox",
        }
    }

    /// Extra ffmpeg args needed before `-i` for some hwaccels.
    pub fn input_args(&self) -> (r: Vec<&'static str>)
        ensures
            r@.len() == hw_input_args(*self).len(),
            forall|i: int| 0 <= i < r@.len() ==> #[trigger] r@[i]@ == hw_input_args(*self)[i],
    {
        match self {
            HwAccel::Vaapi => vec!["-hwaccel", "vaapi", "-hwaccel_device", "/dev/dri/renderD128"],
            HwAccel::VideoToolbox => vec!["-hwaccel", "videotoolbox"],
            _ => vec![],
        }
    }

    /// Returns true if this accel requires a hwaccel flag on the input side.
    pub fn needs_hwaccel_input(&self) -> (r: bool)
        ensures
            r == (*self == HwAccel::Vaapi || *self == HwAccel::VideoToolbox),
    {
        match self {
            HwAccel::Vaapi | HwAccel::VideoToolbox => true,
            _ => false,
        }
    }

    /// Pick the best available encoder from ffmpeg's `-hwaccels` output and
    /// its `-encoders` output (pass an empty listing where ffmpeg could not
    /// be run). The `-hwaccels` output is compared case-insensitively.
    pub fn detect_from(hwaccels_output: &str, encoders_output: &str) -> (r: Self)
        ensures
            r == hw_choice(lowercase_of(hwaccels_output@), encoders_output@),
    {
        let lower = to_lowercase(hwaccels_output);
        Self::select(lower.as_str(), encoders_output)
    }

    /// Pick the best available encoder from an already lower-cased
    /// `-hwaccels` listing and an `-encoders` listing.
    pub fn select(hwaccels_lower: &str, encoders_output: &str) -> (r: Self)
        ensures
            r == hw_choice(hwaccels_lower@, encoders_output@),
    {
        let h = chars_of(hwaccels_lower);
        let e = chars_of(encoders_output);
        if (contains_str(&h, "cuda") || contains_str(&h, "nvenc")) && contains_str(&e, "h264_nvenc") {
            HwAccel::Nvenc
        } else if contains_str(&h, "amf") && contains_str(&e, "h264_amf") {
            HwAccel::Amf
        } else if contains_str(&h, "vaapi") && contains_str(&e, "h264_vaapi") {
            HwAccel::Vaapi
        } else if contains_str(&h, "videotoolbox") && contains_str(&e, "h264_videotoolbox") {
            HwAccel::VideoToolbox
        } else {
            HwAccel::Software
        }
    }
}

/// Every backend's name is lower-case ASCII and parses back to the same
/// backend, so `HwAccel::parse_name(a.as_str()) == Some(a)`.
pub proof fn lemma_hw_name_roundtrip(a: HwAccel)
    ensures
        vstd::utf8::is_ascii_chars(hw_name(a)),
        ascii_lower(hw_name(a)) == hw_name(a),
        hw_from_lower(hw_name(a)) == Some(a),
{
    reveal_strlit("none");
    reveal_strlit("nvenc");
    reveal_strlit("nvidia");
    reveal_strlit("amf");
    reveal_strlit("amd");
    reveal_strlit("vaapi");
    reveal_strlit("intel");
    reveal_strlit("videotoolbox");
    reveal_strlit("apple");
    reveal_strlit("mac");
    assert(ascii_lower(hw_name(a)) =~= hw_name(a));
    match a {
        HwAccel::Software => {},
        HwAccel::Nvenc => {
            assert("nvenc"@[4] != "none"@[3]);
        },
        HwAccel::Amf => {
            assert("amf"@.len() != "none"@.len());
            assert("amf"@[0] != "nvenc"@[0]);
            assert("amf"@.len() != "nvidia"@.len());
        },
        HwAccel::Vaapi => {
            assert("vaapi"@[0] != "nvenc"@[0]);
            assert("vaapi"@.len() != "nvidia"@.len());
            assert("vaapi"@.len() != "none"@.len());
            assert("vaapi"@.len() != "amf"@.len());
            assert("vaapi"@.len() != "amd"@.len());
        },
        HwAccel::VideoToolbox => {
            assert("videotoolbox"@.len() != "none"@.len());
            assert("videotoolbox"@.len() != "nvenc"@.len());
            assert("videotoolbox"@.len() != "nvidia"@.len());
            assert("videotoolbox"@.len() != "amf"@.len());
            assert("videotoolbox"@.len() != "amd"@.len());
            assert("videotoolbox"@.len() != "vaapi"@.len());
            assert("videotoolbox"@.len() != "intel"@.len());
        },
    }
}

/// A backend takes input-side arguments exactly when it needs a hardware
/// accelerated input.
pub proof fn lemma_input_args_iff_needs_hwaccel(a: HwAccel)
    ensures
        hw_input_args(a).len() > 0 <==> (a == HwAccel::Vaapi || a == HwAccel::VideoToolbox),
{
}

/// Detection never picks an encoder that ffmpeg does not list: whatever
/// hardware backend is chosen, its H.264 encoder occurs in the `-encoders`
/// listing (software encoding is the fallback).
pub proof fn lemma_detected_encoder_is_listed(hwaccels: Seq<char>, encoders: Seq<char>)
    ensures
        hw_choice(hwaccels, encoders) != HwAccel::Software ==> occurs_in(
            encoders,
            hw_video_codec(hw_choice(hwaccels, encoders)),
        ),
        !occurs_in(encoders, "h264_nvenc"@) && !occurs_in(encoders, "h264_amf"@) && !occurs_in(
            encoders,
            "h264_vaapi"@,
        ) && !occurs_in(encoders, "h264_videotoolbox"@) ==> hw_choice(hwaccels, encoders)
            == HwAccel::Software,
{
}

} // verus!
