//! How the editor runs a trim: the encoder arguments, the split of long
//! segment lists into chunks, and the names of the chunk files and of the
//! folder that holds them.
use vstd::prelude::*;

use crate::paths::{file_stem, join, parent, path_file_stem, path_join, path_parent};
use crate::text::{
    append_chars, append_str, chars_eq_str, chars_of, decimal, decimal_chars, hex, hex_chars,
    pad_with, push_padded_with, string_from_chars,
};

verus! {

/// At most this many segments are trimmed by one ffmpeg run; longer lists
/// are trimmed in chunks that are joined afterwards.
pub const TRIM_SEGMENTS_PER_CHUNK: usize = 48;

/// The hardware encoders that get the variable-bitrate quality settings.
pub open spec fn is_hw_codec(codec: Seq<char>) -> bool {
    codec == "h264_nvenc"@ || codec == "h264_amf"@
}

/// The ffmpeg arguments of one trim run: the filter graph maps the trimmed
/// picture and sound; hardware encoders get VBR with adaptive quantisation,
/// the software encoder a constant quality; the sound is AAC at 192 kb/s and
/// 48 kHz, with the index at the front of the file.
pub open spec fn trim_args(input: Seq<char>, filter: Seq<char>, codec: Seq<char>, output: Seq<char>) -> Seq<Seq<char>> {
    seq![
        "-i"@,
        input,
        "-filter_complex"@,
        filter,
        "-map"@,
        "[outv]"@,
        "-map"@,
        "[outa]"@,
        "-c:v"@,
        codec,
    ] + (if is_hw_codec(codec) {
        seq![
            "-preset"@,
            "p7"@,
            "-rc:v"@,
            "vbr_hq"@,
            "-cq:v"@,
            "23"@,
            "-refs:v"@,
            "16"@,
            "-bf:v"@,
            "3"@,
            "-spatial_aq:v"@,
            "1"@,
            "-aq-strength:v"@,
            "8"@,
            "-coder:v"@,
            "cabac"@,
        ]
    } else {
        seq!["-preset"@, "slow"@, "-crf"@, "20"@]
    }) + seq![
        "-c:a"@,
        "aac"@,
        "-b:a"@,
        "192k"@,
        "-ar"@,
        "48000"@,
        "-movflags"@,
        "+faststart"@,
        "-y"@,
        output,
    ]
}

/// The views of a list of arguments.
pub open spec fn arg_views(v: Seq<String>) -> Seq<Seq<char>> {
    v.map_values(|s: String| s@)
}

fn push_arg(v: &mut Vec<String>, a: &str)
    ensures
        arg_views(final(v)@) == arg_views(old(v)@).push(a@),
{
    let ghost before = v@;
    v.push(a.to_string());
    assert(arg_views(v@) =~= arg_views(before).push(a@));
}

/// The encoder settings follow the video codec: only NVENC (`h264_nvenc`)
/// and AMF (`h264_amf`) get the variable-bitrate settings (`-preset p7
/// ...`); every other codec, the software one and VideoToolbox among them,
/// gets `-preset slow -crf 20`.
pub proof fn lemma_vbr_only_for_nvenc_and_amf(input: Seq<char>, filter: Seq<char>, codec: Seq<char>, output: Seq<char>)
    ensures
        trim_args(input, filter, codec, output)[8] == "-c:v"@,
        trim_args(input, filter, codec, output)[9] == codec,
        trim_args(input, filter, codec, output)[10] == "-preset"@,
        trim_args(input, filter, codec, output)[11] == "p7"@ <==> (codec == "h264_nvenc"@ || codec == "h264_amf"@),
        !(codec == "h264_nvenc"@ || codec == "h264_amf"@) ==> trim_args(input, filter, codec, output).subrange(10, 14)
            == seq!["-preset"@, "slow"@, "-crf"@, "20"@],
        (codec == "h264_nvenc"@ || codec == "h264_amf"@) ==> trim_args(input, filter, codec, output).subrange(10, 14)
            == seq!["-preset"@, "p7"@, "-rc:v"@, "vbr_hq"@],
{
    reveal_strlit("p7");
    reveal_strlit("slow");
    let a = trim_args(input, filter, codec, output);
    assert("p7"@ != "slow"@) by {
        assert("p7"@[0] != "slow"@[0]);
    }
    assert(a.subrange(10, 14) =~= if codec == "h264_nvenc"@ || codec == "h264_amf"@ {
        seq!["-preset"@, "p7"@, "-rc:v"@, "vbr_hq"@]
    } else {
        seq!["-preset"@, "slow"@, "-crf"@, "20"@]
    });
}

/// The ffmpeg arguments of one trim run (see [`trim_args`]).
pub fn trim_encode_args(input: &str, filter: &str, codec: &str, output: &str) -> (r: Vec<String>)
    ensures
        arg_views(r@) == trim_args(input@, filter@, codec@, output@),
{
    let c = chars_of(codec);
    let is_hw = chars_eq_str(&c, "h264_nvenc") || chars_eq_str(&c, "h264_amf");
    let mut v: Vec<String> = Vec::new();
    push_arg(&mut v, "-i");
    push_arg(&mut v, input);
    push_arg(&mut v, "-filter_complex");
    push_arg(&mut v, filter);
    push_arg(&mut v, "-map");
    push_arg(&mut v, "[outv]");
    push_arg(&mut v, "-map");
    push_arg(&mut v, "[outa]");
    push_arg(&mut v, "-c:v");
    push_arg(&mut v, codec);
    let ghost head = arg_views(v@);
    if is_hw {
        push_arg(&mut v, "-preset");
        push_arg(&mut v, "p7");
        push_arg(&mut v, "-rc:v");
        push_arg(&mut v, "vbr_hq");
        push_arg(&mut v, "-cq:v");
        push_arg(&mut v, "23");
        push_arg(&mut v, "-refs:v");
        push_arg(&mut v, "16");
        push_arg(&mut v, "-bf:v");
        push_arg(&mut v, "3");
        push_arg(&mut v, "-spatial_aq:v");
        push_arg(&mut v, "1");
        push_arg(&mut v, "-aq-strength:v");
        push_arg(&mut v, "8");
        push_arg(&mut v, "-coder:v");
        push_arg(&mut v, "cabac");
    } else {
        push_arg(&mut v, "-preset");
        push_arg(&mut v, "slow");
        push_arg(&mut v, "-crf");
        push_arg(&mut v, "20");
    }
    let ghost mid = arg_views(v@);
    push_arg(&mut v, "-c:a");
    push_arg(&mut v, "aac");
    push_arg(&mut v, "-b:a");
    push_arg(&mut v, "192k");
    push_arg(&mut v, "-ar");
    push_arg(&mut v, "48000");
    push_arg(&mut v, "-movflags");
    push_arg(&mut v, "+faststart");
    push_arg(&mut v, "-y");
    push_arg(&mut v, output);
    assert(arg_views(v@) =~= trim_args(input@, filter@, codec@, output@));
    v
}

/// How many runs of at most `size` items a list of `n` items splits into.
pub open spec fn chunk_count(n: nat, size: nat) -> nat {
    ((n + size - 1) / (size as int)) as nat
}

/// The items `[start, end)` of run `i` when a list of `n` items is split
/// into runs of `size`.
pub open spec fn chunk_bounds(n: nat, size: nat, i: int) -> (usize, usize) {
    let start = i * size;
    let end = if (i + 1) * size <= n {
        (i + 1) * size
    } else {
        n as int
    };
    (start as usize, end as usize)
}

/// The ranges that split a list of `n` items into consecutive runs of
/// `size` items, the last one shorter, as `[start, end)` (what
/// `slice::chunks` yields).
pub fn chunk_ranges(n: usize, size: usize) -> (r: Vec<(usize, usize)>)
    requires
        size > 0,
    ensures
        r@.len() == chunk_count(n as nat, size as nat),
        forall|i: int| 0 <= i < r@.len() ==> #[trigger] r@[i] == chunk_bounds(n as nat, size as nat, i),
        (r@.len() == 1) == (1 <= n <= size),
        r@.len() == 0 <==> n == 0,
        r@.len() > 0 ==> r@[0].0 == 0 && r@.last().1 == n,
        forall|i: int| 0 <= i < r@.len() ==> 0 < #[trigger] r@[i].1 - r@[i].0 <= size,
        forall|i: int| 0 <= i < r@.len() - 1 ==> #[trigger] r@[i].1 == r@[i + 1].0,
{
    let mut v: Vec<(usize, usize)> = Vec::new();
    let mut start: usize = 0;
    let mut i: usize = 0;
    while start < n
        invariant
            size > 0,
            start <= n,
            i <= start,
            start == i * size || (start == n && n < i * size),
            i > 0 ==> (i - 1) * size < n,
            v@.len() == i,
            forall|j: int| 0 <= j < i ==> #[trigger] v@[j] == chunk_bounds(n as nat, size as nat, j),
        decreases n - start,
    {
        assert(start == i * size);
        assert(i <= i * size) by (nonlinear_arith)
            requires size > 0;
        let end = if n - start >= size {
            start + size
        } else {
            n
        };
        v.push((start, end));
        proof {
            assert((i + 1) * size == i * size + size) by (nonlinear_arith);
            assert(v@[i as int] == chunk_bounds(n as nat, size as nat, i as int));
        }
        start = end;
        i = i + 1;
    }
    proof {
        assert(n <= i * size);
        if i > 0 {
            lemma_chunk_count(n as int, size as int, i as int);
        } else {
            assert((size - 1) / (size as int) == 0) by (nonlinear_arith)
                requires size > 0;
        }
        assert(i == chunk_count(n as nat, size as nat));
        if i == 1 {
            assert(n <= size);
        }
        if 1 <= n <= size {
            assert(i >= 1);
            if i >= 2 {
                assert((i - 1) * size >= size) by (nonlinear_arith)
                    requires i >= 2, size > 0;
            }
        }
        assert forall|j: int| 0 <= j < v@.len() - 1 implies #[trigger] v@[j].1 == v@[j + 1].0 by {
            assert(v@[j] == chunk_bounds(n as nat, size as nat, j));
            assert(v@[j + 1] == chunk_bounds(n as nat, size as nat, j + 1));
            assert((j + 1) * size <= (i - 1) * size) by (nonlinear_arith)
                requires j + 1 <= i - 1, size > 0;
        }
        if i > 0 {
            assert(v@[i - 1] == chunk_bounds(n as nat, size as nat, i - 1));
            assert(v@[0] == chunk_bounds(n as nat, size as nat, 0));
        }
        assert forall|j: int| 0 <= j < v@.len() implies 0 < #[trigger] v@[j].1 - v@[j].0 <= size by {
            assert(v@[j] == chunk_bounds(n as nat, size as nat, j));
            assert(j * size <= (i - 1) * size) by (nonlinear_arith)
                requires j <= i - 1, size > 0;
            assert((j + 1) * size == j * size + size) by (nonlinear_arith);
        }
    }
    v
}

proof fn lemma_chunk_count(n: int, size: int, i: int)
    requires
        i >= 1,
        size > 0,
        (i - 1) * size < n,
        n <= i * size,
    ensures
        (n + size - 1) / size == i,
{
    assert((n + size - 1) / size == i) by (nonlinear_arith)
        requires
            size > 0,
            (i - 1) * size < n,
            n <= i * size;
}

/// The chunks that a list of `n` segments is trimmed in, as index ranges
/// `[start, end)`: consecutive runs of [`TRIM_SEGMENTS_PER_CHUNK`] segments,
/// the last one shorter. A list short enough for one run gives one chunk,
/// which is trimmed straight into the output; none gives no chunk, which is
/// an error.
pub fn trim_chunks(n: usize) -> (r: Vec<(usize, usize)>)
    ensures
        r@.len() == chunk_count(n as nat, TRIM_SEGMENTS_PER_CHUNK as nat),
        forall|i: int| 0 <= i < r@.len() ==> #[trigger] r@[i] == chunk_bounds(n as nat, TRIM_SEGMENTS_PER_CHUNK as nat, i),
        (r@.len() == 1) == (1 <= n <= TRIM_SEGMENTS_PER_CHUNK),
        r@.len() == 0 <==> n == 0,
{
    chunk_ranges(n, TRIM_SEGMENTS_PER_CHUNK)
}

/// The name of chunk `idx`: `chunk_` and the index in at least four digits.
pub open spec fn chunk_name(idx: nat) -> Seq<char> {
    "chunk_"@ + pad_with(decimal(idx), 4, '0') + ".mp4"@
}

/// The file name of chunk `idx` (see [`chunk_name`]).
pub fn chunk_file_name(idx: usize) -> (r: String)
    ensures
        r@ == chunk_name(idx as nat),
{
    let d = decimal_chars(idx as u64);
    let mut v: Vec<char> = chars_of("chunk_");
    push_padded_with(&mut v, &d, 4, '0');
    append_str(&mut v, ".mp4");
    string_from_chars(&v)
}

/// The name of the folder that holds the chunks of a trim: hidden, after
/// the output's stem (`trim` where there is none), the process id in
/// hexadecimal and the time in nanoseconds as sixteen or more hexadecimal
/// digits, so that concurrent trims never share it.
pub open spec fn chunk_dir_name(stem: Option<Seq<char>>, pid: nat, nanos: nat) -> Seq<char> {
    let s = match stem {
        Some(s) => s,
        None => "trim"@,
    };
    ".agave-"@ + s + "-"@ + hex(pid) + "-"@ + pad_with(hex(nanos), 16, '0')
}

/// The folder for the chunks of a trim that writes `output`: in the
/// output's folder (the current one where it has none), named by
/// [`chunk_dir_name`].
pub open spec fn chunk_dir(output: Seq<char>, pid: nat, nanos: nat) -> Seq<char> {
    let dir = match path_parent(output) {
        Some(p) => p,
        None => "."@,
    };
    path_join(dir, chunk_dir_name(path_file_stem(output), pid, nanos))
}

/// The chunk folder for a trim that writes `output`, started by process
/// `pid` at `nanos` nanoseconds after the epoch (see [`chunk_dir`]).
pub fn trim_chunk_dir(output: &str, pid: u32, nanos: u128) -> (r: String)
    ensures
        r@ == chunk_dir(output@, pid as nat, nanos as nat),
{
    let mut name: Vec<char> = chars_of(".agave-");
    match file_stem(output) {
        Some(s) => append_str(&mut name, s.as_str()),
        None => append_str(&mut name, "trim"),
    }
    append_str(&mut name, "-");
    let p = hex_chars(pid as u128);
    append_chars(&mut name, &p);
    append_str(&mut name, "-");
    let t = hex_chars(nanos);
    push_padded_with(&mut name, &t, 16, '0');
    let name = string_from_chars(&name);
    match parent(output) {
        Some(dir) => join(dir.as_str(), name.as_str()),
        None => join(".", name.as_str()),
    }
}

} // verus!
