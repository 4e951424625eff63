//! Choosing a preset from a video's file name.
use vstd::prelude::*;

use crate::config::Preset;
use crate::paths::{file_stem, or_empty, path_file_stem};
use crate::text::{
    ascii_lower, chars_of, contains, lowercase_of, occurs_in, string_from_chars, to_lowercase,
};

verus! {

/// A rule that maps filename patterns to presets
#[derive(Debug, Clone)]
pub struct PresetRule {
    /// Pattern to match (substring search, case-insensitive)
    pub pattern: String,
    /// Preset to apply when pattern matches
    pub preset: Preset,
}

impl PresetRule {
    /// A rule for `pattern` (stored lower-cased) and `preset`.
    pub fn new(pattern: &str, preset: Preset) -> (r: Self)
        ensures
            r.pattern@ == lowercase_of(pattern@),
            vstd::utf8::is_ascii_chars(pattern@) ==> r.pattern@ == ascii_lower(pattern@),
            r.preset == preset,
    {
        PresetRule { pattern: to_lowercase(pattern), preset }
    }
}

/// The preset of the first rule whose pattern occurs in `name`, or
/// `default_preset` when none does.
pub open spec fn first_match(name: Seq<char>, rules: Seq<PresetRule>, default_preset: Preset) -> Preset
    decreases rules.len(),
{
    if rules.len() == 0 {
        default_preset
    } else if occurs_in(name, rules[0].pattern@) {
        rules[0].preset
    } else {
        first_match(name, rules.drop_first(), default_preset)
    }
}

/// The lower-cased file stem of a path, the text that rules are matched
/// against (an empty stem where the path has none).
pub open spec fn rule_key(path: Seq<char>) -> Seq<char> {
    lowercase_of(or_empty(path_file_stem(path)))
}

/// Determine the preset for a file based on filename patterns: the preset of
/// the first rule (in order) whose pattern occurs in the lower-cased file
/// stem, or `default_preset` if no rule matches.
pub fn preset_for_file(path: &str, rules: &[PresetRule], default_preset: Preset) -> (r: Preset)
    ensures
        r == first_match(rule_key(path@), rules@, default_preset),
{
    let stem = match file_stem(path) {
        Some(s) => s,
        None => string_from_chars(&Vec::new()),
    };
    let name = to_lowercase(stem.as_str());
    preset_for_name(name.as_str(), rules, default_preset)
}

/// The preset of the first rule whose pattern occurs in `name` (already
/// lower-cased), or `default_preset` if no rule matches.
pub fn preset_for_name(name: &str, rules: &[PresetRule], default_preset: Preset) -> (r: Preset)
    ensures
        r == first_match(name@, rules@, default_preset),
{
    let n = chars_of(name);
    let mut i: usize = 0;
    assert(rules@.skip(0) == rules@);
    while i < rules.len()
        invariant
            i <= rules@.len(),
            n@ == name@,
            first_match(name@, rules@, default_preset) == first_match(
                name@,
                rules@.skip(i as int),
                default_preset,
            ),
        decreases rules.len() - i,
    {
        let p = chars_of(rules[i].pattern.as_str());
        assert(rules@.skip(i as int)[0] == rules@[i as int]);
        if contains(&n, &p) {
            return rules[i].preset;
        }
        assert(rules@.skip(i as int).drop_first() == rules@.skip(i + 1));
        i = i + 1;
    }
    default_preset
}

/// Default preset rules for common naming conventions
pub fn default_preset_rules() -> (r: Vec<PresetRule>)
    ensures
        r@.len() == 6,
        r@[0].pattern@ == "short"@ && r@[0].preset == Preset::Shorts,
        r@[1].pattern@ == "tiktok"@ && r@[1].preset == Preset::Tiktok,
        r@[2].pattern@ == "reel"@ && r@[2].preset == Preset::Reels,
        r@[3].pattern@ == "podcast"@ && r@[3].preset == Preset::Podcast,
        r@[4].pattern@ == "twitter"@ && r@[4].preset == Preset::Twitter,
        r@[5].pattern@ == "x_"@ && r@[5].preset == Preset::Twitter,
{
    proof {
        reveal_strlit("short");
        reveal_strlit("tiktok");
        reveal_strlit("reel");
        reveal_strlit("podcast");
        reveal_strlit("twitter");
        reveal_strlit("x_");
        assert(ascii_lower("short"@) =~= "short"@);
        assert(ascii_lower("tiktok"@) =~= "tiktok"@);
        assert(ascii_lower("reel"@) =~= "reel"@);
        assert(ascii_lower("podcast"@) =~= "podcast"@);
        assert(ascii_lower("twitter"@) =~= "twitter"@);
        assert(ascii_lower("x_"@) =~= "x_"@);
    }
    vec![
        PresetRule::new("short", Preset::Shorts),
        PresetRule::new("tiktok", Preset::Tiktok),
        PresetRule::new("reel", Preset::Reels),
        PresetRule::new("podcast", Preset::Podcast),
        PresetRule::new("twitter", Preset::Twitter),
        PresetRule::new("x_", Preset::Twitter),
    ]
}

/// The first matching rule decides: if rule `i` matches and no earlier rule
/// does, the result is rule `i`'s preset; if no rule matches, the result is
/// the default.
pub proof fn lemma_first_match_wins(
    name: Seq<char>,
    rules: Seq<PresetRule>,
    default_preset: Preset,
    i: int,
)
    requires
        0 <= i < rules.len(),
        occurs_in(name, rules[i].pattern@),
        forall|j: int| 0 <= j < i ==> !occurs_in(name, #[trigger] rules[j].pattern@),
    ensures
        first_match(name, rules, default_preset) == rules[i].preset,
    decreases i,
{
    if i > 0 {
        let t = rules.drop_first();
        assert(!occurs_in(name, rules[0].pattern@));
        assert forall|j: int| 0 <= j < i - 1 implies !occurs_in(name, #[trigger] t[j].pattern@) by {
            assert(t[j] == rules[j + 1]);
        }
        lemma_first_match_wins(name, t, default_preset, i - 1);
    }
}

/// With no matching rule the default preset is chosen.
pub proof fn lemma_no_match_default(name: Seq<char>, rules: Seq<PresetRule>, default_preset: Preset)
    requires
        forall|j: int| 0 <= j < rules.len() ==> !occurs_in(name, #[trigger] rules[j].pattern@),
    ensures
        first_match(name, rules, default_preset) == default_preset,
    decreases rules.len(),
{
    if rules.len() > 0 {
        let t = rules.drop_first();
        assert(!occurs_in(name, rules[0].pattern@));
        assert forall|j: int| 0 <= j < t.len() implies !occurs_in(name, #[trigger] t[j].pattern@) by {
            assert(t[j] == rules[j + 1]);
        }
        lemma_no_match_default(name, t, default_preset);
    }
}

} // verus!
