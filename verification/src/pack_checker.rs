//! Soundpack config validation: which format version a `config.json` is,
//! whether a V2 config is complete and well formed, and whether a V1 config
//! can be converted.

use vstd::prelude::*;
use crate::json::{
    Json, as_array, as_object, as_str, as_u64, get, spec_as_f64_bits, spec_as_str, spec_as_u64,
    spec_get,
};
use crate::numbers::{f64_bits_finite, f64_bits_ge, f64_ge, f64_is_finite, parse_unsigned, spec_parse_unsigned};
use crate::paths::views;
use crate::strings::{trim, trim_chars};
use crate::text::{chars_of, decimal, push_all, push_decimal, push_str, string_of};

verus! {

/// Verdict on a soundpack config.
#[derive(Debug, Clone, PartialEq)]
pub enum SoundpackValidationStatus {
    Valid,
    InvalidVersion,
    InvalidStructure(String),
    MissingRequiredFields(Vec<String>),
    VersionOneNeedsConversion,
    /// Pack needs a newer app to read it.
    RequiresNewerAppVersion(u32),
}

/// [`SoundpackValidationStatus`] with its texts as character sequences.
pub enum StatusView {
    Valid,
    InvalidVersion,
    InvalidStructure(Seq<char>),
    MissingRequiredFields(Seq<Seq<char>>),
    VersionOneNeedsConversion,
    RequiresNewerAppVersion(u32),
}

/// The text of each string.
pub open spec fn string_texts(v: Seq<String>) -> Seq<Seq<char>> {
    v.map_values(|s: String| s@)
}

impl View for SoundpackValidationStatus {
    type V = StatusView;

    open spec fn view(&self) -> StatusView {
        match self {
            SoundpackValidationStatus::Valid => StatusView::Valid,
            SoundpackValidationStatus::InvalidVersion => StatusView::InvalidVersion,
            SoundpackValidationStatus::InvalidStructure(s) => StatusView::InvalidStructure(s@),
            SoundpackValidationStatus::MissingRequiredFields(v) => StatusView::MissingRequiredFields(
                string_texts(v@),
            ),
            SoundpackValidationStatus::VersionOneNeedsConversion => StatusView::VersionOneNeedsConversion,
            SoundpackValidationStatus::RequiresNewerAppVersion(n) => StatusView::RequiresNewerAppVersion(
                *n,
            ),
        }
    }
}

/// The full verdict.
#[derive(Debug, Clone)]
pub struct SoundpackValidationResult {
    pub status: SoundpackValidationStatus,
    pub config_version: Option<u32>,
    /// The config's own `version` string, when it has one.
    pub detected_version: Option<String>,
    pub is_valid_v2: bool,
    pub can_be_converted: bool,
    pub message: String,
}

/// [`SoundpackValidationResult`] with its texts as character sequences.
pub struct ValidationView {
    pub status: StatusView,
    pub config_version: Option<u32>,
    pub detected_version: Option<Seq<char>>,
    pub is_valid_v2: bool,
    pub can_be_converted: bool,
    pub message: Seq<char>,
}

/// The text of an optional string.
pub open spec fn opt_text(o: Option<String>) -> Option<Seq<char>> {
    match o {
        None => None,
        Some(s) => Some(s@),
    }
}

impl View for SoundpackValidationResult {
    type V = ValidationView;

    open spec fn view(&self) -> ValidationView {
        ValidationView {
            status: self.status@,
            config_version: self.config_version,
            detected_version: opt_text(self.detected_version),
            is_valid_v2: self.is_valid_v2,
            can_be_converted: self.can_be_converted,
            message: self.message@,
        }
    }
}

/// A config file as read from disk: unreadable (with the read error's
/// text), not JSON (with the parse error's text), or parsed.
#[derive(Debug)]
pub enum ConfigSource {
    Unreadable(String),
    InvalidJson(String),
    Parsed(Json),
}

/// `parts` joined with `sep` between them (`[String]::join`).
pub open spec fn join_texts(parts: Seq<Seq<char>>, sep: Seq<char>) -> Seq<char>
    decreases parts.len(),
{
    if parts.len() == 0 {
        Seq::empty()
    } else if parts.len() == 1 {
        parts[0]
    } else {
        join_texts(parts.drop_last(), sep) + sep + parts.last()
    }
}

/// See [`join_texts`].
pub fn join_vecs(parts: &Vec<Vec<char>>, sep: &str) -> (r: Vec<char>)
    ensures
        r@ == join_texts(views(parts@), sep@),
{
    let mut out: Vec<char> = Vec::new();
    let mut i: usize = 0;
    assert(views(parts@).subrange(0, 0) =~= Seq::<Seq<char>>::empty());
    while i < parts.len()
        invariant
            i <= parts.len(),
            out@ == join_texts(views(parts@).subrange(0, i as int), sep@),
        decreases parts.len() - i,
    {
        let ghost prev = views(parts@).subrange(0, i as int);
        assert(views(parts@).subrange(0, i + 1).drop_last() =~= prev);
        assert(views(parts@).subrange(0, i + 1).last() == parts@[i as int]@);
        if i > 0 {
            push_str(&mut out, sep);
        } else {
            assert(out@ =~= Seq::<char>::empty());
            assert(views(parts@).subrange(0, 1) =~= seq![parts@[0]@]);
        }
        push_all(&mut out, &parts[i]);
        proof {
            if i == 0 {
                assert(out@ =~= parts@[0]@);
            }
        }
        i = i + 1;
    }
    assert(views(parts@).subrange(0, parts.len() as int) =~= views(parts@));
    out
}

/// `config_version` read as a number or as a string (trimmed, then parsed as
/// `u32`); `None` when absent, negative, fractional, out of range or not a
/// number.
pub open spec fn spec_read_config_version(config: Json) -> Option<u32> {
    match spec_get(config, "config_version"@) {
        None => None,
        Some(raw) => match spec_as_u64(raw) {
            Some(n) => if n <= u32::MAX {
                Some(n as u32)
            } else {
                None
            },
            None => match spec_as_str(raw) {
                Some(s) => match spec_parse_unsigned(trim(s), u32::MAX as nat) {
                    Some(v) => Some(v as u32),
                    None => None,
                },
                None => None,
            },
        },
    }
}

/// Reads `config_version` whether it is a number or a string.
pub fn read_config_version(config: &Json) -> (r: Option<u32>)
    ensures
        r == spec_read_config_version(*config),
{
    let raw = match get(config, "config_version") {
        Some(raw) => raw,
        None => return None,
    };
    match as_u64(raw) {
        Some(n) => {
            if n <= u32::MAX as u64 {
                return Some(n as u32);
            } else {
                return None;
            }
        },
        None => {},
    }
    match as_str(raw) {
        Some(s) => {
            let sc = chars_of(s.as_str());
            let t = trim_chars(&sc);
            match parse_unsigned(&t, u32::MAX as u64) {
                Some(v) => Some(v as u32),
                None => None,
            }
        },
        None => None,
    }
}

/// Key definitions under `definitions`, or under the `defs` alias.
pub open spec fn spec_key_definitions(config: Json) -> Option<Json> {
    match spec_get(config, "definitions"@) {
        Some(d) => Some(d),
        None => spec_get(config, "defs"@),
    }
}

/// See [`spec_key_definitions`].
pub fn key_definitions(config: &Json) -> (r: Option<&Json>)
    ensures
        match spec_key_definitions(*config) {
            Some(d) => r matches Some(x) && *x == d,
            None => r is None,
        },
{
    match get(config, "definitions") {
        Some(d) => Some(d),
        None => get(config, "defs"),
    }
}

/// `config` has a member `key`.
pub open spec fn has_key(config: Json, key: Seq<char>) -> bool {
    spec_get(config, key) is Some
}

/// The `f64` display text of a JSON number (empty for anything else).
pub open spec fn number_text(v: Json) -> Seq<char> {
    match v {
        Json::Number(n) => n.f64_text@,
        _ => Seq::empty(),
    }
}

/// `<key>[<i>]`, as the messages name a timing.
pub open spec fn timing_name(key: Seq<char>, i: nat) -> Seq<char> {
    key + "["@ + decimal(i) + "]"@
}

/// The problem with the `i`-th timing of key `key`, if any: it must be a
/// two-element array of finite numbers with start before end.
pub open spec fn timing_issue(key: Seq<char>, i: nat, t: Json) -> Option<Seq<char>> {
    match t {
        Json::Array(pair) => if pair@.len() != 2 {
            Some(
                "Invalid timing array for '"@ + timing_name(key, i)
                    + "': expected [start, end]"@,
            )
        } else {
            match (spec_as_f64_bits(pair@[0]), spec_as_f64_bits(pair@[1])) {
                (Some(s), Some(e)) => if f64_is_finite(s) && f64_is_finite(e) {
                    if f64_ge(s, e) {
                        Some(
                            "Invalid timing for '"@ + timing_name(key, i) + "': start ("@
                                + number_text(pair@[0]) + ") must be before end ("@
                                + number_text(pair@[1]) + ")"@,
                        )
                    } else {
                        None
                    }
                } else {
                    Some(
                        "Invalid timing for '"@ + timing_name(key, i)
                            + "': expected [start, end] as finite numbers"@,
                    )
                },
                _ => Some(
                    "Invalid timing for '"@ + timing_name(key, i)
                        + "': expected [start, end] as finite numbers"@,
                ),
            }
        },
        _ => Some("Invalid timing entry for '"@ + timing_name(key, i) + "': expected array"@),
    }
}

/// The problems with the timings `ts` of key `key`, in order.
pub open spec fn timings_issues(key: Seq<char>, ts: Seq<Json>) -> Seq<Seq<char>>
    decreases ts.len(),
{
    if ts.len() == 0 {
        Seq::empty()
    } else {
        let prev = timings_issues(key, ts.drop_last());
        match timing_issue(key, (ts.len() - 1) as nat, ts.last()) {
            Some(m) => prev.push(m),
            None => prev,
        }
    }
}

/// The problems with one definition: `{ "timing": [...] }` or a bare timing
/// array.
pub open spec fn entry_issues(key: Seq<char>, value: Json) -> Seq<Seq<char>> {
    let timings = match spec_get(value, "timing"@) {
        Some(t) => t,
        None => value,
    };
    match timings {
        Json::Array(ts) => timings_issues(key, ts@),
        _ => seq![
            "Invalid definitions entry for '"@ + key + "': expected timing array"@,
        ],
    }
}

/// The problems with all definitions, in order.
pub open spec fn entries_issues(entries: Seq<(String, Json)>) -> Seq<Seq<char>>
    decreases entries.len(),
{
    if entries.len() == 0 {
        Seq::empty()
    } else {
        entries_issues(entries.drop_last()) + entry_issues(
            entries.last().0@,
            entries.last().1,
        )
    }
}

/// Some definition carries its own `audio_file` (a multi-method pack).
pub open spec fn has_per_key_audio(defs: Option<Json>) -> bool {
    match defs {
        Some(Json::Object(o)) => exists|i: int|
            0 <= i < o@.len() && has_key(#[trigger] o@[i].1, "audio_file"@),
        _ => false,
    }
}

/// Required V2 fields that are missing.
pub open spec fn v2_missing(config: Json) -> Seq<Seq<char>> {
    let a: Seq<Seq<char>> = if !has_key(config, "name"@) {
        seq!["name"@]
    } else {
        Seq::empty()
    };
    let b: Seq<Seq<char>> = if !has_key(config, "author"@) && !has_key(config, "m_author"@) {
        seq!["author"@]
    } else {
        Seq::empty()
    };
    let c: Seq<Seq<char>> = if spec_key_definitions(config) is None {
        seq!["definitions"@]
    } else {
        Seq::empty()
    };
    a + b + c
}

/// Structural problems of a V2 config, in order.
pub open spec fn v2_issues(config: Json) -> Seq<Seq<char>> {
    let defs = spec_key_definitions(config);
    let single: Seq<Seq<char>> = if (match spec_get(config, "definition_method"@) {
        Some(m) => spec_as_str(m) == Some("single"@),
        None => false,
    }) && !has_per_key_audio(defs) && !has_key(config, "audio_file"@) {
        seq!["single-method soundpack is missing the audio_file field"@]
    } else {
        Seq::empty()
    };
    let rest: Seq<Seq<char>> = match defs {
        None => Seq::empty(),
        Some(Json::Object(o)) => (if o@.len() == 0 {
            seq!["definitions must not be empty"@]
        } else {
            Seq::<Seq<char>>::empty()
        }) + entries_issues(o@),
        Some(_) => seq!["definitions field should be an object"@],
    };
    single + rest
}

/// Verdict on a config read as V2.
pub open spec fn spec_v2(
    config: Json,
    config_version: Option<u32>,
    package_version: Option<Seq<char>>,
) -> ValidationView {
    let missing = v2_missing(config);
    let issues = v2_issues(config);
    if missing.len() > 0 {
        ValidationView {
            status: StatusView::MissingRequiredFields(missing),
            config_version,
            detected_version: package_version,
            is_valid_v2: false,
            can_be_converted: false,
            message: "Missing required V2 fields: "@ + join_texts(missing, ", "@),
        }
    } else if issues.len() > 0 {
        ValidationView {
            status: StatusView::InvalidStructure(join_texts(issues, "; "@)),
            config_version,
            detected_version: package_version,
            is_valid_v2: false,
            can_be_converted: false,
            message: "V2 structure issues: "@ + join_texts(issues, "; "@),
        }
    } else {
        ValidationView {
            status: StatusView::Valid,
            config_version: match config_version {
                Some(v) => Some(v),
                None => Some(2),
            },
            detected_version: package_version,
            is_valid_v2: true,
            can_be_converted: false,
            message: "Valid V2 soundpack configuration"@,
        }
    }
}

/// Verdict on a parsed config.
pub open spec fn spec_validate_config(config: Json) -> ValidationView {
    let config_version = spec_read_config_version(config);
    let package_version = match spec_get(config, "version"@) {
        Some(v) => spec_as_str(v),
        None => None,
    };
    let has_defines = has_key(config, "defines"@);
    let has_sound = has_key(config, "sound"@);
    let has_method = has_key(config, "method"@) || has_key(config, "key_define_type"@);
    let has_defs = spec_key_definitions(config) is Some;
    let has_author = has_key(config, "author"@) || has_key(config, "m_author"@);
    if config_version matches Some(v) && v > 2 {
        ValidationView {
            status: StatusView::RequiresNewerAppVersion(config_version->0),
            config_version,
            detected_version: package_version,
            is_valid_v2: false,
            can_be_converted: false,
            message: "This soundpack requires a newer version of Sorakey"@,
        }
    } else if config_version == Some(2u32) {
        spec_v2(config, config_version, package_version)
    } else if config_version == Some(1u32) || (has_defines && has_sound && !has_defs) {
        ValidationView {
            status: StatusView::VersionOneNeedsConversion,
            config_version: Some(1),
            detected_version: package_version,
            is_valid_v2: false,
            can_be_converted: true,
            message: if has_method {
                "Version 1 soundpack with method field detected, needs conversion to V2 format"@
            } else {
                "Version 1 soundpack detected, needs conversion to V2 format"@
            },
        }
    } else if has_defs && has_author {
        spec_v2(config, None, package_version)
    } else {
        let missing = (if !has_defs && !has_defines {
            seq!["definitions or defines"@]
        } else {
            Seq::<Seq<char>>::empty()
        }) + (if !has_key(config, "name"@) {
            seq!["name"@]
        } else {
            Seq::<Seq<char>>::empty()
        }) + (if !has_author {
            seq!["author"@]
        } else {
            Seq::<Seq<char>>::empty()
        });
        ValidationView {
            status: StatusView::MissingRequiredFields(missing),
            config_version,
            detected_version: package_version,
            is_valid_v2: false,
            can_be_converted: has_defines && has_sound,
            message: "Missing required fields: "@ + join_texts(missing, ", "@),
        }
    }
}

/// Verdict on a config as read from disk.
pub open spec fn spec_validate(source: ConfigSource) -> ValidationView {
    match source {
        ConfigSource::Unreadable(e) => ValidationView {
            status: StatusView::InvalidStructure("Cannot read config file: "@ + e@),
            config_version: None,
            detected_version: None,
            is_valid_v2: false,
            can_be_converted: false,
            message: "Failed to read config file: "@ + e@,
        },
        ConfigSource::InvalidJson(e) => ValidationView {
            status: StatusView::InvalidStructure("Invalid JSON: "@ + e@),
            config_version: None,
            detected_version: None,
            is_valid_v2: false,
            can_be_converted: false,
            message: "Invalid JSON format: "@ + e@,
        },
        ConfigSource::Parsed(config) => spec_validate_config(config),
    }
}

/// A config made for a newer format than this release reads is reported
/// as such and is never offered for conversion.
pub proof fn lemma_newer_configs_are_never_converted(config: Json)
    requires
        spec_read_config_version(config) matches Some(v) && v > 2,
    ensures
        spec_validate_config(config).status is RequiresNewerAppVersion,
        !spec_validate_config(config).can_be_converted,
        !spec_validate_config(config).is_valid_v2,
{
}

/// Only a single-method pack can lack its audio file: a V2 config with its
/// required fields, a non-empty definitions object whose timings are all
/// well formed, and either a `definition_method` other than `"single"`, a
/// top-level `audio_file`, or per-key `audio_file` entries, is valid. So a
/// multi-method pack whose keys each name their own file, with no top-level
/// `audio_file`, validates as `Valid`.
pub proof fn lemma_only_single_method_packs_need_audio_file(config: Json)
    requires
        spec_read_config_version(config) == Some(2u32),
        has_key(config, "name"@),
        has_key(config, "author"@) || has_key(config, "m_author"@),
        spec_key_definitions(config) matches Some(Json::Object(o)) && o@.len() > 0
            && entries_issues(o@).len() == 0,
        (match spec_get(config, "definition_method"@) {
            Some(m) => spec_as_str(m) != Some("single"@),
            None => true,
        }) || has_key(config, "audio_file"@) || has_per_key_audio(spec_key_definitions(config)),
    ensures
        spec_validate_config(config).status is Valid,
        spec_validate_config(config).is_valid_v2,
        spec_validate_config(config).config_version == Some(2u32),
        spec_validate_config(config).message == "Valid V2 soundpack configuration"@,
{
    assert(v2_missing(config) =~= Seq::<Seq<char>>::empty());
    assert(v2_issues(config) =~= Seq::<Seq<char>>::empty());
}

/// The verdict is `Valid` exactly when the config is a valid V2 config,
/// and a convertible config is never also valid.
pub proof fn lemma_valid_means_valid_v2(source: ConfigSource)
    ensures
        (spec_validate(source).status is Valid) <==> spec_validate(source).is_valid_v2,
        spec_validate(source).can_be_converted ==> !spec_validate(source).is_valid_v2,
{
}

fn text_of(a: &str, b: &Vec<char>) -> (r: Vec<char>)
    ensures
        r@ == a@ + b@,
{
    let mut out = chars_of(a);
    push_all(&mut out, b);
    out
}

fn timing_name_exec(key: &Vec<char>, i: usize) -> (r: Vec<char>)
    ensures
        r@ == timing_name(key@, i as nat),
{
    let mut out = key.clone();
    push_str(&mut out, "[");
    push_decimal(&mut out, i as u64);
    push_str(&mut out, "]");
    out
}

fn number_text_exec(v: &Json) -> (r: Vec<char>)
    ensures
        r@ == number_text(*v),
{
    match v {
        Json::Number(n) => chars_of(n.f64_text.as_str()),
        _ => Vec::new(),
    }
}

fn f64_bits_of(v: &Json) -> (r: Option<u64>)
    ensures
        r == spec_as_f64_bits(*v),
{
    match v {
        Json::Number(n) => Some(n.f64_bits),
        _ => None,
    }
}

fn timing_issue_exec(key: &Vec<char>, i: usize, t: &Json) -> (r: Option<Vec<char>>)
    ensures
        match timing_issue(key@, i as nat, *t) {
            Some(m) => r matches Some(x) && x@ == m,
            None => r is None,
        },
{
    let name = timing_name_exec(key, i);
    match as_array(t) {
        Some(pair) => {
            if pair.len() != 2 {
                let mut out = text_of("Invalid timing array for '", &name);
                push_str(&mut out, "': expected [start, end]");
                return Some(out);
            }
            let finite_msg = || -> (m: Vec<char>)
                ensures
                    m@ == "Invalid timing for '"@ + timing_name(key@, i as nat)
                        + "': expected [start, end] as finite numbers"@,
                {
                    let mut out = text_of("Invalid timing for '", &name);
                    push_str(&mut out, "': expected [start, end] as finite numbers");
                    out
                };
            match (f64_bits_of(&pair[0]), f64_bits_of(&pair[1])) {
                (Some(s), Some(e)) => {
                    if f64_bits_finite(s) && f64_bits_finite(e) {
                        if f64_bits_ge(s, e) {
                            let mut out = text_of("Invalid timing for '", &name);
                            push_str(&mut out, "': start (");
                            let st = number_text_exec(&pair[0]);
                            push_all(&mut out, &st);
                            push_str(&mut out, ") must be before end (");
                            let et = number_text_exec(&pair[1]);
                            push_all(&mut out, &et);
                            push_str(&mut out, ")");
                            Some(out)
                        } else {
                            None
                        }
                    } else {
                        Some(finite_msg())
                    }
                },
                _ => Some(finite_msg()),
            }
        },
        None => {
            let mut out = text_of("Invalid timing entry for '", &name);
            push_str(&mut out, "': expected array");
            Some(out)
        },
    }
}

fn entry_issues_exec(key: &Vec<char>, value: &Json, issues: &mut Vec<Vec<char>>)
    ensures
        views(final(issues)@) == views(old(issues)@) + entry_issues(key@, *value),
{
    let timings = match get(value, "timing") {
        Some(t) => t,
        None => value,
    };
    match as_array(timings) {
        Some(ts) => {
            let ghost start = views(issues@);
            let mut i: usize = 0;
            assert(ts@.subrange(0, 0) =~= Seq::<Json>::empty());
            assert(start + timings_issues(key@, Seq::<Json>::empty()) =~= start);
            while i < ts.len()
                invariant
                    i <= ts.len(),
                    views(issues@) == start + timings_issues(key@, ts@.subrange(0, i as int)),
                decreases ts.len() - i,
            {
                let ghost prev = ts@.subrange(0, i as int);
                assert(ts@.subrange(0, i + 1).drop_last() =~= prev);
                assert(ts@.subrange(0, i + 1).last() == ts@[i as int]);
                match timing_issue_exec(key, i, &ts[i]) {
                    Some(m) => {
                        let ghost before = issues@;
                        issues.push(m);
                        assert(views(issues@) =~= views(before).push(m@));
                    },
                    None => {},
                }
                i = i + 1;
            }
            assert(ts@.subrange(0, ts.len() as int) =~= ts@);
        },
        None => {
            let mut out = text_of("Invalid definitions entry for '", key);
            push_str(&mut out, "': expected timing array");
            let ghost before = issues@;
            issues.push(out);
            assert(views(issues@) =~= views(before).push(out@));
        },
    }
}

fn has_member(config: &Json, key: &str) -> (r: bool)
    ensures
        r == has_key(*config, key@),
{
    get(config, key).is_some()
}

fn push_text(v: &mut Vec<Vec<char>>, s: &str)
    ensures
        views(final(v)@) == views(old(v)@).push(s@),
{
    let c = chars_of(s);
    v.push(c);
    assert(views(final(v)@) =~= views(old(v)@).push(s@));
}

fn to_strings(v: &Vec<Vec<char>>) -> (r: Vec<String>)
    ensures
        string_texts(r@) == views(v@),
{
    let mut out: Vec<String> = Vec::new();
    let mut i: usize = 0;
    while i < v.len()
        invariant
            i <= v.len(),
            string_texts(out@) == views(v@).subrange(0, i as int),
        decreases v.len() - i,
    {
        let s = string_of(v[i].clone());
        let ghost o0 = out@;
        out.push(s);
        assert(string_texts(out@) =~= string_texts(o0).push(s@));
        assert(views(v@).subrange(0, i + 1) =~= views(v@).subrange(0, i as int).push(v@[i as int]@));
        i = i + 1;
    }
    assert(views(v@).subrange(0, v.len() as int) =~= views(v@));
    out
}

fn any_entry_has_audio(o: &Vec<(String, Json)>) -> (r: bool)
    ensures
        r == exists|i: int| 0 <= i < o@.len() && has_key(#[trigger] o@[i].1, "audio_file"@),
{
    let mut i: usize = 0;
    while i < o.len()
        invariant
            i <= o.len(),
            forall|j: int| 0 <= j < i ==> !has_key(#[trigger] o@[j].1, "audio_file"@),
        decreases o.len() - i,
    {
        if has_member(&o[i].1, "audio_file") {
            assert(has_key(o@[i as int].1, "audio_file"@));
            return true;
        }
        i = i + 1;
    }
    false
}

pub(crate) fn per_key_audio(defs: Option<&Json>) -> (r: bool)
    ensures
        r == has_per_key_audio(
            match defs {
                Some(d) => Some(*d),
                None => None,
            },
        ),
{
    match defs {
        Some(d) => match as_object(d) {
            Some(o) => any_entry_has_audio(o),
            None => false,
        },
        None => false,
    }
}

fn validate_v2_structure(
    config: &Json,
    config_version: Option<u32>,
    package_version: Option<String>,
) -> (r: SoundpackValidationResult)
    ensures
        r@ == spec_v2(*config, config_version, opt_text(package_version)),
{
    let mut missing: Vec<Vec<char>> = Vec::new();
    assert(views(missing@) =~= Seq::<Seq<char>>::empty());
    if !has_member(config, "name") {
        push_text(&mut missing, "name");
    }
    if !has_member(config, "author") && !has_member(config, "m_author") {
        push_text(&mut missing, "author");
    }
    let defs = key_definitions(config);
    if defs.is_none() {
        push_text(&mut missing, "definitions");
    }
    assert(views(missing@) =~= v2_missing(*config));
    let ghost d = spec_key_definitions(*config);
    let mut issues: Vec<Vec<char>> = Vec::new();
    assert(views(issues@) =~= Seq::<Seq<char>>::empty());
    let method_single = match get(config, "definition_method") {
        Some(m) => match as_str(m) {
            Some(s) => {
                let sc = chars_of(s.as_str());
                let single = chars_of("single");
                crate::paths::chars_eq(&sc, &single)
            },
            None => false,
        },
        None => false,
    };
    if method_single && !per_key_audio(defs) && !has_member(config, "audio_file") {
        push_text(&mut issues, "single-method soundpack is missing the audio_file field");
    }
    let ghost single = views(issues@);
    assert(single =~= v2_issues(*config).subrange(0, single.len() as int));
    match defs {
        Some(dv) => match as_object(dv) {
            Some(o) => {
                if o.len() == 0 {
                    push_text(&mut issues, "definitions must not be empty");
                }
                let ghost base = views(issues@);
                let mut k: usize = 0;
                assert(o@.subrange(0, 0) =~= Seq::<(String, Json)>::empty());
                assert(base + entries_issues(Seq::<(String, Json)>::empty()) =~= base);
                while k < o.len()
                    invariant
                        k <= o.len(),
                        views(issues@) == base + entries_issues(o@.subrange(0, k as int)),
                    decreases o.len() - k,
                {
                    let ghost prev = o@.subrange(0, k as int);
                    assert(o@.subrange(0, k + 1).drop_last() =~= prev);
                    assert(o@.subrange(0, k + 1).last() == o@[k as int]);
                    let key = chars_of(o[k].0.as_str());
                    let ghost before = views(issues@);
                    entry_issues_exec(&key, &o[k].1, &mut issues);
                    assert(views(issues@) =~= base + entries_issues(o@.subrange(0, k + 1)));
                    k = k + 1;
                }
                assert(o@.subrange(0, o.len() as int) =~= o@);
            },
            None => {
                push_text(&mut issues, "definitions field should be an object");
            },
        },
        None => {},
    }
    assert(views(issues@) =~= v2_issues(*config));
    if missing.len() > 0 {
        let joined = join_vecs(&missing, ", ");
        let msg = text_of("Missing required V2 fields: ", &joined);
        SoundpackValidationResult {
            status: SoundpackValidationStatus::MissingRequiredFields(to_strings(&missing)),
            config_version,
            detected_version: package_version,
            is_valid_v2: false,
            can_be_converted: false,
            message: string_of(msg),
        }
    } else if issues.len() > 0 {
        let joined = join_vecs(&issues, "; ");
        let msg = text_of("V2 structure issues: ", &joined);
        SoundpackValidationResult {
            status: SoundpackValidationStatus::InvalidStructure(string_of(joined)),
            config_version,
            detected_version: package_version,
            is_valid_v2: false,
            can_be_converted: false,
            message: string_of(msg),
        }
    } else {
        SoundpackValidationResult {
            status: SoundpackValidationStatus::Valid,
            config_version: match config_version {
                Some(v) => Some(v),
                None => Some(2),
            },
            detected_version: package_version,
            is_valid_v2: true,
            can_be_converted: false,
            message: String::from_str("Valid V2 soundpack configuration"),
        }
    }
}

/// Validates a parsed soundpack config (see [`spec_validate_config`]).
pub fn validate_config(config: &Json) -> (r: SoundpackValidationResult)
    ensures
        r@ == spec_validate_config(*config),
{
    let config_version = read_config_version(config);
    let package_version: Option<String> = match get(config, "version") {
        Some(v) => match as_str(v) {
            Some(s) => Some(s.clone()),
            None => None,
        },
        None => None,
    };
    let has_defines = has_member(config, "defines");
    let has_sound = has_member(config, "sound");
    let has_method = has_member(config, "method") || has_member(config, "key_define_type");
    let has_defs = key_definitions(config).is_some();
    let has_author = has_member(config, "author") || has_member(config, "m_author");
    let newer = match config_version {
        Some(v) => v > 2,
        None => false,
    };
    if newer {
        let v = config_version.unwrap();
        SoundpackValidationResult {
            status: SoundpackValidationStatus::RequiresNewerAppVersion(v),
            config_version: Some(v),
            detected_version: package_version,
            is_valid_v2: false,
            can_be_converted: false,
            message: String::from_str("This soundpack requires a newer version of Sorakey"),
        }
    } else if config_version == Some(2u32) {
        validate_v2_structure(config, config_version, package_version)
    } else if config_version == Some(1u32) || (has_defines && has_sound && !has_defs) {
        SoundpackValidationResult {
            status: SoundpackValidationStatus::VersionOneNeedsConversion,
            config_version: Some(1),
            detected_version: package_version,
            is_valid_v2: false,
            can_be_converted: true,
            message: if has_method {
                String::from_str(
                    "Version 1 soundpack with method field detected, needs conversion to V2 format",
                )
            } else {
                String::from_str("Version 1 soundpack detected, needs conversion to V2 format")
            },
        }
    } else if has_defs && has_author {
        validate_v2_structure(config, None, package_version)
    } else {
        let mut missing: Vec<Vec<char>> = Vec::new();
        assert(views(missing@) =~= Seq::<Seq<char>>::empty());
        if !has_defs && !has_defines {
            push_text(&mut missing, "definitions or defines");
        }
        if !has_member(config, "name") {
            push_text(&mut missing, "name");
        }
        if !has_author {
            push_text(&mut missing, "author");
        }
        let joined = join_vecs(&missing, ", ");
        let msg = text_of("Missing required fields: ", &joined);
        let r = SoundpackValidationResult {
            status: SoundpackValidationStatus::MissingRequiredFields(to_strings(&missing)),
            config_version,
            detected_version: package_version,
            is_valid_v2: false,
            can_be_converted: has_defines && has_sound,
            message: string_of(msg),
        };
        assert(views(missing@) =~= (if !has_defs && !has_defines {
            seq!["definitions or defines"@]
        } else {
            Seq::<Seq<char>>::empty()
        }) + (if !has_key(*config, "name"@) {
            seq!["name"@]
        } else {
            Seq::<Seq<char>>::empty()
        }) + (if !has_author {
            seq!["author"@]
        } else {
            Seq::<Seq<char>>::empty()
        }));
        r
    }
}

/// Validates a soundpack config as read from disk (see [`spec_validate`]).
pub fn validate_soundpack_config(source: &ConfigSource) -> (r: SoundpackValidationResult)
    ensures
        r@ == spec_validate(*source),
{
    match source {
        ConfigSource::Unreadable(e) => {
            let ec = chars_of(e.as_str());
            let status = text_of("Cannot read config file: ", &ec);
            let msg = text_of("Failed to read config file: ", &ec);
            SoundpackValidationResult {
                status: SoundpackValidationStatus::InvalidStructure(string_of(status)),
                config_version: None,
                detected_version: None,
                is_valid_v2: false,
                can_be_converted: false,
                message: string_of(msg),
            }
        },
        ConfigSource::InvalidJson(e) => {
            let ec = chars_of(e.as_str());
            let status = text_of("Invalid JSON: ", &ec);
            let msg = text_of("Invalid JSON format: ", &ec);
            SoundpackValidationResult {
                status: SoundpackValidationStatus::InvalidStructure(string_of(status)),
                config_version: None,
                detected_version: None,
                is_valid_v2: false,
                can_be_converted: false,
                message: string_of(msg),
            }
        },
        ConfigSource::Parsed(config) => validate_config(config),
    }
}

} // verus!
