//! Soundpack metadata for the pack list: name, author, tags and the like
//! read from a pack's config, with its validation verdict and the reason it
//! will not play, if any.
//!
//! Reading the config, checking that its audio file exists and the file's
//! modification time are the caller's; this module never writes anything.

use vstd::prelude::*;
use crate::folders::soundpacks::{soundpack_dir, spec_soundpack_dir, strip_dot_slash, strip_dot_slash_exec};
use crate::json::{Json, as_array, as_str, get, spec_as_str, spec_get};
use crate::pack_checker::{
    SoundpackValidationResult, SoundpackValidationStatus, StatusView, ValidationView,
    has_per_key_audio, key_definitions, per_key_audio, spec_key_definitions, string_texts,
};
use crate::text::{chars_of, push_all, push_str, string_of};

verus! {

/// What the pack list shows of one soundpack.
#[derive(Debug)]
pub struct SoundpackMetadata {
    /// The pack id with its kind prefix (`keyboard/<dir>`).
    pub id: String,
    pub name: String,
    pub author: Option<String>,
    pub description: Option<String>,
    pub version: String,
    pub tags: Vec<String>,
    pub icon: Option<String>,
    /// Where the pack lives, relative to the soundpacks root (its id).
    pub folder_path: String,
    /// Seconds since the epoch at which the config last changed.
    pub last_modified: u64,
    pub config_version: Option<u32>,
    pub is_valid_v2: bool,
    /// The validation verdict as a short name (`valid`, `missing_fields`, ...).
    pub validation_status: String,
    /// Why the pack will not play, when something is known to be wrong.
    pub last_error: Option<String>,
}

/// [`SoundpackMetadata`] with its texts as character sequences.
pub struct MetadataView {
    pub id: Seq<char>,
    pub name: Seq<char>,
    pub author: Option<Seq<char>>,
    pub description: Option<Seq<char>>,
    pub version: Seq<char>,
    pub tags: Seq<Seq<char>>,
    pub icon: Option<Seq<char>>,
    pub folder_path: Seq<char>,
    pub last_modified: u64,
    pub config_version: Option<u32>,
    pub is_valid_v2: bool,
    pub validation_status: Seq<char>,
    pub last_error: Option<Seq<char>>,
}

/// The text of an optional string.
pub open spec fn opt_text(o: Option<String>) -> Option<Seq<char>> {
    match o {
        Some(s) => Some(s@),
        None => None,
    }
}

impl View for SoundpackMetadata {
    type V = MetadataView;

    open spec fn view(&self) -> MetadataView {
        MetadataView {
            id: self.id@,
            name: self.name@,
            author: opt_text(self.author),
            description: opt_text(self.description),
            version: self.version@,
            tags: string_texts(self.tags@),
            icon: opt_text(self.icon),
            folder_path: self.folder_path@,
            last_modified: self.last_modified,
            config_version: self.config_version,
            is_valid_v2: self.is_valid_v2,
            validation_status: self.validation_status@,
            last_error: opt_text(self.last_error),
        }
    }
}

/// The short name of a validation verdict.
pub open spec fn status_name(s: StatusView) -> Seq<char> {
    match s {
        StatusView::Valid => "valid"@,
        StatusView::InvalidVersion => "invalid_version"@,
        StatusView::InvalidStructure(_) => "invalid_structure"@,
        StatusView::MissingRequiredFields(_) => "missing_fields"@,
        StatusView::VersionOneNeedsConversion => "v1_needs_conversion"@,
        StatusView::RequiresNewerAppVersion(_) => "requires_newer_app_version"@,
    }
}

fn status_name_exec(s: &SoundpackValidationStatus) -> (r: String)
    ensures
        r@ == status_name(s@),
{
    match s {
        SoundpackValidationStatus::Valid => String::from_str("valid"),
        SoundpackValidationStatus::InvalidVersion => String::from_str("invalid_version"),
        SoundpackValidationStatus::InvalidStructure(_) => String::from_str("invalid_structure"),
        SoundpackValidationStatus::MissingRequiredFields(_) => String::from_str("missing_fields"),
        SoundpackValidationStatus::VersionOneNeedsConversion => String::from_str(
            "v1_needs_conversion",
        ),
        SoundpackValidationStatus::RequiresNewerAppVersion(_) => String::from_str(
            "requires_newer_app_version",
        ),
    }
}

/// The string member `key` of `config`, if it is one.
pub open spec fn str_member(config: Json, key: Seq<char>) -> Option<Seq<char>> {
    match spec_get(config, key) {
        Some(v) => spec_as_str(v),
        None => None,
    }
}

fn str_member_exec(config: &Json, key: &str) -> (r: Option<String>)
    ensures
        opt_text(r) == str_member(*config, key@),
{
    match get(config, key) {
        Some(v) => match as_str(v) {
            Some(s) => Some(s.clone()),
            None => None,
        },
        None => None,
    }
}

/// The shared audio file a pack's config names, as a path under the pack
/// directory (leading `./` pieces dropped); `None` when the config names
/// none.
pub open spec fn spec_audio_path(root: Seq<char>, id: Seq<char>, config: Json) -> Option<Seq<char>> {
    match str_member(config, "audio_file"@) {
        Some(a) => Some(spec_soundpack_dir(root, id) + "/"@ + strip_dot_slash(a)),
        None => None,
    }
}

/// See [`spec_audio_path`]: the file whose existence the caller checks.
pub fn audio_path_to_check(root: &str, soundpack_id: &str, config: &Json) -> (r: Option<String>)
    ensures
        opt_text(r) == spec_audio_path(root@, soundpack_id@, *config),
{
    match get(config, "audio_file") {
        Some(v) => match as_str(v) {
            Some(a) => {
                let dir = soundpack_dir(root, soundpack_id);
                let mut out = chars_of(dir.as_str());
                push_str(&mut out, "/");
                let ac = chars_of(a.as_str());
                let stripped = strip_dot_slash_exec(&ac);
                push_all(&mut out, &stripped);
                Some(string_of(out))
            },
            None => None,
        },
        None => None,
    }
}

/// Why a pack will not play, if known: a missing shared audio file
/// (`audio_found` is whether [`spec_audio_path`] exists), a single-style
/// config without `audio_file`, or else a config made for a newer release.
pub open spec fn spec_last_error(
    root: Seq<char>,
    id: Seq<char>,
    config: Json,
    v: ValidationView,
    audio_found: bool,
) -> Option<Seq<char>> {
    let newer: Option<Seq<char>> = match v.status {
        StatusView::RequiresNewerAppVersion(_) => Some(v.message),
        _ => None,
    };
    match spec_audio_path(root, id, config) {
        Some(p) => if audio_found {
            newer
        } else {
            Some("audio file not found: "@ + p)
        },
        None => if has_per_key_audio(spec_key_definitions(config)) {
            newer
        } else {
            Some("config is missing the audio_file field"@)
        },
    }
}

/// The strings of a JSON array, in order; other elements are skipped.
pub open spec fn string_items(a: Seq<Json>) -> Seq<Seq<char>>
    decreases a.len(),
{
    if a.len() == 0 {
        Seq::empty()
    } else {
        let prev = string_items(a.drop_last());
        match spec_as_str(a.last()) {
            Some(s) => prev.push(s),
            None => prev,
        }
    }
}

fn string_items_exec(a: &Vec<Json>) -> (r: Vec<String>)
    ensures
        string_texts(r@) == string_items(a@),
{
    let mut out: Vec<String> = Vec::new();
    let mut i: usize = 0;
    assert(string_texts(out@) =~= string_items(a@.subrange(0, 0)));
    while i < a.len()
        invariant
            i <= a@.len(),
            string_texts(out@) == string_items(a@.subrange(0, i as int)),
        decreases a.len() - i,
    {
        assert(a@.subrange(0, i + 1).drop_last() =~= a@.subrange(0, i as int));
        match as_str(&a[i]) {
            Some(s) => {
                let ghost before = out@;
                out.push(s.clone());
                assert(string_texts(out@) =~= string_texts(before).push(s@));
            },
            None => {},
        }
        i = i + 1;
    }
    assert(a@.subrange(0, a@.len() as int) =~= a@);
    out
}

/// The pack's tags: the strings of its `tags` array (none without one).
pub open spec fn spec_tags(config: Json) -> Seq<Seq<char>> {
    match spec_get(config, "tags"@) {
        Some(Json::Array(a)) => string_items(a@),
        _ => Seq::empty(),
    }
}

/// The metadata of pack `id` (under data root `root`) from its parsed
/// config and validation result; names fall back to the id, the version
/// to `1.0.0`, the author to `m_author`.
pub open spec fn spec_metadata(
    root: Seq<char>,
    id: Seq<char>,
    config: Json,
    v: ValidationView,
    audio_found: bool,
    last_modified: u64,
) -> MetadataView {
    MetadataView {
        id,
        name: match str_member(config, "name"@) {
            Some(n) => n,
            None => id,
        },
        author: match spec_get(config, "author"@) {
            Some(a) => spec_as_str(a),
            None => str_member(config, "m_author"@),
        },
        description: str_member(config, "description"@),
        version: match str_member(config, "version"@) {
            Some(n) => n,
            None => "1.0.0"@,
        },
        tags: spec_tags(config),
        icon: str_member(config, "icon"@),
        folder_path: id,
        last_modified,
        config_version: v.config_version,
        is_valid_v2: v.is_valid_v2,
        validation_status: status_name(v.status),
        last_error: spec_last_error(root, id, config, v, audio_found),
    }
}

/// Builds the metadata of a pack (see [`spec_metadata`]); `audio_found`
/// says whether the file [`audio_path_to_check`] named exists.
pub fn load_soundpack_metadata(
    root: &str,
    soundpack_id: &str,
    config: &Json,
    validation: &SoundpackValidationResult,
    audio_found: bool,
    last_modified: u64,
) -> (r: SoundpackMetadata)
    ensures
        r@ == spec_metadata(
            root@,
            soundpack_id@,
            *config,
            validation@,
            audio_found,
            last_modified,
        ),
{
    let mut last_error: Option<String> = match validation.status {
        SoundpackValidationStatus::RequiresNewerAppVersion(_) => Some(validation.message.clone()),
        _ => None,
    };
    match audio_path_to_check(root, soundpack_id, config) {
        Some(p) => {
            if !audio_found {
                let mut msg = chars_of("audio file not found: ");
                let pc = chars_of(p.as_str());
                push_all(&mut msg, &pc);
                last_error = Some(string_of(msg));
            }
        },
        None => {
            if !per_key_audio(key_definitions(config)) {
                last_error = Some(String::from_str("config is missing the audio_file field"));
            }
        },
    }
    let name = match str_member_exec(config, "name") {
        Some(n) => n,
        None => soundpack_id.to_owned(),
    };
    let version = match str_member_exec(config, "version") {
        Some(n) => n,
        None => String::from_str("1.0.0"),
    };
    let author = match get(config, "author") {
        Some(a) => match as_str(a) {
            Some(s) => Some(s.clone()),
            None => None,
        },
        None => str_member_exec(config, "m_author"),
    };
    let tags = match get(config, "tags") {
        Some(t) => match as_array(t) {
            Some(a) => string_items_exec(a),
            None => {
                let v: Vec<String> = Vec::new();
                assert(string_texts(v@) =~= Seq::<Seq<char>>::empty());
                v
            },
        },
        None => {
            let v: Vec<String> = Vec::new();
            assert(string_texts(v@) =~= Seq::<Seq<char>>::empty());
            v
        },
    };
    SoundpackMetadata {
        id: soundpack_id.to_owned(),
        name,
        author,
        description: str_member_exec(config, "description"),
        version,
        tags,
        icon: str_member_exec(config, "icon"),
        folder_path: soundpack_id.to_owned(),
        last_modified,
        config_version: validation.config_version,
        is_valid_v2: validation.is_valid_v2,
        validation_status: status_name_exec(&validation.status),
        last_error,
    }
}

} // verus!
