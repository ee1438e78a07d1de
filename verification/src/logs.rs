//! In-memory ring buffer for recent log lines, shown in Settings and exported
//! on demand. Memory only, fixed size. An export masks the account name in
//! paths and never carries key identities.

use vstd::prelude::*;
use std::collections::VecDeque;
use crate::paths::views;
use crate::strings::{split_chars, split_on, trim, trim_chars};
use crate::text::{
    chars_of, contains_seq, first_occurrence_from, occurs_at, find_from, lemma_first_occurrence_finds, push_all,
    push_decimal, push_str, string_of, decimal,
};

verus! {

/// Most lines the buffer holds.
pub const CAPACITY: usize = 2000;

/// Lines the Settings viewer shows.
pub const VIEWER_LINES: usize = 100;

/// The last `n` elements of `s` (all of them when there are fewer).
pub open spec fn keep_last<A>(s: Seq<A>, n: nat) -> Seq<A> {
    if s.len() <= n {
        s
    } else {
        s.subrange(s.len() - n, s.len() as int)
    }
}

/// `str::trim_end_matches('\r')`.
pub open spec fn trim_end_cr(s: Seq<char>) -> Seq<char>
    decreases s.len(),
{
    if s.len() > 0 && s.last() == '\r' {
        trim_end_cr(s.drop_last())
    } else {
        s
    }
}

/// The stored form of one line: timestamp, a space, the text without
/// trailing carriage returns.
pub open spec fn entry_text(stamp: Seq<char>, part: Seq<char>) -> Seq<char> {
    stamp + seq![' '] + trim_end_cr(part)
}

/// The entries one logged message becomes: one per `\n`-separated part.
pub open spec fn entries(stamp: Seq<char>, line: Seq<char>) -> Seq<Seq<char>> {
    split_on(line, '\n').map_values(|p: Seq<char>| entry_text(stamp, p))
}

/// The text of each string.
pub open spec fn texts(v: Seq<String>) -> Seq<Seq<char>> {
    v.map_values(|s: String| s@)
}

/// The ring buffer.
pub struct LogBuffer {
    lines: VecDeque<String>,
    generation: u64,
}

impl View for LogBuffer {
    type V = Seq<Seq<char>>;

    closed spec fn view(&self) -> Seq<Seq<char>> {
        texts(self.lines@)
    }
}

impl LogBuffer {
    #[verifier::type_invariant]
    spec fn within_capacity(self) -> bool {
        self.lines@.len() <= CAPACITY
    }

    /// Number of `push` calls so far (wrapping).
    pub closed spec fn spec_generation(self) -> u64 {
        self.generation
    }

    /// An empty buffer.
    pub fn new() -> (b: LogBuffer)
        ensures
            b@ == Seq::<Seq<char>>::empty(),
            b.spec_generation() == 0,
    {
        let b = LogBuffer { lines: VecDeque::new(), generation: 0 };
        assert(b@ =~= Seq::<Seq<char>>::empty());
        b
    }
}

proof fn lemma_keep_last_push<A>(x: Seq<A>, e: A, n: nat)
    requires
        n >= 1,
    ensures
        keep_last(x.push(e), n) == (if keep_last(x, n).len() >= n {
            keep_last(x, n).drop_first().push(e)
        } else {
            keep_last(x, n).push(e)
        }),
{
    let k = keep_last(x, n);
    if x.len() < n {
        assert(k == x);
    } else if x.len() == n {
        assert(k == x);
        assert(keep_last(x.push(e), n) =~= x.drop_first().push(e));
    } else {
        assert(keep_last(x.push(e), n) =~= k.drop_first().push(e));
    }
}

fn entry_of(stamp: &Vec<char>, part: &Vec<char>) -> (r: String)
    ensures
        r@ == entry_text(stamp@, part@),
{
    let mut end = part.len();
    assert(part@.subrange(0, part.len() as int) =~= part@);
    while end > 0 && part[end - 1] == '\r'
        invariant
            end <= part.len(),
            trim_end_cr(part@) == trim_end_cr(part@.subrange(0, end as int)),
        decreases end,
    {
        assert(part@.subrange(0, end as int).drop_last() =~= part@.subrange(0, end - 1));
        end = end - 1;
    }
    let mut out = stamp.clone();
    out.push(' ');
    let mut i: usize = 0;
    let ghost base = out@;
    while i < end
        invariant
            i <= end <= part.len(),
            out@ == base + part@.subrange(0, i as int),
        decreases end - i,
    {
        out.push(part[i]);
        i = i + 1;
        assert(part@.subrange(0, i as int) =~= part@.subrange(0, i - 1).push(part@[i - 1]));
    }
    assert(end == 0 || part@.subrange(0, end as int).last() != '\r');
    assert(trim_end_cr(part@.subrange(0, end as int)) == part@.subrange(0, end as int));
    string_of(out)
}

/// Appends a message, one entry per `\n`-separated part, each prefixed with
/// `timestamp` (`HH:MM:SS.mmm`) and stripped of trailing `\r`; the oldest
/// entries are dropped so that at most `CAPACITY` remain.
pub fn push(buf: &mut LogBuffer, line: &str, timestamp: &str)
    ensures
        final(buf)@ == keep_last(old(buf)@ + entries(timestamp@, line@), CAPACITY as nat),
        final(buf)@.len() <= CAPACITY,
        final(buf).spec_generation() == old(buf).spec_generation().wrapping_add(1),
{
    proof {
        use_type_invariant(&*buf);
    }
    let stamp = chars_of(timestamp);
    let text = chars_of(line);
    let parts = split_chars(&text, '\n');
    let ghost start = buf@;
    let ghost all = entries(timestamp@, line@);
    assert(keep_last(start, CAPACITY as nat) == start);
    assert(start + all.subrange(0, 0) =~= start);
    let mut lines: VecDeque<String> = VecDeque::new();
    std::mem::swap(&mut lines, &mut buf.lines);
    let mut k: usize = 0;
    while k < parts.len()
        invariant
            k <= parts.len(),
            views(parts@) == split_on(line@, '\n'),
            all == entries(timestamp@, line@),
            all.len() == parts@.len(),
            stamp@ == timestamp@,
            lines@.len() <= CAPACITY,
            texts(lines@) == keep_last(
                start + all.subrange(0, k as int),
                CAPACITY as nat,
            ),
        decreases parts.len() - k,
    {
        let e = entry_of(&stamp, &parts[k]);
        assert(e@ == all[k as int]);
        let ghost before = texts(lines@);
        proof {
            lemma_keep_last_push(start + all.subrange(0, k as int), all[k as int], CAPACITY as nat);
            assert((start + all.subrange(0, k as int)).push(all[k as int]) =~= start
                + all.subrange(0, k + 1));
        }
        if lines.len() >= CAPACITY {
            let _ = lines.pop_front();
            assert(texts(lines@) =~= before.drop_first());
        }
        let ghost mid = lines@;
        lines.push_back(e);
        assert(texts(lines@) =~= texts(mid).push(e@));
        k = k + 1;
    }
    assert(all.subrange(0, parts.len() as int) =~= all);
    buf.lines = lines;
    buf.generation = buf.generation.wrapping_add(1);
}

/// All entries, oldest first.
pub fn snapshot(buf: &LogBuffer) -> (r: Vec<String>)
    ensures
        texts(r@) == buf@,
{
    let mut out: Vec<String> = Vec::new();
    let mut i: usize = 0;
    while i < buf.lines.len()
        invariant
            i <= buf.lines@.len(),
            texts(out@) == buf@.subrange(0, i as int),
        decreases buf.lines@.len() - i,
    {
        let s = buf.lines[i].clone();
        assert(s@ == buf@[i as int]);
        let ghost o0 = out@;
        out.push(s);
        assert(texts(out@) =~= texts(o0).push(s@));
        assert(texts(out@) =~= buf@.subrange(0, i + 1));
        i = i + 1;
    }
    assert(buf@.subrange(0, buf.lines@.len() as int) =~= buf@);
    out
}

/// The newest `count` entries (all, if fewer), oldest first.
pub fn recent(buf: &LogBuffer, count: usize) -> (r: Vec<String>)
    ensures
        texts(r@) == keep_last(buf@, count as nat),
{
    let n = buf.lines.len();
    let skip = n.saturating_sub(count);
    let mut out: Vec<String> = Vec::new();
    let mut i = skip;
    while i < n
        invariant
            n == buf.lines@.len(),
            skip <= i <= n,
            texts(out@) == buf@.subrange(skip as int, i as int),
        decreases n - i,
    {
        let s = buf.lines[i].clone();
        assert(s@ == buf@[i as int]);
        let ghost o0 = out@;
        out.push(s);
        assert(texts(out@) =~= texts(o0).push(s@));
        assert(texts(out@) =~= buf@.subrange(skip as int, i + 1));
        i = i + 1;
    }
    assert(keep_last(buf@, count as nat) =~= buf@.subrange(skip as int, n as int));
    out
}

/// Number of entries held.
pub fn len(buf: &LogBuffer) -> (n: usize)
    ensures
        n == buf@.len(),
        n <= CAPACITY,
{
    proof {
        use_type_invariant(buf);
    }
    buf.lines.len()
}

/// Number of `push` calls so far (wrapping): every push moves it.
pub fn generation(buf: &LogBuffer) -> (g: u64)
    ensures
        g == buf.spec_generation(),
{
    buf.generation
}

/// ASCII lowercase code of a character (other characters unchanged).
pub open spec fn lower_code(c: char) -> u32 {
    if 'A' <= c && c <= 'Z' {
        (c as u32 + 32) as u32
    } else {
        c as u32
    }
}

fn lower_code_exec(c: char) -> (r: u32)
    ensures
        r == lower_code(c),
{
    if 'A' <= c && c <= 'Z' {
        c as u32 + 32
    } else {
        c as u32
    }
}

/// `needle` occurs in `s` at `i`, ignoring ASCII case.
pub open spec fn ci_occurs_at(s: Seq<char>, needle: Seq<char>, i: int) -> bool {
    0 <= i && i + needle.len() <= s.len() && forall|j: int|
        0 <= j < needle.len() ==> #[trigger] lower_code(s[i + j]) == lower_code(needle[j])
}

/// First case-insensitive occurrence of `needle` in `s` at or after `from`.
pub open spec fn ci_first_from(s: Seq<char>, needle: Seq<char>, from: int) -> Option<int>
    decreases s.len() + 1 - from,
{
    if from < 0 || from + needle.len() > s.len() {
        None
    } else if ci_occurs_at(s, needle, from) {
        Some(from)
    } else {
        ci_first_from(s, needle, from + 1)
    }
}

/// A path separator.
pub open spec fn is_sep(c: char) -> bool {
    c == '/' || c == '\\'
}

/// `user` (ASCII case ignored) occurs at `at` in `line` as a whole path
/// component: preceded by the line start or a separator, and followed by the
/// line end or a separator.
pub open spec fn whole_component_at(line: Seq<char>, user: Seq<char>, at: int) -> bool {
    &&& ci_occurs_at(line, user, at)
    &&& (at == 0 || is_sep(line[at - 1]))
    &&& (at + user.len() == line.len() || is_sep(line[at + user.len()]))
}

/// `line` from `from` on, with each occurrence of `user` found scanning left
/// to right without overlaps replaced by `[username]` where it is a whole
/// path component of `line` (see [`whole_component_at`]) and kept where it
/// is not.
pub open spec fn spec_mask_from(line: Seq<char>, user: Seq<char>, from: int) -> Seq<char>
    decreases line.len() - from,
{
    if user.len() == 0 || from < 0 || from > line.len() {
        line.subrange(from, line.len() as int)
    } else {
        match ci_first_from(line, user, from) {
            Some(at) => if from <= at && at + user.len() <= line.len() {
                line.subrange(from, at) + (if whole_component_at(line, user, at) {
                    "[username]"@
                } else {
                    line.subrange(at, at + user.len())
                }) + spec_mask_from(line, user, at + user.len())
            } else {
                line.subrange(from, line.len() as int)
            },
            None => line.subrange(from, line.len() as int),
        }
    }
}

/// `line` with every whole-path-component occurrence of `user` replaced by
/// `[username]` (see [`spec_mask_from`]); an empty `user` masks nothing.
pub open spec fn spec_mask(line: Seq<char>, user: Seq<char>) -> Seq<char> {
    if user.len() == 0 {
        line
    } else {
        spec_mask_from(line, user, 0)
    }
}

proof fn lemma_ci_first_bounds(s: Seq<char>, needle: Seq<char>, from: int)
    requires
        0 <= from,
    ensures
        ci_first_from(s, needle, from) matches Some(at) ==> from <= at && at + needle.len() <= s.len()
            && ci_occurs_at(s, needle, at),
    decreases s.len() + 1 - from,
{
    if from + needle.len() <= s.len() && !ci_occurs_at(s, needle, from) {
        lemma_ci_first_bounds(s, needle, from + 1);
    }
}

fn ci_matches_at(s: &Vec<char>, needle: &Vec<char>, i: usize) -> (r: bool)
    requires
        i + needle.len() <= s.len(),
    ensures
        r == ci_occurs_at(s@, needle@, i as int),
{
    let mut k: usize = 0;
    while k < needle.len()
        invariant
            i + needle.len() <= s.len(),
            k <= needle.len(),
            forall|j: int| 0 <= j < k ==> #[trigger] lower_code(s@[i + j]) == lower_code(needle@[j]),
        decreases needle.len() - k,
    {
        if lower_code_exec(s[i + k]) != lower_code_exec(needle[k]) {
            return false;
        }
        k = k + 1;
    }
    true
}

fn ci_find_from(s: &Vec<char>, needle: &Vec<char>, from: usize) -> (r: Option<usize>)
    ensures
        match r {
            Some(i) => ci_first_from(s@, needle@, from as int) == Some(i as int),
            None => ci_first_from(s@, needle@, from as int) is None,
        },
{
    let mut i: usize = from;
    while needle.len() <= s.len() && i <= s.len() - needle.len()
        invariant
            from <= i,
            ci_first_from(s@, needle@, from as int) == ci_first_from(s@, needle@, i as int),
        decreases s.len() + 1 - i,
    {
        if ci_matches_at(s, needle, i) {
            return Some(i);
        }
        if i == s.len() {
            assert(ci_first_from(s@, needle@, i + 1) is None);
            return None;
        }
        i = i + 1;
    }
    None
}

/// Replaces `user` where it forms a whole path component with `[username]`
/// (see [`spec_mask`]).
pub fn mask_name_in_paths(line: &str, user: &str) -> (r: String)
    ensures
        r@ == spec_mask(line@, user@),
{
    let v = chars_of(line);
    let u = chars_of(user);
    let out = mask_chars(&v, &u);
    string_of(out)
}

fn is_sep_exec(c: char) -> (r: bool)
    ensures
        r == is_sep(c),
{
    c == '/' || c == '\\'
}

fn mask_chars(line: &Vec<char>, user: &Vec<char>) -> (r: Vec<char>)
    ensures
        r@ == spec_mask(line@, user@),
{
    if user.len() == 0 {
        return line.clone();
    }
    let ul = user.len();
    let n = line.len();
    let mut out: Vec<char> = Vec::new();
    let mut from: usize = 0;
    assert(out@ + spec_mask_from(line@, user@, 0) =~= spec_mask_from(line@, user@, 0));
    loop
        invariant
            ul == user@.len() > 0,
            n == line@.len(),
            from <= n,
            out@ + spec_mask_from(line@, user@, from as int) == spec_mask(line@, user@),
        decreases n - from,
    {
        match ci_find_from(line, user, from) {
            None => {
                let mut t = from;
                let ghost o0 = out@;
                while t < n
                    invariant
                        from <= t <= n,
                        n == line@.len(),
                        out@ == o0 + line@.subrange(from as int, t as int),
                    decreases n - t,
                {
                    out.push(line[t]);
                    t = t + 1;
                    assert(line@.subrange(from as int, t as int) =~= line@.subrange(
                        from as int,
                        t - 1,
                    ).push(line@[t - 1]));
                }
                assert(out@ =~= o0 + spec_mask_from(line@, user@, from as int));
                return out;
            },
            Some(at) => {
                proof {
                    lemma_ci_first_bounds(line@, user@, from as int);
                }
                let after = at + ul;
                let before_ok = at == 0 || is_sep_exec(line[at - 1]);
                let after_ok = after == n || is_sep_exec(line[after]);
                let ghost o0 = out@;
                let mut i: usize = from;
                while i < at
                    invariant
                        from <= i <= at <= n,
                        n == line@.len(),
                        out@ == o0 + line@.subrange(from as int, i as int),
                    decreases at - i,
                {
                    out.push(line[i]);
                    i = i + 1;
                    assert(line@.subrange(from as int, i as int) =~= line@.subrange(
                        from as int,
                        i - 1,
                    ).push(line@[i - 1]));
                }
                let ghost o1 = out@;
                if before_ok && after_ok {
                    push_str(&mut out, "[username]");
                } else {
                    let mut j = at;
                    while j < after
                        invariant
                            at <= j <= after <= n,
                            n == line@.len(),
                            out@ == o1 + line@.subrange(at as int, j as int),
                        decreases after - j,
                    {
                        out.push(line[j]);
                        j = j + 1;
                        assert(line@.subrange(at as int, j as int) =~= line@.subrange(
                            at as int,
                            j - 1,
                        ).push(line@[j - 1]));
                    }
                }
                proof {
                    let mid = if whole_component_at(line@, user@, at as int) {
                        "[username]"@
                    } else {
                        line@.subrange(at as int, after as int)
                    };
                    assert(before_ok && after_ok <==> whole_component_at(
                        line@,
                        user@,
                        at as int,
                    ));
                    assert(out@ =~= o0 + line@.subrange(from as int, at as int) + mid);
                    assert(spec_mask_from(line@, user@, from as int) == line@.subrange(
                        from as int,
                        at as int,
                    ) + mid + spec_mask_from(line@, user@, after as int));
                    assert(out@ + spec_mask_from(line@, user@, after as int) =~= o0
                        + spec_mask_from(line@, user@, from as int));
                }
                from = after;
            },
        }
    }
}

/// Bytes the UTF-8 encoding of `c` takes.
pub open spec fn utf8_width(c: char) -> nat {
    if (c as u32) < 0x80 {
        1
    } else if (c as u32) < 0x800 {
        2
    } else if (c as u32) < 0x10000 {
        3
    } else {
        4
    }
}

/// Bytes the UTF-8 encoding of `s` takes (`str::len`).
pub open spec fn utf8_len(s: Seq<char>) -> nat
    decreases s.len(),
{
    if s.len() == 0 {
        0
    } else {
        utf8_len(s.drop_last()) + utf8_width(s.last())
    }
}

/// Whether the UTF-8 encoding of `s` takes more than `limit` bytes.
pub fn utf8_len_above(s: &Vec<char>, limit: u64) -> (r: bool)
    requires
        limit < u64::MAX - 4,
    ensures
        r == (utf8_len(s@) > limit),
{
    let mut total: u64 = 0;
    let mut i: usize = 0;
    while i < s.len()
        invariant
            i <= s.len(),
            limit < u64::MAX - 4,
            total == utf8_len(s@.subrange(0, i as int)),
            total <= limit,
        decreases s.len() - i,
    {
        let c = s[i] as u32;
        let w: u64 = if c < 0x80 {
            1
        } else if c < 0x800 {
            2
        } else if c < 0x10000 {
            3
        } else {
            4
        };
        assert(s@.subrange(0, i + 1).drop_last() =~= s@.subrange(0, i as int));
        total = total + w;
        i = i + 1;
        if total > limit {
            proof {
                lemma_utf8_len_prefix(s@, i as int);
            }
            return true;
        }
    }
    assert(s@.subrange(0, s.len() as int) =~= s@);
    false
}

proof fn lemma_utf8_len_prefix(s: Seq<char>, i: int)
    requires
        0 <= i <= s.len(),
    ensures
        utf8_len(s.subrange(0, i)) <= utf8_len(s),
    decreases s.len() - i,
{
    if i < s.len() {
        lemma_utf8_len_prefix(s, i + 1);
        assert(s.subrange(0, i + 1).drop_last() =~= s.subrange(0, i));
    } else {
        assert(s.subrange(0, i) =~= s);
    }
}

/// The account name to mask: the first of the candidate environment values
/// (`USERNAME`, `USER`, `LOGNAME`, in that order) whose trimmed form is at
/// least three bytes long in UTF-8, trimmed.
pub open spec fn spec_current_user_name(values: Seq<Option<String>>) -> Option<Seq<char>>
    decreases values.len(),
{
    if values.len() == 0 {
        None
    } else {
        match values[0] {
            Some(v) if utf8_len(trim(v@)) >= 3 => Some(trim(v@)),
            _ => spec_current_user_name(values.drop_first()),
        }
    }
}

/// See [`spec_current_user_name`].
pub fn current_user_name(values: &Vec<Option<String>>) -> (r: Option<String>)
    ensures
        match spec_current_user_name(values@) {
            Some(u) => r matches Some(s) && s@ == u,
            None => r is None,
        },
{
    let mut i: usize = 0;
    assert(values@.subrange(0, values.len() as int) =~= values@);
    while i < values.len()
        invariant
            i <= values.len(),
            spec_current_user_name(values@) == spec_current_user_name(values@.subrange(
                i as int,
                values.len() as int,
            )),
        decreases values.len() - i,
    {
        let ghost rest = values@.subrange(i as int, values.len() as int);
        assert(rest.drop_first() =~= values@.subrange(i + 1, values.len() as int));
        match &values[i] {
            Some(v) => {
                let vc = chars_of(v.as_str());
                let t = trim_chars(&vc);
                if utf8_len_above(&t, 2) {
                    return Some(string_of(t));
                }
            },
            None => {},
        }
        i = i + 1;
    }
    None
}

/// Masks the account name in paths of `line`; `user` is the name from
/// [`current_user_name`], and without one the line is unchanged.
pub fn mask_user_paths(line: &str, user: Option<&str>) -> (r: String)
    ensures
        match user {
            Some(u) => r@ == spec_mask(line@, u@),
            None => r@ == line@,
        },
{
    match user {
        Some(u) => mask_name_in_paths(line, u),
        None => {
            let v = chars_of(line);
            string_of(v)
        },
    }
}

/// The marker of the input listener's key-press lines.
pub open spec fn key_press_marker() -> Seq<char> {
    "Sending key press:"@
}

/// A line with any key identity cut off: from the first `Sending key press:`
/// on, the rest reads `Sending key press: [redacted]`.
pub open spec fn spec_redact(line: Seq<char>) -> Seq<char> {
    match first_occurrence_from(line, key_press_marker(), 0) {
        Some(at) => line.subrange(0, at) + "Sending key press: [redacted]"@,
        None => line,
    }
}

/// See [`spec_redact`]. Key identities never leave the machine in an export;
/// the live buffer keeps them for local debugging.
pub fn redact_key_identities(line: &str) -> (r: String)
    ensures
        r@ == spec_redact(line@),
{
    let v = chars_of(line);
    let marker = chars_of("Sending key press:");
    match find_from(&v, &marker, 0) {
        Some(at) => {
            proof {
                lemma_first_occurrence_finds(v@, marker@, 0);
            }
            let mut out: Vec<char> = Vec::new();
            let mut i: usize = 0;
            while i < at
                invariant
                    i <= at <= v.len(),
                    out@ == v@.subrange(0, i as int),
                decreases at - i,
            {
                out.push(v[i]);
                i = i + 1;
                assert(v@.subrange(0, i as int) =~= v@.subrange(0, i - 1).push(v@[i - 1]));
            }
            push_str(&mut out, "Sending key press: [redacted]");
            string_of(out)
        },
        None => string_of(v),
    }
}

/// The header of a log export.
pub open spec fn spec_export_header(
    version: Seq<char>,
    os: Seq<char>,
    arch: Seq<char>,
    exported_at: Seq<char>,
    lines: nat,
) -> Seq<char> {
    "Sorakey log export\nApp version: "@ + version + "\nOS: "@ + os + " ("@ + arch
        + ")\nExported at: "@ + exported_at + "\nVerbose logging: off\nLines captured: "@
        + decimal(lines) + " (buffer holds up to 2000)\n"@ + Seq::new(60, |i: int| '-') + "\n"@
}

/// The export header: app version, OS and architecture, export time, and how
/// many lines the buffer holds.
pub fn export_header(
    buf: &LogBuffer,
    version: &str,
    os: &str,
    arch: &str,
    exported_at: &str,
) -> (r: String)
    ensures
        r@ == spec_export_header(version@, os@, arch@, exported_at@, buf@.len()),
{
    let n = len(buf);
    let mut out: Vec<char> = Vec::new();
    push_str(&mut out, "Sorakey log export\nApp version: ");
    push_str(&mut out, version);
    push_str(&mut out, "\nOS: ");
    push_str(&mut out, os);
    push_str(&mut out, " (");
    push_str(&mut out, arch);
    push_str(&mut out, ")\nExported at: ");
    push_str(&mut out, exported_at);
    push_str(&mut out, "\nVerbose logging: off\nLines captured: ");
    push_decimal(&mut out, n as u64);
    push_str(&mut out, " (buffer holds up to 2000)\n");
    let ghost d0 = out@;
    let mut i: usize = 0;
    while i < 60
        invariant
            i <= 60,
            out@ == d0 + Seq::new(i as nat, |k: int| '-'),
        decreases 60 - i,
    {
        out.push('-');
        i = i + 1;
        assert(Seq::new(i as nat, |k: int| '-') =~= Seq::new((i - 1) as nat, |k: int| '-').push('-'));
    }
    push_str(&mut out, "\n");
    string_of(out)
}

/// The text of one exported entry.
pub open spec fn exported_line(line: Seq<char>, user: Option<Seq<char>>) -> Seq<char> {
    match user {
        Some(u) => spec_mask(spec_redact(line), u),
        None => spec_redact(line),
    }
}

/// The exported entries, each followed by a newline.
pub open spec fn exported_lines(lines: Seq<Seq<char>>, user: Option<Seq<char>>) -> Seq<char>
    decreases lines.len(),
{
    if lines.len() == 0 {
        Seq::empty()
    } else {
        exported_lines(lines.drop_last(), user) + exported_line(lines.last(), user) + "\n"@
    }
}

proof fn lemma_exported_lines_append(a: Seq<Seq<char>>, b: Seq<Seq<char>>, user: Option<Seq<char>>)
    ensures
        exported_lines(a + b, user) == exported_lines(a, user) + exported_lines(b, user),
    decreases b.len(),
{
    if b.len() == 0 {
        assert(a + b =~= a);
        assert(exported_lines(a, user) + exported_lines(b, user) =~= exported_lines(a, user));
    } else {
        lemma_exported_lines_append(a, b.drop_last(), user);
        assert((a + b).drop_last() =~= a + b.drop_last());
        assert((a + b).last() == b.last());
        assert(exported_lines(a + b, user) =~= exported_lines(a, user) + exported_lines(b, user));
    }
}

/// Each entry of an export stands in its own place: the text of entry `j`
/// comes after the entries before it and before those after it.
pub proof fn lemma_export_keeps_each_line_in_place(
    lines: Seq<Seq<char>>,
    user: Option<Seq<char>>,
    j: int,
)
    requires
        0 <= j < lines.len(),
    ensures
        exported_lines(lines, user) == exported_lines(lines.take(j), user) + exported_line(
            lines[j],
            user,
        ) + "\n"@ + exported_lines(lines.skip(j + 1), user),
{
    let front = lines.take(j + 1);
    assert(lines =~= front + lines.skip(j + 1));
    lemma_exported_lines_append(front, lines.skip(j + 1), user);
    assert(front.drop_last() =~= lines.take(j));
    assert(front.last() == lines[j]);
}

/// A key-press line loses its key identity: when the text before the
/// marker holds no marker, everything after the marker is replaced by
/// `[redacted]`.
pub proof fn lemma_redaction_hides_the_key(p: Seq<char>, k: Seq<char>)
    requires
        !contains_seq(p, key_press_marker()),
    ensures
        spec_redact(p + "Sending key press: "@ + k) == p + "Sending key press: [redacted]"@,
{
    reveal_strlit("Sending key press:");
    reveal_strlit("Sending key press: ");
    let m = key_press_marker();
    let lead = "Sending key press: "@;
    let s = p + lead + k;
    assert(m.len() == 18);
    assert(lead.len() == 19);
    assert(s.subrange(p.len() as int, p.len() + 18int) =~= m);
    assert(occurs_at(s, m, p.len() as int));
    assert forall|i: int| 0 <= i < p.len() implies !occurs_at(s, m, i) by {
        if occurs_at(s, m, i) {
            if i + 18 <= p.len() {
                assert(s.subrange(i, i + 18) =~= p.subrange(i, i + 18));
                assert(occurs_at(p, m, i));
            } else {
                assert(s.subrange(i, i + 18)[17] == m[17]);
                assert(s[i + 17] == lead[i + 17 - p.len()]);
                assert(m[17] == ':');
            }
        }
    }
    lemma_first_occurrence_finds(s, m, 0);
    assert(s.subrange(0, p.len() as int) =~= p);
}

/// An export shows a key-press entry in its own place with the key cut off:
/// when entry `j` is `p` + `Sending key press: ` + a key, and `p` holds no
/// marker, the export holds `p` + `Sending key press: [redacted]` (with the
/// account name masked) there, and nothing of the key.
pub proof fn lemma_export_hides_key_presses(
    lines: Seq<Seq<char>>,
    user: Option<Seq<char>>,
    j: int,
    p: Seq<char>,
    k: Seq<char>,
)
    requires
        0 <= j < lines.len(),
        lines[j] == p + "Sending key press: "@ + k,
        !contains_seq(p, key_press_marker()),
    ensures
        exported_lines(lines, user) == exported_lines(lines.take(j), user) + (match user {
            Some(u) => spec_mask(p + "Sending key press: [redacted]"@, u),
            None => p + "Sending key press: [redacted]"@,
        }) + "\n"@ + exported_lines(lines.skip(j + 1), user),
{
    lemma_export_keeps_each_line_in_place(lines, user, j);
    lemma_redaction_hides_the_key(p, k);
}

/// The whole export: the masked header, then every entry, oldest first, with
/// key identities redacted and the account name masked.
pub fn export_contents(
    buf: &LogBuffer,
    version: &str,
    os: &str,
    arch: &str,
    exported_at: &str,
    user: Option<&str>,
) -> (r: String)
    ensures
        ({
            let u = match user {
                Some(u) => Some(u@),
                None => None,
            };
            let header = spec_export_header(version@, os@, arch@, exported_at@, buf@.len());
            r@ == (match u {
                Some(uu) => spec_mask(header, uu),
                None => header,
            }) + exported_lines(buf@, u)
        }),
{
    let header = export_header(buf, version, os, arch, exported_at);
    let masked = mask_user_paths(header.as_str(), user);
    let mut out = chars_of(masked.as_str());
    let ghost h = out@;
    let lines = snapshot(buf);
    let ghost u = match user {
        Some(u) => Some(u@),
        None => None,
    };
    let mut i: usize = 0;
    while i < lines.len()
        invariant
            i <= lines.len(),
            texts(lines@) == buf@,
            out@ == h + exported_lines(buf@.subrange(0, i as int), u),
            u == (match user {
                Some(uu) => Some(uu@),
                None => None,
            }),
        decreases lines.len() - i,
    {
        let red = redact_key_identities(lines[i].as_str());
        let m = mask_user_paths(red.as_str(), user);
        let mc = chars_of(m.as_str());
        assert(buf@.subrange(0, i + 1).drop_last() =~= buf@.subrange(0, i as int));
        assert(buf@.subrange(0, i + 1).last() == lines@[i as int]@);
        push_all(&mut out, &mc);
        push_str(&mut out, "\n");
        i = i + 1;
    }
    assert(buf@.subrange(0, lines.len() as int) =~= buf@);
    string_of(out)
}

} // verus!
