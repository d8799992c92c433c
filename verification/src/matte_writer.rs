//! Naming and sizing of the solid-colour matte images written into a
//! project's `media/` directory.
use crate::paths::{path_join, path_join_of};
use crate::text::{
    append_decimal, decimal, lemma_trim_end_char_prefix, lemma_trim_start_char_suffix, push_char,
    trim, trim_end_char, trim_spec, trim_start_char,
};
use vstd::prelude::*;

verus! {

/// Largest matte side, in pixels.
pub const MATTE_MAX_SIDE: i64 = 16384;
/// Longest slug kept in a matte file name, in characters.
pub const SLUG_MAX_CHARS: usize = 40;

/// Writes mattes into one project package's `media/` directory.
pub struct ProjectMatteWriter {
    pub project_root: String,
}

impl ProjectMatteWriter {
    pub fn new(project_root: String) -> (w: Self)
        ensures
            w.project_root@ == project_root@,
    {
        Self { project_root }
    }

    /// The project's media directory.
    pub fn media_dir(&self) -> (d: String)
        ensures
            d@ == path_join_of(self.project_root@, "media"@),
    {
        path_join(self.project_root.as_str(), "media")
    }
}

pub open spec fn is_ascii_alnum(c: char) -> bool {
    ||| '0' <= c <= '9'
    ||| 'a' <= c <= 'z'
    ||| 'A' <= c <= 'Z'
}

pub open spec fn ascii_lower(c: char) -> char {
    if 'A' <= c <= 'Z' {
        ((c as int) + 32) as char
    } else {
        c
    }
}

/// Slug character: ASCII alphanumerics lowercased, anything else `-`.
pub open spec fn slug_char(c: char) -> char {
    if is_ascii_alnum(c) {
        ascii_lower(c)
    } else {
        '-'
    }
}

/// `s` with every run of consecutive `-` reduced to one `-`.
pub open spec fn collapse_dashes(s: Seq<char>) -> Seq<char>
    decreases s.len(),
{
    if s.len() == 0 {
        Seq::empty()
    } else {
        let r = collapse_dashes(s.drop_last());
        if s.last() == '-' && r.len() > 0 && r.last() == '-' {
            r
        } else {
            r.push(s.last())
        }
    }
}

/// Filesystem-safe slug of a display name: trimmed, ASCII alphanumerics
/// lowercased, each run of other characters collapsed to one `-`, outer
/// dashes dropped, at most 40 characters; `matte` when nothing is left.
pub open spec fn slugify_spec(name: Seq<char>) -> Seq<char> {
    let raw = trim_spec(name).map_values(|c: char| slug_char(c));
    let core = trim_end_char(trim_start_char(collapse_dashes(raw), '-'), '-');
    if core.len() == 0 {
        "matte"@
    } else if core.len() > SLUG_MAX_CHARS {
        core.take(SLUG_MAX_CHARS as int)
    } else {
        core
    }
}

fn slug_char_exec(c: char) -> (r: char)
    ensures
        r == slug_char(c),
{
    if 'A' <= c && c <= 'Z' {
        proof {
            assert(((c as int) + 32) as char == ((c as u8 + 32u8) as char));
        }
        ((c as u8) + 32) as char
    } else if ('a' <= c && c <= 'z') || ('0' <= c && c <= '9') {
        c
    } else {
        '-'
    }
}

/// No two dashes stand side by side in `s`.
pub open spec fn no_double_dash(s: Seq<char>) -> bool {
    forall|j: int| 0 <= j < s.len() - 1 ==> !(#[trigger] s[j] == '-' && s[j + 1] == '-')
}

proof fn lemma_collapse_no_double_dash(s: Seq<char>)
    ensures
        no_double_dash(collapse_dashes(s)),
    decreases s.len(),
{
    if s.len() > 0 {
        lemma_collapse_no_double_dash(s.drop_last());
        let r = collapse_dashes(s.drop_last());
        let t = collapse_dashes(s);
        if !(s.last() == '-' && r.len() > 0 && r.last() == '-') {
            assert forall|j: int| 0 <= j < t.len() - 1 implies !(#[trigger] t[j] == '-' && t[j + 1] == '-') by {
                if j + 1 < r.len() {
                    assert(t[j] == r[j] && t[j + 1] == r[j + 1]);
                }
            }
        }
    }
}

proof fn lemma_trims_keep_no_double_dash(s: Seq<char>)
    requires
        no_double_dash(s),
    ensures
        no_double_dash(trim_start_char(s, '-')),
        no_double_dash(trim_end_char(s, '-')),
        forall|n: int| 0 <= n <= s.len() ==> no_double_dash(#[trigger] s.take(n)),
    decreases s.len(),
{
    if s.len() > 0 {
        assert(no_double_dash(s.drop_first())) by {
            assert forall|j: int| 0 <= j < s.drop_first().len() - 1 implies !(#[trigger] s.drop_first()[j] == '-' && s.drop_first()[j + 1] == '-') by {
                assert(s.drop_first()[j] == s[j + 1] && s.drop_first()[j + 1] == s[j + 2]);
            }
        }
        assert(no_double_dash(s.drop_last())) by {
            assert forall|j: int| 0 <= j < s.drop_last().len() - 1 implies !(#[trigger] s.drop_last()[j] == '-' && s.drop_last()[j + 1] == '-') by {
                assert(s.drop_last()[j] == s[j] && s.drop_last()[j + 1] == s[j + 1]);
            }
        }
        lemma_trims_keep_no_double_dash(s.drop_first());
        lemma_trims_keep_no_double_dash(s.drop_last());
    }
    assert forall|n: int| 0 <= n <= s.len() implies no_double_dash(#[trigger] s.take(n)) by {
        assert forall|j: int| 0 <= j < s.take(n).len() - 1 implies !(#[trigger] s.take(n)[j] == '-' && s.take(n)[j + 1] == '-') by {
            assert(s.take(n)[j] == s[j] && s.take(n)[j + 1] == s[j + 1]);
        }
    }
}

/// A slug never holds two dashes in a row: each run of characters other
/// than ASCII letters and digits becomes a single `-`.
pub proof fn lemma_slug_has_no_double_dash(name: Seq<char>)
    ensures
        no_double_dash(slugify_spec(name)),
{
    let raw = trim_spec(name).map_values(|c: char| slug_char(c));
    let col = collapse_dashes(raw);
    lemma_collapse_no_double_dash(raw);
    lemma_trims_keep_no_double_dash(col);
    let a = trim_start_char(col, '-');
    lemma_trims_keep_no_double_dash(a);
    let core = trim_end_char(a, '-');
    lemma_trims_keep_no_double_dash(core);
    if core.len() > SLUG_MAX_CHARS {
        assert(no_double_dash(core.take(SLUG_MAX_CHARS as int)));
    }
    reveal_strlit("matte");
}

/// Filesystem-safe slug from a display name.
pub fn slugify(name: &str) -> (s: String)
    ensures
        s@ == slugify_spec(name@),
{
    let t = trim(name);
    let n = t.unicode_len();
    let ghost raw = trim_spec(name@).map_values(|c: char| slug_char(c));
    let mut chars: Vec<char> = Vec::new();
    let mut i: usize = 0;
    while i < n
        invariant
            n == t@.len(),
            t@ == trim_spec(name@),
            raw == t@.map_values(|c: char| slug_char(c)),
            0 <= i <= n,
            chars@ == collapse_dashes(raw.subrange(0, i as int)),
        decreases n - i,
    {
        let c = slug_char_exec(t.get_char(i));
        assert(raw.subrange(0, i + 1).drop_last() =~= raw.subrange(0, i as int));
        assert(raw.subrange(0, i + 1).last() == c);
        if !(c == '-' && chars.len() > 0 && chars[chars.len() - 1] == '-') {
            chars.push(c);
        }
        i += 1;
    }
    assert(raw.subrange(0, n as int) =~= raw);
    let ghost col = collapse_dashes(raw);
    let m = chars.len();
    let mut lo: usize = 0;
    while lo < m && chars[lo] == '-'
        invariant
            chars@ == col,
            m == col.len(),
            0 <= lo <= m,
            forall|j: int| 0 <= j < lo ==> col[j] == '-',
        decreases m - lo,
    {
        lo += 1;
    }
    let mut hi: usize = m;
    while hi > lo && chars[hi - 1] == '-'
        invariant
            chars@ == col,
            m == col.len(),
            lo <= hi <= m,
            forall|j: int| hi <= j < m ==> col[j] == '-',
        decreases hi,
    {
        hi -= 1;
    }
    let ghost after_start = col.subrange(lo as int, m as int);
    proof {
        lemma_trim_start_char_suffix(col, '-', lo as int);
        lemma_trim_end_char_prefix(after_start, '-', (hi - lo) as int);
        assert(after_start.subrange(0, (hi - lo) as int) =~= col.subrange(lo as int, hi as int));
    }
    let ghost core = col.subrange(lo as int, hi as int);
    if lo == hi {
        return String::from_str("matte");
    }
    let end = if hi - lo > SLUG_MAX_CHARS { lo + SLUG_MAX_CHARS } else { hi };
    let mut s = String::new();
    let mut k: usize = lo;
    while k < end
        invariant
            chars@ == col,
            lo <= k <= end <= hi <= m,
            m == col.len(),
            s@ == col.subrange(lo as int, k as int),
        decreases end - k,
    {
        push_char(&mut s, chars[k]);
        assert(s@ =~= col.subrange(lo as int, k + 1));
        k += 1;
    }
    assert(hi - lo > SLUG_MAX_CHARS ==> s@ =~= core.take(SLUG_MAX_CHARS as int));
    assert(hi - lo <= SLUG_MAX_CHARS ==> s@ =~= core);
    s
}

/// Side length actually rendered for a requested matte side.
pub open spec fn matte_side(requested: i64) -> u32 {
    if requested < 1 {
        1
    } else if requested > MATTE_MAX_SIDE {
        MATTE_MAX_SIDE as u32
    } else {
        requested as u32
    }
}

/// Rendered (width, height): each side clamped to 1..=16384.
pub fn matte_dimensions(width: i64, height: i64) -> (r: (u32, u32))
    ensures
        r == (matte_side(width), matte_side(height)),
{
    let w = if width < 1 { 1 } else if width > MATTE_MAX_SIDE { MATTE_MAX_SIDE } else { width };
    let h = if height < 1 { 1 } else if height > MATTE_MAX_SIDE { MATTE_MAX_SIDE } else { height };
    (w as u32, h as u32)
}

/// `matte-<slug>-<stamp>.png`.
pub open spec fn matte_file_name_spec(base_name: Seq<char>, stamp: nat) -> Seq<char> {
    "matte-"@ + slugify_spec(base_name) + "-"@ + decimal(stamp) + ".png"@
}

/// File name of a matte written at time stamp `stamp` (nanoseconds).
pub fn matte_file_name(base_name: &str, stamp: u128) -> (f: String)
    ensures
        f@ == matte_file_name_spec(base_name@, stamp as nat),
{
    let mut f = String::from_str("matte-");
    let slug = slugify(base_name);
    f.append(slug.as_str());
    f.append("-");
    append_decimal(&mut f, stamp);
    f.append(".png");
    f
}

/// Project-relative path of a matte file: `media/<file>`.
pub fn matte_relative_path(file: &str) -> (p: String)
    ensures
        p@ == "media/"@ + file@,
{
    let mut p = String::from_str("media/");
    p.append(file);
    p
}

/// Characters a slug may hold: ASCII digits, lowercase ASCII letters and `-`.
pub open spec fn is_slug_char(c: char) -> bool {
    ||| '0' <= c <= '9'
    ||| 'a' <= c <= 'z'
    ||| c == '-'
}

proof fn lemma_slug_char_ok(c: char)
    ensures
        is_slug_char(slug_char(c)),
{
    if 'A' <= c <= 'Z' {
        assert('a' <= ((c as int) + 32) as char <= 'z');
    }
}

proof fn lemma_collapse_keeps_chars(s: Seq<char>)
    ensures
        forall|j: int| 0 <= j < collapse_dashes(s).len() ==> exists|i: int| 0 <= i < s.len() && s[i] == #[trigger] collapse_dashes(s)[j],
    decreases s.len(),
{
    if s.len() > 0 {
        lemma_collapse_keeps_chars(s.drop_last());
        let r = collapse_dashes(s.drop_last());
        assert forall|j: int| 0 <= j < collapse_dashes(s).len() implies exists|i: int| 0 <= i < s.len() && s[i] == #[trigger] collapse_dashes(s)[j] by {
            if j < r.len() {
                assert(collapse_dashes(s)[j] == r[j]);
                let i = choose|i: int| 0 <= i < s.drop_last().len() && s.drop_last()[i] == r[j];
                assert(s[i] == r[j]);
            } else {
                assert(s[s.len() - 1] == collapse_dashes(s)[j]);
            }
        }
    }
}

proof fn lemma_trim_end_char_prefix_of(s: Seq<char>, c: char)
    ensures
        trim_end_char(s, c).len() <= s.len(),
        forall|j: int| 0 <= j < trim_end_char(s, c).len() ==> #[trigger] trim_end_char(s, c)[j] == s[j],
    decreases s.len(),
{
    if s.len() > 0 && s.last() == c {
        lemma_trim_end_char_prefix_of(s.drop_last(), c);
    }
}

proof fn lemma_trim_start_char_suffix_of(s: Seq<char>, c: char)
    ensures
        trim_start_char(s, c).len() <= s.len(),
        forall|j: int| 0 <= j < trim_start_char(s, c).len() ==> #[trigger] trim_start_char(s, c)[j] == s[j + s.len()
            - trim_start_char(s, c).len()],
        trim_start_char(s, c).len() > 0 ==> trim_start_char(s, c)[0] != c,
    decreases s.len(),
{
    if s.len() > 0 && s[0] == c {
        lemma_trim_start_char_suffix_of(s.drop_first(), c);
    }
}

/// A slug is never empty, holds at most forty characters, all of them
/// ASCII digits, lowercase ASCII letters or `-`, and never starts with `-`;
/// when the name leaves fewer than forty characters, it does not end with
/// `-` either.
pub proof fn lemma_slug_shape(name: Seq<char>)
    ensures
        ({
            let g = slugify_spec(name);
            &&& 0 < g.len() <= SLUG_MAX_CHARS
            &&& forall|j: int| 0 <= j < g.len() ==> is_slug_char(#[trigger] g[j])
            &&& g[0] != '-'
            &&& g.len() < SLUG_MAX_CHARS ==> g.last() != '-'
        }),
{
    reveal_strlit("matte");
    let raw = trim_spec(name).map_values(|c: char| slug_char(c));
    assert forall|j: int| 0 <= j < raw.len() implies is_slug_char(#[trigger] raw[j]) by {
        lemma_slug_char_ok(trim_spec(name)[j]);
    }
    let col = collapse_dashes(raw);
    lemma_collapse_keeps_chars(raw);
    assert forall|j: int| 0 <= j < col.len() implies is_slug_char(#[trigger] col[j]) by {
        let i = choose|i: int| 0 <= i < raw.len() && raw[i] == col[j];
    }
    let a = trim_start_char(col, '-');
    lemma_trim_start_char_suffix_of(col, '-');
    assert forall|j: int| 0 <= j < a.len() implies is_slug_char(#[trigger] a[j]) by {
        assert(a[j] == col[j + col.len() - a.len()]);
    }
    let core = trim_end_char(a, '-');
    lemma_trim_end_char_prefix_of(a, '-');
    assert forall|j: int| 0 <= j < core.len() implies is_slug_char(#[trigger] core[j]) by {
        assert(core[j] == a[j]);
    }
    if core.len() > 0 {
        assert(core[0] == a[0]);
        lemma_trim_end_char_last(a, '-');
    }
}

proof fn lemma_trim_end_char_last(s: Seq<char>, c: char)
    ensures
        trim_end_char(s, c).len() > 0 ==> trim_end_char(s, c).last() != c,
    decreases s.len(),
{
    if s.len() > 0 && s.last() == c {
        lemma_trim_end_char_last(s.drop_last(), c);
    }
}

/// Each rendered side lies between one and the maximum side, and a
/// requested side in that range is rendered as asked.
pub proof fn lemma_matte_side_clamped(requested: i64)
    ensures
        1 <= matte_side(requested) <= MATTE_MAX_SIDE,
        1 <= requested <= MATTE_MAX_SIDE ==> matte_side(requested) == requested,
        requested < 1 ==> matte_side(requested) == 1,
        requested > MATTE_MAX_SIDE ==> matte_side(requested) == MATTE_MAX_SIDE,
{
}

} // verus!
