//! The media library grid: how it is organised and ordered, the search and
//! filters over its assets, folder navigation and the multi-selection.
use crate::http_generation_backend::opt_view;
use crate::media_panel_model::ClipType;
use crate::text::{contains_seq, lowercase_of, str_contains, to_lowercase, trim, trim_spec};
use vstd::prelude::*;

verus! {

/// How the grid is organised.
#[derive(Debug, Clone, Copy, PartialEq, Eq, Structural)]
pub enum LibraryViewMode {
    Folders,
    Flat,
    Grouped,
}

pub open spec fn view_mode_title(m: LibraryViewMode) -> Seq<char> {
    match m {
        LibraryViewMode::Folders => "Folders"@,
        LibraryViewMode::Flat => "Flat"@,
        LibraryViewMode::Grouped => "Grouped"@,
    }
}

impl LibraryViewMode {
    pub fn all() -> (r: [LibraryViewMode; 3])
        ensures
            r@ == seq![LibraryViewMode::Folders, LibraryViewMode::Flat, LibraryViewMode::Grouped],
    {
        let r = [LibraryViewMode::Folders, LibraryViewMode::Flat, LibraryViewMode::Grouped];
        assert(r@ =~= seq![LibraryViewMode::Folders, LibraryViewMode::Flat, LibraryViewMode::Grouped]);
        r
    }

    pub fn title(&self) -> (s: &'static str)
        ensures
            s@ == view_mode_title(*self),
    {
        proof {
            reveal_strlit("Folders");
            reveal_strlit("Flat");
            reveal_strlit("Grouped");
        }
        match self {
            LibraryViewMode::Folders => "Folders",
            LibraryViewMode::Flat => "Flat",
            LibraryViewMode::Grouped => "Grouped",
        }
    }
}

impl Default for LibraryViewMode {
    fn default() -> (m: Self)
        ensures
            m == LibraryViewMode::Folders,
    {
        LibraryViewMode::Folders
    }
}

/// How the grid is ordered.
#[derive(Debug, Clone, Copy, PartialEq, Eq, Structural)]
pub enum LibrarySortKey {
    Name,
    DateAdded,
    Duration,
    Type,
}

pub open spec fn sort_key_title(k: LibrarySortKey) -> Seq<char> {
    match k {
        LibrarySortKey::Name => "Name"@,
        LibrarySortKey::DateAdded => "Date Added"@,
        LibrarySortKey::Duration => "Duration"@,
        LibrarySortKey::Type => "Type"@,
    }
}

impl LibrarySortKey {
    pub fn all() -> (r: [LibrarySortKey; 4])
        ensures
            r@ == seq![LibrarySortKey::Name, LibrarySortKey::DateAdded, LibrarySortKey::Duration, LibrarySortKey::Type],
    {
        let r = [LibrarySortKey::Name, LibrarySortKey::DateAdded, LibrarySortKey::Duration, LibrarySortKey::Type];
        assert(r@ =~= seq![LibrarySortKey::Name, LibrarySortKey::DateAdded, LibrarySortKey::Duration, LibrarySortKey::Type]);
        r
    }

    pub fn title(&self) -> (s: &'static str)
        ensures
            s@ == sort_key_title(*self),
    {
        proof {
            reveal_strlit("Name");
            reveal_strlit("Date Added");
            reveal_strlit("Duration");
            reveal_strlit("Type");
        }
        match self {
            LibrarySortKey::Name => "Name",
            LibrarySortKey::DateAdded => "Date Added",
            LibrarySortKey::Duration => "Duration",
            LibrarySortKey::Type => "Type",
        }
    }
}

impl Default for LibrarySortKey {
    fn default() -> (k: Self)
        ensures
            k == LibrarySortKey::DateAdded,
    {
        LibrarySortKey::DateAdded
    }
}

/// View state of the media library: search, filters, navigation and
/// selection.
#[derive(Debug, Clone)]
pub struct LibraryState {
    pub search_query: String,
    pub view_mode: LibraryViewMode,
    pub sort_key: LibrarySortKey,
    /// Kinds that pass the filter; empty lets every kind pass.
    pub type_filter: Vec<ClipType>,
    pub filter_ai: bool,
    pub current_folder: Option<String>,
    pub selection: Vec<String>,
    /// The last plainly clicked or toggled id; a range extends from here.
    pub selection_anchor: Option<String>,
}

/// The library state as plain values.
#[verifier::ext_equal]
pub struct LibraryView {
    pub search_query: Seq<char>,
    pub view_mode: LibraryViewMode,
    pub sort_key: LibrarySortKey,
    pub type_filter: Seq<ClipType>,
    pub filter_ai: bool,
    pub current_folder: Option<Seq<char>>,
    pub selection: Seq<Seq<char>>,
    pub selection_anchor: Option<Seq<char>>,
}

pub open spec fn strs(v: Seq<String>) -> Seq<Seq<char>> {
    v.map_values(|s: String| s@)
}

impl View for LibraryState {
    type V = LibraryView;

    open spec fn view(&self) -> LibraryView {
        LibraryView {
            search_query: self.search_query@,
            view_mode: self.view_mode,
            sort_key: self.sort_key,
            type_filter: self.type_filter@,
            filter_ai: self.filter_ai,
            current_folder: opt_view(self.current_folder),
            selection: strs(self.selection@),
            selection_anchor: opt_view(self.selection_anchor),
        }
    }
}

/// Index of the first occurrence of `x` in `s`.
pub open spec fn first_index<A>(s: Seq<A>, x: A) -> Option<int>
    decreases s.len(),
{
    if s.len() == 0 {
        None
    } else {
        match first_index(s.drop_last(), x) {
            Some(i) => Some(i),
            None => if s.last() == x {
                Some(s.len() - 1)
            } else {
                None
            },
        }
    }
}

pub proof fn lemma_first_index<A>(s: Seq<A>, x: A)
    ensures
        match first_index(s, x) {
            Some(i) => 0 <= i < s.len() && s[i] == x && forall|j: int| 0 <= j < i ==> s[j] != x,
            None => !s.contains(x),
        },
    decreases s.len(),
{
    if s.len() > 0 {
        lemma_first_index(s.drop_last(), x);
        assert forall|j: int| 0 <= j < s.len() - 1 implies s.drop_last()[j] == s[j] by {}
        if first_index(s.drop_last(), x) is None && s.last() != x {
            assert forall|j: int| 0 <= j < s.len() implies s[j] != x by {
                if j < s.len() - 1 {
                    assert(s.drop_last()[j] == s[j]);
                }
            }
        }
    }
}

/// `s` with `x` removed at its first occurrence, or with `x` appended
/// when it does not occur.
pub open spec fn toggled<A>(s: Seq<A>, x: A) -> Seq<A> {
    match first_index(s, x) {
        Some(i) => s.remove(i),
        None => s.push(x),
    }
}

/// The view with the selection `[id]` anchored at `id`.
pub open spec fn clicked(v: LibraryView, id: Seq<char>) -> LibraryView {
    LibraryView { selection: seq![id], selection_anchor: Some(id), ..v }
}

/// The view after a range pick of `id` over `ordered`: the inclusive span
/// between the anchor and `id`, with the anchor kept; a plain click when
/// either is not in `ordered`.
pub open spec fn range_picked(v: LibraryView, ordered: Seq<Seq<char>>, id: Seq<char>) -> LibraryView {
    let to = first_index(ordered, id);
    let from = match v.selection_anchor {
        Some(a) => first_index(ordered, a),
        None => None,
    };
    match (from, to) {
        (Some(f), Some(t)) => {
            let lo = if f < t { f } else { t };
            let hi = if f < t { t } else { f };
            LibraryView { selection: ordered.subrange(lo, hi + 1), ..v }
        },
        _ => clicked(v, id),
    }
}

fn position_of_str(v: &Vec<String>, x: &str) -> (r: Option<usize>)
    ensures
        match r {
            Some(i) => first_index(strs(v@), x@) == Some(i as int),
            None => first_index(strs(v@), x@) is None,
        },
{
    let key = String::from_str(x);
    let mut i: usize = 0;
    while i < v.len()
        invariant
            key@ == x@,
            0 <= i <= v@.len(),
            first_index(strs(v@.take(i as int)), x@) is None,
        decreases v.len() - i,
    {
        assert(strs(v@.take(i + 1)).drop_last() =~= strs(v@.take(i as int)));
        if v[i] == key {
            assert(strs(v@)[i as int] == x@);
            assert(strs(v@).contains(x@));
            proof {
                lemma_first_index(strs(v@), x@);
                lemma_first_index(strs(v@.take(i as int)), x@);
                if let Some(k) = first_index(strs(v@), x@) {
                    if k < i {
                        assert(strs(v@.take(i as int))[k] == strs(v@)[k]);
                    }
                }
            }
            return Some(i);
        }
        i += 1;
    }
    assert(v@.take(i as int) =~= v@);
    None
}

fn position_of_kind(v: &Vec<ClipType>, x: ClipType) -> (r: Option<usize>)
    ensures
        match r {
            Some(i) => first_index(v@, x) == Some(i as int),
            None => first_index(v@, x) is None,
        },
{
    let mut i: usize = 0;
    while i < v.len()
        invariant
            0 <= i <= v@.len(),
            first_index(v@.take(i as int), x) is None,
        decreases v.len() - i,
    {
        assert(v@.take(i + 1).drop_last() =~= v@.take(i as int));
        if v[i] == x {
            proof {
                lemma_first_index(v@, x);
                lemma_first_index(v@.take(i as int), x);
                if let Some(k) = first_index(v@, x) {
                    if k < i {
                        assert(v@.take(i as int)[k] == v@[k]);
                    }
                }
            }
            return Some(i);
        }
        i += 1;
    }
    assert(v@.take(i as int) =~= v@);
    None
}

impl LibraryState {
    /// A library view in folders mode at the root, ordered by date added,
    /// with no search, filter or selection.
    pub fn new() -> (s: Self)
        ensures
            s@ == (LibraryView {
                search_query: Seq::empty(),
                view_mode: LibraryViewMode::Folders,
                sort_key: LibrarySortKey::DateAdded,
                type_filter: Seq::empty(),
                filter_ai: false,
                current_folder: None,
                selection: Seq::empty(),
                selection_anchor: None,
            }),
    {
        let s = LibraryState {
            search_query: String::new(),
            view_mode: LibraryViewMode::Folders,
            sort_key: LibrarySortKey::DateAdded,
            type_filter: Vec::new(),
            filter_ai: false,
            current_folder: None,
            selection: Vec::new(),
            selection_anchor: None,
        };
        assert(s@.selection =~= Seq::<Seq<char>>::empty());
        s
    }

    /// The search text without surrounding white space.
    pub fn trimmed_query(&self) -> (r: &str)
        ensures
            r@ == trim_spec(self.search_query@),
    {
        trim(self.search_query.as_str())
    }

    /// A search is active when the trimmed query is not empty.
    pub fn search_active(&self) -> (b: bool)
        ensures
            b == (trim_spec(self.search_query@).len() > 0),
    {
        self.trimmed_query().unicode_len() > 0
    }

    pub fn has_active_filters(&self) -> (b: bool)
        ensures
            b == (self.type_filter@.len() > 0 || self.filter_ai),
    {
        self.type_filter.len() > 0 || self.filter_ai
    }

    /// Add kind `t` to the filter, or take it out when it is there.
    pub fn toggle_type_filter(&mut self, t: ClipType)
        ensures
            final(self)@ == (LibraryView { type_filter: toggled(old(self).type_filter@, t), ..old(self)@ }),
    {
        proof {
            lemma_first_index(self.type_filter@, t);
        }
        match position_of_kind(&self.type_filter, t) {
            Some(pos) => {
                self.type_filter.remove(pos);
            },
            None => {
                self.type_filter.push(t);
            },
        }
        assert(self@ =~= LibraryView { type_filter: toggled(old(self).type_filter@, t), ..old(self)@ });
    }

    pub fn clear_filters(&mut self)
        ensures
            final(self)@ == (LibraryView { type_filter: Seq::empty(), filter_ai: false, ..old(self)@ }),
    {
        self.type_filter.clear();
        self.filter_ai = false;
        assert(self@ =~= LibraryView { type_filter: Seq::empty(), filter_ai: false, ..old(self)@ });
    }

    /// Plain click: the id becomes the whole selection and the anchor.
    pub fn select_click(&mut self, id: &str)
        ensures
            final(self)@ == clicked(old(self)@, id@),
    {
        let mut sel: Vec<String> = Vec::new();
        sel.push(String::from_str(id));
        self.selection = sel;
        self.selection_anchor = Some(String::from_str(id));
        assert(self@ =~= clicked(old(self)@, id@));
    }

    /// Toggle click: the id joins or leaves the selection and becomes the
    /// anchor.
    pub fn select_toggle(&mut self, id: &str)
        ensures
            final(self)@ == (LibraryView {
                selection: toggled(old(self)@.selection, id@),
                selection_anchor: Some(id@),
                ..old(self)@
            }),
    {
        let ghost before = self.selection@;
        proof {
            lemma_first_index(strs(self.selection@), id@);
        }
        match position_of_str(&self.selection, id) {
            Some(pos) => {
                self.selection.remove(pos);
                assert(strs(self.selection@) =~= strs(before).remove(pos as int));
            },
            None => {
                self.selection.push(String::from_str(id));
                assert(strs(self.selection@) =~= strs(before).push(id@));
            },
        }
        self.selection_anchor = Some(String::from_str(id));
        assert(self@ =~= LibraryView {
            selection: toggled(old(self)@.selection, id@),
            selection_anchor: Some(id@),
            ..old(self)@
        });
    }

    /// Range click: select the span of `ordered` (the display order)
    /// between the anchor and `id`, both included, keeping the anchor; a
    /// plain click when there is no usable anchor or `id` is not shown.
    pub fn select_range(&mut self, ordered: &Vec<String>, id: &str)
        ensures
            final(self)@ == range_picked(old(self)@, strs(ordered@), id@),
    {
        let to = position_of_str(ordered, id);
        let from = match &self.selection_anchor {
            Some(a) => position_of_str(ordered, a.as_str()),
            None => None,
        };
        match (from, to) {
            (Some(f), Some(t)) => {
                proof {
                    lemma_first_index(strs(ordered@), id@);
                    lemma_first_index(strs(ordered@), self.selection_anchor->0@);
                }
                let lo = if f < t { f } else { t };
                let hi = if f < t { t } else { f };
                let mut sel: Vec<String> = Vec::new();
                let mut i: usize = lo;
                while i <= hi
                    invariant
                        lo <= i <= hi + 1,
                        hi < ordered.len(),
                        sel@.len() == i - lo,
                        forall|k: int| 0 <= k < i - lo ==> (#[trigger] sel@[k])@ == ordered@[lo + k]@,
                    decreases hi + 1 - i,
                {
                    sel.push(ordered[i].clone());
                    i += 1;
                }
                assert(strs(sel@) =~= strs(ordered@).subrange(lo as int, hi + 1));
                self.selection = sel;
                assert(self@ =~= range_picked(old(self)@, strs(ordered@), id@));
            },
            _ => {
                self.select_click(id);
            },
        }
    }

    pub fn clear_selection(&mut self)
        ensures
            final(self)@ == (LibraryView { selection: Seq::empty(), selection_anchor: None, ..old(self)@ }),
    {
        self.selection.clear();
        self.selection_anchor = None;
        assert(self@ =~= LibraryView { selection: Seq::empty(), selection_anchor: None, ..old(self)@ });
    }
}

impl Default for LibraryState {
    fn default() -> (s: Self)
        ensures
            s@ == (LibraryView {
                search_query: Seq::empty(),
                view_mode: LibraryViewMode::Folders,
                sort_key: LibrarySortKey::DateAdded,
                type_filter: Seq::empty(),
                filter_ai: false,
                current_folder: None,
                selection: Seq::empty(),
                selection_anchor: None,
            }),
    {
        LibraryState::new()
    }
}

/// One asset of the library.
#[derive(Debug, Clone, PartialEq)]
pub struct LibraryEntry {
    pub id: String,
    pub name: String,
    pub kind: ClipType,
    /// The folder holding the asset; `None` for the library root.
    pub folder_id: Option<String>,
    /// Whether the asset was made by a generation model.
    pub generated: bool,
    /// Orders assets as their durations do: a longer asset has a larger
    /// value, equal durations equal values.
    pub duration_rank: u64,
}

/// A folder of the library.
#[derive(Debug, Clone, PartialEq)]
pub struct LibraryFolder {
    pub id: String,
    pub name: String,
    /// The enclosing folder; `None` for a top-level folder.
    pub parent_folder_id: Option<String>,
}

/// The library's assets, in the order they were added, and its folders.
#[derive(Debug, Clone, PartialEq)]
pub struct LibraryManifest {
    pub entries: Vec<LibraryEntry>,
    pub folders: Vec<LibraryFolder>,
}

/// An asset passes the kind filter, the generated-only filter and the
/// name search (case-insensitive substring of the trimmed query).
pub open spec fn entry_passes_spec(e: LibraryEntry, v: LibraryView) -> bool {
    let q = lowercase_of(trim_spec(v.search_query));
    &&& (v.type_filter.len() == 0 || v.type_filter.contains(e.kind))
    &&& (!v.filter_ai || e.generated)
    &&& (q.len() == 0 || contains_seq(lowercase_of(e.name@), q))
}

fn entry_passes(entry: &LibraryEntry, state: &LibraryState) -> (b: bool)
    ensures
        b == entry_passes_spec(*entry, state@),
{
    proof {
        lemma_first_index(state.type_filter@, entry.kind);
    }
    let type_ok = state.type_filter.len() == 0 || position_of_kind(&state.type_filter, entry.kind).is_some();
    let ai_ok = !state.filter_ai || entry.generated;
    let q = to_lowercase(state.trimmed_query());
    let name_ok = q.unicode_len() == 0 || {
        let name = to_lowercase(entry.name.as_str());
        str_contains(name.as_str(), q.as_str())
    };
    type_ok && ai_ok && name_ok
}

/// `a` comes before `b` in character-code order (the order of `String`).
pub open spec fn seq_less(a: Seq<char>, b: Seq<char>) -> bool {
    exists|k: int|
        0 <= k <= a.len() && k <= b.len() && #[trigger] a.subrange(0, k) == b.subrange(0, k) && (
        (k == a.len() && k < b.len()) || (k < a.len() && k < b.len() && (a[k] as u32) < (b[k] as u32)))
}

fn str_less(a: &str, b: &str) -> (r: bool)
    ensures
        r == seq_less(a@, b@),
{
    let n = a.unicode_len();
    let m = b.unicode_len();
    let mut i: usize = 0;
    while i < n && i < m && a.get_char(i) == b.get_char(i)
        invariant
            n == a@.len(),
            m == b@.len(),
            0 <= i <= n,
            i <= m,
            a@.subrange(0, i as int) == b@.subrange(0, i as int),
        decreases n - i,
    {
        assert(a@.subrange(0, i + 1) =~= a@.subrange(0, i as int).push(a@[i as int]));
        assert(b@.subrange(0, i + 1) =~= b@.subrange(0, i as int).push(b@[i as int]));
        i += 1;
    }
    let r = if i == n {
        i < m
    } else if i == m {
        false
    } else {
        (a.get_char(i) as u32) < (b.get_char(i) as u32)
    };
    proof {
        if r {
            assert(a@.subrange(0, i as int) == b@.subrange(0, i as int));
        } else {
            assert forall|k: int|
                0 <= k <= a@.len() && k <= b@.len() && #[trigger] a@.subrange(0, k) == b@.subrange(0, k)
                implies !((k == a@.len() && k < b@.len()) || (k < a@.len() && k < b@.len() && (a@[k] as u32) < (b@[k] as u32))) by {
                if k > i {
                    assert(a@.subrange(0, k)[i as int] == b@.subrange(0, k)[i as int]);
                } else if k < i {
                    assert(a@.subrange(0, i as int)[k] == b@.subrange(0, i as int)[k]);
                }
            }
        }
    }
    r
}

/// Position of a kind when kinds are ordered by name.
pub open spec fn type_rank(k: ClipType) -> int {
    match k {
        ClipType::Audio => 0,
        ClipType::Image => 1,
        ClipType::Lottie => 2,
        ClipType::Sequence => 3,
        ClipType::Shape => 4,
        ClipType::Text => 5,
        ClipType::Video => 6,
    }
}

fn type_rank_of(k: ClipType) -> (r: u8)
    ensures
        r as int == type_rank(k),
{
    match k {
        ClipType::Audio => 0,
        ClipType::Image => 1,
        ClipType::Lottie => 2,
        ClipType::Sequence => 3,
        ClipType::Shape => 4,
        ClipType::Text => 5,
        ClipType::Video => 6,
    }
}

/// `a` is ordered strictly before `b` under `key`: by lowercase name, by
/// longer duration first, or by kind; date order never reorders.
pub open spec fn sorts_before(a: LibraryEntry, b: LibraryEntry, key: LibrarySortKey) -> bool {
    match key {
        LibrarySortKey::Name => seq_less(lowercase_of(a.name@), lowercase_of(b.name@)),
        LibrarySortKey::DateAdded => false,
        LibrarySortKey::Duration => a.duration_rank > b.duration_rank,
        LibrarySortKey::Type => type_rank(a.kind) < type_rank(b.kind),
    }
}

fn entry_before(a: &LibraryEntry, b: &LibraryEntry, key: LibrarySortKey) -> (r: bool)
    ensures
        r == sorts_before(*a, *b, key),
{
    match key {
        LibrarySortKey::Name => {
            let la = to_lowercase(a.name.as_str());
            let lb = to_lowercase(b.name.as_str());
            str_less(la.as_str(), lb.as_str())
        },
        LibrarySortKey::DateAdded => false,
        LibrarySortKey::Duration => a.duration_rank > b.duration_rank,
        LibrarySortKey::Type => type_rank_of(a.kind) < type_rank_of(b.kind),
    }
}

/// Where `x` goes in `t`: before the first element it sorts before, so
/// that it follows every element it ties with.
pub open spec fn insert_index(t: Seq<LibraryEntry>, x: LibraryEntry, key: LibrarySortKey) -> int
    decreases t.len(),
{
    if t.len() == 0 {
        0
    } else if sorts_before(x, t[0], key) {
        0
    } else {
        1 + insert_index(t.drop_first(), x, key)
    }
}

/// The stable sort of `s` under `key`: each element in turn goes after
/// everything before it that it does not sort before.
pub open spec fn sorted_by(s: Seq<LibraryEntry>, key: LibrarySortKey) -> Seq<LibraryEntry>
    decreases s.len(),
{
    if s.len() == 0 {
        s
    } else {
        let t = sorted_by(s.drop_last(), key);
        t.insert(insert_index(t, s.last(), key), s.last())
    }
}

proof fn lemma_insert_index(t: Seq<LibraryEntry>, x: LibraryEntry, key: LibrarySortKey, j: int)
    requires
        0 <= j <= t.len(),
        forall|k: int| 0 <= k < j ==> !sorts_before(x, #[trigger] t[k], key),
        j == t.len() || sorts_before(x, t[j], key),
    ensures
        insert_index(t, x, key) == j,
    decreases j,
{
    if j > 0 {
        assert(!sorts_before(x, t[0], key));
        assert forall|k: int| 0 <= k < j - 1 implies !sorts_before(x, #[trigger] t.drop_first()[k], key) by {
            assert(t.drop_first()[k] == t[k + 1]);
        }
        if j < t.len() {
            assert(t.drop_first()[j - 1] == t[j]);
        }
        lemma_insert_index(t.drop_first(), x, key, j - 1);
    }
}

pub open spec fn derefs(v: Seq<&LibraryEntry>) -> Seq<LibraryEntry> {
    v.map_values(|e: &LibraryEntry| *e)
}

fn sort_entries<'a>(entries: Vec<&'a LibraryEntry>, key: LibrarySortKey) -> (r: Vec<&'a LibraryEntry>)
    ensures
        derefs(r@) == sorted_by(derefs(entries@), key),
{
    let mut r: Vec<&'a LibraryEntry> = Vec::new();
    let mut i: usize = 0;
    while i < entries.len()
        invariant
            0 <= i <= entries@.len(),
            r@.len() == i,
            derefs(r@) == sorted_by(derefs(entries@).take(i as int), key),
        decreases entries.len() - i,
    {
        let x = entries[i];
        let mut j: usize = 0;
        while j < r.len() && !entry_before(x, r[j], key)
            invariant
                0 <= j <= r@.len(),
                forall|k: int| 0 <= k < j ==> !sorts_before(*x, #[trigger] derefs(r@)[k], key),
            decreases r.len() - j,
        {
            j += 1;
        }
        proof {
            lemma_insert_index(derefs(r@), *x, key, j as int);
            assert(derefs(entries@).take(i + 1).drop_last() =~= derefs(entries@).take(i as int));
            assert(derefs(entries@).take(i + 1).last() == *x);
        }
        let ghost before = r@;
        r.insert(j, x);
        assert(derefs(r@) =~= derefs(before).insert(j as int, *x));
        i += 1;
    }
    assert(derefs(entries@).take(i as int) =~= derefs(entries@));
    r
}

pub open spec fn opt_str_view(o: Option<&str>) -> Option<Seq<char>> {
    match o {
        Some(s) => Some(s@),
        None => None,
    }
}

fn opt_matches(a: &Option<String>, b: Option<&str>) -> (r: bool)
    ensures
        r == (opt_view(*a) == opt_str_view(b)),
{
    match (a, b) {
        (Some(x), Some(y)) => {
            let ys = String::from_str(y);
            *x == ys
        },
        (None, None) => true,
        _ => false,
    }
}

/// The assets in `scope` (a folder bucket, `None` for the root; or the whole
/// library when `scope` is `None`) that pass the search and filters, in
/// manifest order.
pub open spec fn passing(s: Seq<LibraryEntry>, v: LibraryView, scope: Option<Option<Seq<char>>>) -> Seq<LibraryEntry>
    decreases s.len(),
{
    if s.len() == 0 {
        Seq::empty()
    } else {
        let e = s.last();
        let in_scope = match scope {
            Some(f) => opt_view(e.folder_id) == f,
            None => true,
        };
        passing(s.drop_last(), v, scope) + if in_scope && entry_passes_spec(e, v) { seq![e] } else { Seq::empty() }
    }
}

pub open spec fn search_active_spec(v: LibraryView) -> bool {
    trim_spec(v.search_query).len() > 0
}

/// The filtered and sorted assets of one folder bucket.
pub open spec fn bucket_spec(m: LibraryManifest, v: LibraryView, folder: Option<Seq<char>>) -> Seq<LibraryEntry> {
    sorted_by(passing(m.entries@, v, Some(folder)), v.sort_key)
}

/// The assets the grid shows: a search, the flat view and the grouped view
/// span the whole library; the folders view shows the current folder.
pub open spec fn visible_spec(m: LibraryManifest, v: LibraryView) -> Seq<LibraryEntry> {
    if search_active_spec(v) || v.view_mode != LibraryViewMode::Folders {
        sorted_by(passing(m.entries@, v, None), v.sort_key)
    } else {
        bucket_spec(m, v, v.current_folder)
    }
}

fn collect_passing<'a>(m: &'a LibraryManifest, state: &LibraryState, scope: Option<Option<&str>>) -> (r: Vec<&'a LibraryEntry>)
    ensures
        derefs(r@) == passing(m.entries@, state@, match scope {
            Some(f) => Some(opt_str_view(f)),
            None => None,
        }),
{
    let ghost sc = match scope {
        Some(f) => Some(opt_str_view(f)),
        None => None::<Option<Seq<char>>>,
    };
    let mut r: Vec<&'a LibraryEntry> = Vec::new();
    let mut i: usize = 0;
    while i < m.entries.len()
        invariant
            0 <= i <= m.entries@.len(),
            sc == (match scope {
                Some(f) => Some(opt_str_view(f)),
                None => None,
            }),
            derefs(r@) == passing(m.entries@.take(i as int), state@, sc),
        decreases m.entries.len() - i,
    {
        let e = &m.entries[i];
        let in_scope = match scope {
            Some(f) => opt_matches(&e.folder_id, f),
            None => true,
        };
        assert(m.entries@.take(i + 1).drop_last() =~= m.entries@.take(i as int));
        assert(m.entries@.take(i + 1).last() == *e);
        let ghost before = r@;
        if in_scope && entry_passes(e, state) {
            r.push(e);
            assert(derefs(r@) =~= derefs(before) + seq![*e]);
        } else {
            assert(derefs(r@) =~= derefs(before) + Seq::<LibraryEntry>::empty());
        }
        i += 1;
    }
    assert(m.entries@.take(i as int) =~= m.entries@);
    r
}

/// The filtered and sorted assets of one folder bucket (`None` for the root).
pub fn visible_entries_in<'a>(manifest: &'a LibraryManifest, state: &LibraryState, folder: Option<&str>) -> (r: Vec<&'a LibraryEntry>)
    ensures
        derefs(r@) == bucket_spec(*manifest, state@, opt_str_view(folder)),
{
    let found = collect_passing(manifest, state, Some(folder));
    sort_entries(found, state.sort_key)
}

/// The assets the grid shows, filtered, scoped and sorted.
pub fn visible_entries<'a>(manifest: &'a LibraryManifest, state: &LibraryState) -> (r: Vec<&'a LibraryEntry>)
    ensures
        derefs(r@) == visible_spec(*manifest, state@),
{
    if state.search_active() || state.view_mode != LibraryViewMode::Folders {
        let found = collect_passing(manifest, state, None);
        sort_entries(found, state.sort_key)
    } else {
        let cur = match &state.current_folder {
            Some(f) => Some(f.as_str()),
            None => None,
        };
        visible_entries_in(manifest, state, cur)
    }
}

pub open spec fn fderefs(v: Seq<&LibraryFolder>) -> Seq<LibraryFolder> {
    v.map_values(|f: &LibraryFolder| *f)
}

/// The folders whose parent is `parent`, in manifest order.
pub open spec fn children_of(fs: Seq<LibraryFolder>, parent: Option<Seq<char>>) -> Seq<LibraryFolder>
    decreases fs.len(),
{
    if fs.len() == 0 {
        Seq::empty()
    } else {
        children_of(fs.drop_last(), parent)
            + if opt_view(fs.last().parent_folder_id) == parent { seq![fs.last()] } else { Seq::empty() }
    }
}

/// Folder tiles: in the folders view without a search, the current
/// folder's subfolders; otherwise none.
pub open spec fn visible_folders_spec(m: LibraryManifest, v: LibraryView) -> Seq<LibraryFolder> {
    if search_active_spec(v) || v.view_mode != LibraryViewMode::Folders {
        Seq::empty()
    } else {
        children_of(m.folders@, v.current_folder)
    }
}

fn collect_children<'a>(fs: &'a Vec<LibraryFolder>, parent: Option<&str>) -> (r: Vec<&'a LibraryFolder>)
    ensures
        fderefs(r@) == children_of(fs@, opt_str_view(parent)),
{
    let mut r: Vec<&'a LibraryFolder> = Vec::new();
    let mut i: usize = 0;
    while i < fs.len()
        invariant
            0 <= i <= fs@.len(),
            fderefs(r@) == children_of(fs@.take(i as int), opt_str_view(parent)),
        decreases fs.len() - i,
    {
        let f = &fs[i];
        assert(fs@.take(i + 1).drop_last() =~= fs@.take(i as int));
        assert(fs@.take(i + 1).last() == *f);
        let ghost before = r@;
        if opt_matches(&f.parent_folder_id, parent) {
            r.push(f);
            assert(fderefs(r@) =~= fderefs(before) + seq![*f]);
        } else {
            assert(fderefs(r@) =~= fderefs(before) + Seq::<LibraryFolder>::empty());
        }
        i += 1;
    }
    assert(fs@.take(i as int) =~= fs@);
    r
}

/// Folder tiles: the current folder's subfolders, in the folders view and
/// only without a search.
pub fn visible_folders<'a>(manifest: &'a LibraryManifest, state: &LibraryState) -> (r: Vec<&'a LibraryFolder>)
    ensures
        fderefs(r@) == visible_folders_spec(*manifest, state@),
{
    if state.search_active() || state.view_mode != LibraryViewMode::Folders {
        let r: Vec<&'a LibraryFolder> = Vec::new();
        assert(fderefs(r@) =~= Seq::<LibraryFolder>::empty());
        return r;
    }
    let cur = match &state.current_folder {
        Some(f) => Some(f.as_str()),
        None => None,
    };
    collect_children(&manifest.folders, cur)
}

/// Number of assets held directly in folder `f`.
pub open spec fn assets_in(s: Seq<LibraryEntry>, f: Seq<char>) -> nat
    decreases s.len(),
{
    if s.len() == 0 {
        0
    } else {
        assets_in(s.drop_last(), f) + if opt_view(s.last().folder_id) == Some(f) { 1nat } else { 0nat }
    }
}

/// The count on a folder tile: its subfolders and its assets.
pub fn folder_child_count(manifest: &LibraryManifest, folder_id: &str) -> (n: usize)
    requires
        manifest.folders@.len() + manifest.entries@.len() <= usize::MAX,
    ensures
        n == children_of(manifest.folders@, Some(folder_id@)).len() + assets_in(manifest.entries@, folder_id@),
{
    let sub = collect_children(&manifest.folders, Some(folder_id));
    proof {
        lemma_children_len(manifest.folders@, Some(folder_id@));
    }
    let mut assets: usize = 0;
    let mut i: usize = 0;
    while i < manifest.entries.len()
        invariant
            0 <= i <= manifest.entries@.len(),
            assets == assets_in(manifest.entries@.take(i as int), folder_id@),
            assets <= i,
        decreases manifest.entries.len() - i,
    {
        assert(manifest.entries@.take(i + 1).drop_last() =~= manifest.entries@.take(i as int));
        if opt_matches(&manifest.entries[i].folder_id, Some(folder_id)) {
            assets += 1;
        }
        i += 1;
    }
    assert(manifest.entries@.take(i as int) =~= manifest.entries@);
    assert(fderefs(sub@).len() == sub@.len());
    sub.len() + assets
}

proof fn lemma_children_len(fs: Seq<LibraryFolder>, parent: Option<Seq<char>>)
    ensures
        children_of(fs, parent).len() <= fs.len(),
    decreases fs.len(),
{
    if fs.len() > 0 {
        lemma_children_len(fs.drop_last(), parent);
    }
}

/// Index of the first folder with id `id`.
pub open spec fn folder_index(fs: Seq<LibraryFolder>, id: Seq<char>) -> Option<int>
    decreases fs.len(),
{
    if fs.len() == 0 {
        None
    } else {
        match folder_index(fs.drop_last(), id) {
            Some(i) => Some(i),
            None => if fs.last().id@ == id {
                Some(fs.len() - 1)
            } else {
                None
            },
        }
    }
}

proof fn lemma_folder_index(fs: Seq<LibraryFolder>, id: Seq<char>)
    ensures
        match folder_index(fs, id) {
            Some(i) => 0 <= i < fs.len() && fs[i].id@ == id
                && forall|j: int| 0 <= j < i ==> (#[trigger] fs[j]).id@ != id,
            None => forall|j: int| 0 <= j < fs.len() ==> (#[trigger] fs[j]).id@ != id,
        },
    decreases fs.len(),
{
    if fs.len() > 0 {
        lemma_folder_index(fs.drop_last(), id);
        assert forall|j: int| 0 <= j < fs.len() - 1 implies fs.drop_last()[j] == #[trigger] fs[j] by {}
    }
}

pub open spec fn path_has_id(path: Seq<LibraryFolder>, id: Seq<char>) -> bool {
    exists|k: int| 0 <= k < path.len() && (#[trigger] path[k]).id@ == id
}

/// Climb from folder `cur` through the parents, appending each folder to
/// `path`; stop at the root, at an unknown id, at a folder already on the
/// path (a cycle), or when `fuel` runs out.
pub open spec fn walk_up(fs: Seq<LibraryFolder>, cur: Option<Seq<char>>, path: Seq<LibraryFolder>, fuel: nat) -> Seq<LibraryFolder>
    decreases fuel,
{
    if fuel == 0 {
        path
    } else {
        match cur {
            None => path,
            Some(id) => match folder_index(fs, id) {
                None => path,
                Some(i) => if path_has_id(path, fs[i].id@) {
                    path
                } else {
                    walk_up(fs, opt_view(fs[i].parent_folder_id), path.push(fs[i]), (fuel - 1) as nat)
                },
            },
        }
    }
}

/// Breadcrumb chain from the root down to folder `start`. The climb visits
/// each folder at most once, so one step per folder is always enough.
pub open spec fn folder_path_spec(fs: Seq<LibraryFolder>, start: Option<Seq<char>>) -> Seq<LibraryFolder> {
    walk_up(fs, start, Seq::empty(), (fs.len() + 1) as nat).reverse()
}

proof fn lemma_distinct_indices_bounded(idxs: Seq<int>, n: int)
    requires
        idxs.no_duplicates(),
        forall|k: int| 0 <= k < idxs.len() ==> 0 <= #[trigger] idxs[k] < n,
        n >= 0,
    ensures
        idxs.len() <= n,
{
    idxs.unique_seq_to_set();
    vstd::set_lib::lemma_int_range(0, n);
    assert(idxs.to_set().subset_of(vstd::set_lib::set_int_range(0, n)));
    vstd::set_lib::lemma_len_subset(idxs.to_set(), vstd::set_lib::set_int_range(0, n));
}

fn find_folder(fs: &Vec<LibraryFolder>, id: &str) -> (r: Option<usize>)
    ensures
        match r {
            Some(i) => folder_index(fs@, id@) == Some(i as int),
            None => folder_index(fs@, id@) is None,
        },
{
    let key = String::from_str(id);
    let mut i: usize = 0;
    while i < fs.len()
        invariant
            key@ == id@,
            0 <= i <= fs@.len(),
            folder_index(fs@.take(i as int), id@) is None,
        decreases fs.len() - i,
    {
        assert(fs@.take(i + 1).drop_last() =~= fs@.take(i as int));
        if fs[i].id == key {
            proof {
                lemma_folder_index(fs@, id@);
                lemma_folder_index(fs@.take(i as int), id@);
                if let Some(k) = folder_index(fs@, id@) {
                    if k < i {
                        assert(fs@.take(i as int)[k] == fs@[k]);
                    }
                }
            }
            return Some(i);
        }
        i += 1;
    }
    assert(fs@.take(i as int) =~= fs@);
    None
}

fn path_contains(path: &Vec<&LibraryFolder>, id: &String) -> (b: bool)
    ensures
        b == path_has_id(fderefs(path@), id@),
{
    let mut k: usize = 0;
    while k < path.len()
        invariant
            0 <= k <= path@.len(),
            forall|j: int| 0 <= j < k ==> (#[trigger] fderefs(path@)[j]).id@ != id@,
        decreases path.len() - k,
    {
        if path[k].id == *id {
            assert(fderefs(path@)[k as int].id@ == id@);
            return true;
        }
        k += 1;
    }
    false
}

/// Breadcrumb chain from the root down to a folder; empty for the root or an
/// unknown id. Safe against parent cycles.
pub fn folder_path<'a>(manifest: &'a LibraryManifest, folder_id: Option<&str>) -> (r: Vec<&'a LibraryFolder>)
    ensures
        fderefs(r@) == folder_path_spec(manifest.folders@, opt_str_view(folder_id)),
{
    let fs = &manifest.folders;
    let ghost n = fs@.len();
    let mut path: Vec<&'a LibraryFolder> = Vec::new();
    let mut cur: Option<String> = match folder_id {
        Some(x) => Some(String::from_str(x)),
        None => None,
    };
    let ghost mut idxs: Seq<int> = Seq::empty();
    assert(fderefs(path@) =~= Seq::<LibraryFolder>::empty());
    loop
        invariant
            n == fs@.len(),
            path@.len() == idxs.len(),
            path@.len() <= n,
            idxs.no_duplicates(),
            forall|k: int| 0 <= k < idxs.len() ==> 0 <= #[trigger] idxs[k] < n,
            forall|k: int| 0 <= k < idxs.len() ==> fderefs(path@)[k] == fs@[#[trigger] idxs[k]],
            walk_up(fs@, opt_view(cur), fderefs(path@), (n + 1 - path@.len()) as nat)
                == walk_up(fs@, opt_str_view(folder_id), Seq::empty(), (n + 1) as nat),
        ensures
            fderefs(path@) == walk_up(fs@, opt_str_view(folder_id), Seq::empty(), (n + 1) as nat),
        decreases n + 1 - path@.len(),
    {
        let id = match &cur {
            Some(id) => id.as_str(),
            None => break,
        };
        let i = match find_folder(fs, id) {
            Some(i) => i,
            None => break,
        };
        proof {
            lemma_folder_index(fs@, id@);
        }
        let f = &fs[i];
        if path_contains(&path, &f.id) {
            break;
        }
        proof {
            lemma_folder_index(fs@, id@);
            assert forall|k: int| 0 <= k < idxs.len() implies #[trigger] idxs[k] != i by {
                if idxs[k] == i {
                    assert(fderefs(path@)[k].id@ == f.id@);
                }
            }
            let next = idxs.push(i as int);
            assert(next.no_duplicates()) by {
                assert forall|a: int, b: int| 0 <= a < b < next.len() implies next[a] != next[b] by {
                    if b == idxs.len() {
                        assert(next[a] == idxs[a]);
                    } else {
                        assert(next[a] == idxs[a] && next[b] == idxs[b]);
                    }
                }
            }
            lemma_distinct_indices_bounded(next, n as int);
        }
        let ghost before = path@;
        path.push(f);
        proof {
            idxs = idxs.push(i as int);
            assert(fderefs(path@) =~= fderefs(before).push(fs@[i as int]));
        }
        cur = match &f.parent_folder_id {
            Some(p) => Some(p.clone()),
            None => None,
        };
    }
    let mut r: Vec<&'a LibraryFolder> = Vec::new();
    let mut k: usize = path.len();
    while k > 0
        invariant
            0 <= k <= path@.len(),
            r@.len() == path@.len() - k,
            fderefs(r@) == fderefs(path@).reverse().take((path@.len() - k) as int),
        decreases k,
    {
        k -= 1;
        let ghost before = r@;
        r.push(path[k]);
        assert(fderefs(path@).reverse()[(path@.len() - k - 1) as int] == fderefs(path@)[k as int]);
        assert(fderefs(r@) =~= fderefs(before).push(fderefs(path@)[k as int]));
        assert(fderefs(r@) =~= fderefs(path@).reverse().take((path@.len() - k) as int));
    }
    assert(fderefs(path@).reverse().take(path@.len() as int) =~= fderefs(path@).reverse());
    r
}

/// Folder names joined with " / ".
pub open spec fn joined_names(path: Seq<LibraryFolder>) -> Seq<char>
    decreases path.len(),
{
    if path.len() == 0 {
        Seq::empty()
    } else if path.len() == 1 {
        path[0].name@
    } else {
        joined_names(path.drop_last()) + " / "@ + path.last().name@
    }
}

/// A folder's section title: the names along its breadcrumb chain.
pub open spec fn folder_title(fs: Seq<LibraryFolder>, f: LibraryFolder) -> Seq<char> {
    joined_names(folder_path_spec(fs, Some(f.id@)))
}

/// Where index `x` goes among the indices `t`: before the first one whose
/// title it sorts before (lowercase, character-code order).
pub open spec fn title_insert_index(t: Seq<int>, x: int, titles: Seq<Seq<char>>) -> int
    decreases t.len(),
{
    if t.len() == 0 {
        0
    } else if seq_less(lowercase_of(titles[x]), lowercase_of(titles[t[0]])) {
        0
    } else {
        1 + title_insert_index(t.drop_first(), x, titles)
    }
}

/// The indices `0..n` stably sorted by lowercase title.
pub open spec fn title_order(titles: Seq<Seq<char>>, n: nat) -> Seq<int>
    decreases n,
{
    if n == 0 {
        Seq::empty()
    } else {
        let t = title_order(titles, (n - 1) as nat);
        t.insert(title_insert_index(t, n - 1, titles), n - 1)
    }
}

/// A grouped-view section as plain values: folder id (`None` for the
/// root), title and assets.
pub open spec fn section_view(s: (Option<&str>, String, Vec<&LibraryEntry>)) -> (Option<Seq<char>>, Seq<char>, Seq<LibraryEntry>) {
    (opt_str_view(s.0), s.1@, derefs(s.2@))
}

/// Grouped-view sections: the root bucket first (left out when empty),
/// then every folder ordered by its full path title, each with its
/// filtered and sorted assets.
pub open spec fn grouped_spec(m: LibraryManifest, v: LibraryView) -> Seq<(Option<Seq<char>>, Seq<char>, Seq<LibraryEntry>)> {
    let root = bucket_spec(m, v, None);
    let fs = m.folders@;
    let titles = fs.map_values(|f: LibraryFolder| folder_title(fs, f));
    let head = if root.len() > 0 {
        seq![(None::<Seq<char>>, "Library"@, root)]
    } else {
        Seq::empty()
    };
    head + title_order(titles, fs.len()).map_values(|i: int| (Some(fs[i].id@), titles[i], bucket_spec(m, v, Some(fs[i].id@))))
}

fn path_title(path: &Vec<&LibraryFolder>) -> (t: String)
    ensures
        t@ == joined_names(fderefs(path@)),
{
    proof {
        reveal_strlit(" / ");
    }
    let mut t = String::new();
    let mut i: usize = 0;
    while i < path.len()
        invariant
            0 <= i <= path@.len(),
            t@ == joined_names(fderefs(path@).take(i as int)),
        decreases path.len() - i,
    {
        assert(fderefs(path@).take(i + 1).drop_last() =~= fderefs(path@).take(i as int));
        assert(fderefs(path@).take(i + 1).last() == *path@[i as int]);
        if i > 0 {
            t.append(" / ");
        }
        t.append(path[i].name.as_str());
        i += 1;
    }
    assert(fderefs(path@).take(i as int) =~= fderefs(path@));
    t
}

proof fn lemma_title_insert_index(t: Seq<int>, x: int, titles: Seq<Seq<char>>, j: int)
    requires
        0 <= j <= t.len(),
        forall|k: int| 0 <= k < j ==> !seq_less(lowercase_of(titles[x]), lowercase_of(titles[#[trigger] t[k]])),
        j == t.len() || seq_less(lowercase_of(titles[x]), lowercase_of(titles[t[j]])),
    ensures
        title_insert_index(t, x, titles) == j,
    decreases j,
{
    if j > 0 {
        assert(!seq_less(lowercase_of(titles[x]), lowercase_of(titles[t[0]])));
        assert forall|k: int| 0 <= k < j - 1 implies !seq_less(lowercase_of(titles[x]), lowercase_of(titles[#[trigger] t.drop_first()[k]])) by {
            assert(t.drop_first()[k] == t[k + 1]);
        }
        if j < t.len() {
            assert(t.drop_first()[j - 1] == t[j]);
        }
        lemma_title_insert_index(t.drop_first(), x, titles, j - 1);
    }
}

proof fn lemma_title_order_range(titles: Seq<Seq<char>>, n: nat)
    ensures
        title_order(titles, n).len() == n,
        forall|k: int| 0 <= k < n ==> 0 <= #[trigger] title_order(titles, n)[k] < n,
    decreases n,
{
    if n > 0 {
        lemma_title_order_range(titles, (n - 1) as nat);
        let t = title_order(titles, (n - 1) as nat);
        lemma_title_insert_index_bounds(t, n - 1, titles);
        let j = title_insert_index(t, n - 1, titles);
        assert forall|k: int| 0 <= k < n implies 0 <= #[trigger] title_order(titles, n)[k] < n by {
            if k < j {
                assert(title_order(titles, n)[k] == t[k]);
            } else if k > j {
                assert(title_order(titles, n)[k] == t[k - 1]);
            }
        }
    }
}

proof fn lemma_title_insert_index_bounds(t: Seq<int>, x: int, titles: Seq<Seq<char>>)
    ensures
        0 <= title_insert_index(t, x, titles) <= t.len(),
    decreases t.len(),
{
    if t.len() > 0 {
        lemma_title_insert_index_bounds(t.drop_first(), x, titles);
    }
}

/// Indices of `titles` stably sorted by lowercase title.
fn order_by_title(titles: &Vec<String>) -> (r: Vec<usize>)
    ensures
        r@.map_values(|i: usize| i as int) == title_order(strs(titles@), titles@.len()),
{
    let ghost ts = strs(titles@);
    let mut lower: Vec<String> = Vec::new();
    let mut i: usize = 0;
    while i < titles.len()
        invariant
            0 <= i <= titles@.len(),
            lower@.len() == i,
            forall|k: int| 0 <= k < i ==> (#[trigger] lower@[k])@ == lowercase_of(titles@[k]@),
        decreases titles.len() - i,
    {
        lower.push(to_lowercase(titles[i].as_str()));
        i += 1;
    }
    let mut r: Vec<usize> = Vec::new();
    let mut n: usize = 0;
    while n < titles.len()
        invariant
            0 <= n <= titles@.len(),
            ts == strs(titles@),
            lower@.len() == titles@.len(),
            forall|k: int| 0 <= k < titles@.len() ==> (#[trigger] lower@[k])@ == lowercase_of(titles@[k]@),
            r@.map_values(|i: usize| i as int) == title_order(ts, n as nat),
            r@.len() == n,
            forall|k: int| 0 <= k < n ==> #[trigger] r@[k] < n,
        decreases titles.len() - n,
    {
        proof {
            lemma_title_order_range(ts, n as nat);
        }
        let ghost t = r@.map_values(|i: usize| i as int);
        let mut j: usize = 0;
        while j < r.len() && !str_less(lower[n].as_str(), lower[r[j]].as_str())
            invariant
                0 <= j <= r@.len(),
                n < titles@.len(),
                r@.len() == n,
                lower@.len() == titles@.len(),
                forall|k: int| 0 <= k < n ==> #[trigger] r@[k] < n,
                forall|k: int| 0 <= k < titles@.len() ==> (#[trigger] lower@[k])@ == lowercase_of(titles@[k]@),
                ts == strs(titles@),
                t == r@.map_values(|i: usize| i as int),
                forall|k: int| 0 <= k < j ==> !seq_less(lowercase_of(ts[n as int]), lowercase_of(ts[#[trigger] t[k]])),
            decreases r.len() - j,
        {
            assert(t[j as int] == r@[j as int] as int);
            j += 1;
        }
        proof {
            if j < r.len() {
                assert(t[j as int] == r@[j as int] as int);
            }
            lemma_title_insert_index(t, n as int, ts, j as int);
        }
        let ghost before = r@;
        r.insert(j, n);
        assert(r@.map_values(|i: usize| i as int) =~= before.map_values(|i: usize| i as int).insert(j as int, n as int));
        n += 1;
    }
    r
}

/// Grouped-view sections: the root bucket first (left out when empty),
/// then every folder ordered by its full path, each with its filtered and
/// sorted assets.
pub fn grouped_sections<'a>(manifest: &'a LibraryManifest, state: &LibraryState) -> (r: Vec<(Option<&'a str>, String, Vec<&'a LibraryEntry>)>)
    ensures
        r@.map_values(|s: (Option<&str>, String, Vec<&LibraryEntry>)| section_view(s)) == grouped_spec(*manifest, state@),
{
    proof {
        reveal_strlit("Library");
    }
    let fs = &manifest.folders;
    let ghost titles_spec = fs@.map_values(|f: LibraryFolder| folder_title(fs@, f));
    let mut sections: Vec<(Option<&'a str>, String, Vec<&'a LibraryEntry>)> = Vec::new();
    let root = visible_entries_in(manifest, state, None);
    if root.len() > 0 {
        sections.push((None, String::from_str("Library"), root));
    }
    let ghost head = sections@.map_values(|s: (Option<&str>, String, Vec<&LibraryEntry>)| section_view(s));
    assert(head =~= (if bucket_spec(*manifest, state@, None).len() > 0 {
        seq![(None::<Seq<char>>, "Library"@, bucket_spec(*manifest, state@, None))]
    } else {
        Seq::empty()
    }));
    let mut titles: Vec<String> = Vec::new();
    let mut i: usize = 0;
    while i < fs.len()
        invariant
            0 <= i <= fs@.len(),
            fs@ == manifest.folders@,
            titles_spec == fs@.map_values(|f: LibraryFolder| folder_title(fs@, f)),
            titles@.len() == i,
            forall|k: int| 0 <= k < i ==> (#[trigger] titles@[k])@ == titles_spec[k],
        decreases fs.len() - i,
    {
        let fid = fs[i].id.as_str();
        let path = folder_path(manifest, Some(fid));
        assert(opt_str_view(Some(fid)) == Some(fs@[i as int].id@));
        assert(fderefs(path@) == folder_path_spec(fs@, Some(fs@[i as int].id@)));
        let t = path_title(&path);
        assert(titles_spec[i as int] == folder_title(fs@, fs@[i as int]));
        assert(t@ == titles_spec[i as int]);
        titles.push(t);
        i += 1;
    }
    assert(strs(titles@) =~= titles_spec);
    let order = order_by_title(&titles);
    proof {
        lemma_title_order_range(titles_spec, fs@.len());
    }
    let ghost ord = order@.map_values(|i: usize| i as int);
    let mut k: usize = 0;
    while k < order.len()
        invariant
            0 <= k <= order@.len(),
            fs@ == manifest.folders@,
            ord == order@.map_values(|i: usize| i as int),
            ord == title_order(titles_spec, fs@.len()),
            ord.len() == fs@.len(),
            titles@.len() == fs@.len(),
            forall|q: int| 0 <= q < fs@.len() ==> 0 <= #[trigger] ord[q] < fs@.len(),
            forall|q: int| 0 <= q < fs@.len() ==> (#[trigger] titles@[q])@ == titles_spec[q],
            titles_spec == fs@.map_values(|f: LibraryFolder| folder_title(fs@, f)),
            sections@.map_values(|s: (Option<&str>, String, Vec<&LibraryEntry>)| section_view(s))
                == head + ord.take(k as int).map_values(|i: int| (Some(fs@[i].id@), titles_spec[i], bucket_spec(*manifest, state@, Some(fs@[i].id@)))),
        decreases order.len() - k,
    {
        let idx = order[k];
        assert(ord[k as int] == idx as int);
        let f = &fs[idx];
        let bucket = visible_entries_in(manifest, state, Some(f.id.as_str()));
        let ghost before = sections@;
        sections.push((Some(f.id.as_str()), titles[idx].clone(), bucket));
        assert(ord.take(k + 1) =~= ord.take(k as int).push(idx as int));
        assert(sections@.map_values(|s: (Option<&str>, String, Vec<&LibraryEntry>)| section_view(s))
            =~= before.map_values(|s: (Option<&str>, String, Vec<&LibraryEntry>)| section_view(s)).push(
                (Some(fs@[idx as int].id@), titles_spec[idx as int], bucket_spec(*manifest, state@, Some(fs@[idx as int].id@)))));
        k += 1;
    }
    assert(ord.take(k as int) =~= ord);
    sections
}

proof fn lemma_insert_index_props(t: Seq<LibraryEntry>, x: LibraryEntry, key: LibrarySortKey)
    ensures
        0 <= insert_index(t, x, key) <= t.len(),
        forall|k: int| 0 <= k < insert_index(t, x, key) ==> !sorts_before(x, #[trigger] t[k], key),
        insert_index(t, x, key) < t.len() ==> sorts_before(x, t[insert_index(t, x, key)], key),
    decreases t.len(),
{
    if t.len() > 0 && !sorts_before(x, t[0], key) {
        lemma_insert_index_props(t.drop_first(), x, key);
        let p = insert_index(t, x, key);
        assert forall|k: int| 0 <= k < p implies !sorts_before(x, #[trigger] t[k], key) by {
            if k > 0 {
                assert(t[k] == t.drop_first()[k - 1]);
            }
        }
        if p < t.len() {
            assert(t[p] == t.drop_first()[p - 1]);
        }
    }
}

/// Sorting keeps every asset and adds none: the result is a permutation.
pub proof fn lemma_sorted_by_permutes(s: Seq<LibraryEntry>, key: LibrarySortKey)
    ensures
        sorted_by(s, key).to_multiset() == s.to_multiset(),
        sorted_by(s, key).len() == s.len(),
    decreases s.len(),
{
    if s.len() > 0 {
        lemma_sorted_by_permutes(s.drop_last(), key);
        let t = sorted_by(s.drop_last(), key);
        lemma_insert_index_props(t, s.last(), key);
        vstd::seq_lib::to_multiset_insert(t, insert_index(t, s.last(), key), s.last());
        vstd::seq_lib::to_multiset_build(s.drop_last(), s.last());
        assert(s.drop_last().push(s.last()) =~= s);
    }
}

/// Ordering by date added keeps the manifest order.
pub proof fn lemma_date_order_keeps_order(s: Seq<LibraryEntry>)
    ensures
        sorted_by(s, LibrarySortKey::DateAdded) == s,
    decreases s.len(),
{
    if s.len() > 0 {
        lemma_date_order_keeps_order(s.drop_last());
        let t = s.drop_last();
        lemma_insert_index_props(t, s.last(), LibrarySortKey::DateAdded);
        assert(t.insert(t.len() as int, s.last()) =~= s);
    }
}

proof fn lemma_seq_less_irreflexive(a: Seq<char>)
    ensures
        !seq_less(a, a),
{
}

proof fn lemma_seq_less_transitive(a: Seq<char>, b: Seq<char>, c: Seq<char>)
    requires
        seq_less(a, b),
        seq_less(b, c),
    ensures
        seq_less(a, c),
{
    let k1 = choose|k: int|
        0 <= k <= a.len() && k <= b.len() && #[trigger] a.subrange(0, k) == b.subrange(0, k) && (
        (k == a.len() && k < b.len()) || (k < a.len() && k < b.len() && (a[k] as u32) < (b[k] as u32)));
    let k2 = choose|k: int|
        0 <= k <= b.len() && k <= c.len() && #[trigger] b.subrange(0, k) == c.subrange(0, k) && (
        (k == b.len() && k < c.len()) || (k < b.len() && k < c.len() && (b[k] as u32) < (c[k] as u32)));
    let k = if k1 < k2 { k1 } else { k2 };
    assert(a.subrange(0, k) =~= b.subrange(0, k1).subrange(0, k));
    assert(c.subrange(0, k) =~= b.subrange(0, k2).subrange(0, k));
    assert(b.subrange(0, k) =~= b.subrange(0, k1).subrange(0, k));
    assert(b.subrange(0, k) =~= b.subrange(0, k2).subrange(0, k));
    if k1 < k2 {
        assert(b.subrange(0, k2)[k1] == c.subrange(0, k2)[k1]);
    } else if k2 < k1 {
        assert(a.subrange(0, k1)[k2] == b.subrange(0, k1)[k2]);
    }
    assert(0 <= k <= a.len() && k <= c.len() && a.subrange(0, k) == c.subrange(0, k) && (
        (k == a.len() && k < c.len()) || (k < a.len() && k < c.len() && (a[k] as u32) < (c[k] as u32))));
}

proof fn lemma_sorts_before_order(a: LibraryEntry, b: LibraryEntry, c: LibraryEntry, key: LibrarySortKey)
    ensures
        !sorts_before(a, a, key),
        sorts_before(a, b, key) && sorts_before(b, c, key) ==> sorts_before(a, c, key),
{
    if key == LibrarySortKey::Name {
        lemma_seq_less_irreflexive(lowercase_of(a.name@));
        if sorts_before(a, b, key) && sorts_before(b, c, key) {
            lemma_seq_less_transitive(lowercase_of(a.name@), lowercase_of(b.name@), lowercase_of(c.name@));
        }
    }
}

/// No asset is placed after one it sorts before.
pub open spec fn in_order(r: Seq<LibraryEntry>, key: LibrarySortKey) -> bool {
    forall|i: int, j: int| 0 <= i < j < r.len() ==> !sorts_before(#[trigger] r[j], #[trigger] r[i], key)
}

/// Sorting orders the assets: by lowercase name, by duration from the
/// longest, or by kind.
pub proof fn lemma_sorted_by_in_order(s: Seq<LibraryEntry>, key: LibrarySortKey)
    ensures
        in_order(sorted_by(s, key), key),
    decreases s.len(),
{
    if s.len() > 0 {
        lemma_sorted_by_in_order(s.drop_last(), key);
        let t = sorted_by(s.drop_last(), key);
        let x = s.last();
        lemma_insert_index_props(t, x, key);
        let p = insert_index(t, x, key);
        let r = t.insert(p, x);
        assert(r == sorted_by(s, key));
        assert forall|i: int, j: int| 0 <= i < j < r.len() implies !sorts_before(#[trigger] r[j], #[trigger] r[i], key) by {
            if j < p {
                assert(r[i] == t[i] && r[j] == t[j]);
            } else if j == p {
                assert(r[i] == t[i] && r[j] == x);
            } else if i < p {
                assert(r[i] == t[i] && r[j] == t[j - 1]);
            } else if i == p {
                assert(r[i] == x && r[j] == t[j - 1]);
                lemma_sorts_before_order(t[j - 1], x, t[p], key);
                lemma_sorts_before_order(t[p], x, t[p], key);
                if j - 1 > p {
                    assert(!sorts_before(t[j - 1], t[p], key));
                }
            } else {
                assert(r[i] == t[i - 1] && r[j] == t[j - 1]);
            }
        }
    }
}

proof fn lemma_passing_pass(s: Seq<LibraryEntry>, v: LibraryView, scope: Option<Option<Seq<char>>>)
    ensures
        forall|e: LibraryEntry| #[trigger] passing(s, v, scope).contains(e) ==> entry_passes_spec(e, v)
            && s.contains(e),
    decreases s.len(),
{
    if s.len() > 0 {
        lemma_passing_pass(s.drop_last(), v, scope);
        assert forall|e: LibraryEntry| #[trigger] passing(s, v, scope).contains(e) implies entry_passes_spec(e, v) && s.contains(e) by {
            let rest = passing(s.drop_last(), v, scope);
            let i = choose|i: int| 0 <= i < passing(s, v, scope).len() && passing(s, v, scope)[i] == e;
            if i < rest.len() {
                assert(rest[i] == e);
                assert(rest.contains(e));
                let k = choose|k: int| 0 <= k < s.drop_last().len() && s.drop_last()[k] == e;
                assert(s[k] == e);
            } else {
                assert(e == s.last());
                assert(s[s.len() - 1] == e);
            }
        }
    }
}

/// Every asset the grid shows is in the library and passes the kind
/// filter, the generated-only filter and the search.
pub proof fn lemma_visible_entries_pass_filters(m: LibraryManifest, v: LibraryView, e: LibraryEntry)
    requires
        visible_spec(m, v).contains(e),
    ensures
        entry_passes_spec(e, v),
        m.entries@.contains(e),
{
    let scope = if search_active_spec(v) || v.view_mode != LibraryViewMode::Folders {
        None
    } else {
        Some(v.current_folder)
    };
    let found = passing(m.entries@, v, scope);
    assert(visible_spec(m, v) == sorted_by(found, v.sort_key));
    lemma_sorted_by_permutes(found, v.sort_key);
    vstd::seq_lib::to_multiset_contains(sorted_by(found, v.sort_key), e);
    vstd::seq_lib::to_multiset_contains(found, e);
    lemma_passing_pass(m.entries@, v, scope);
}

/// The breadcrumb climb never lists a folder twice, even when parents form
/// a cycle.
pub proof fn lemma_walk_up_no_repeats(fs: Seq<LibraryFolder>, cur: Option<Seq<char>>, path: Seq<LibraryFolder>, fuel: nat)
    requires
        forall|i: int, j: int| 0 <= i < j < path.len() ==> (#[trigger] path[i]).id@ != (#[trigger] path[j]).id@,
    ensures
        forall|i: int, j: int| 0 <= i < j < walk_up(fs, cur, path, fuel).len()
            ==> (#[trigger] walk_up(fs, cur, path, fuel)[i]).id@ != (#[trigger] walk_up(fs, cur, path, fuel)[j]).id@,
    decreases fuel,
{
    if fuel > 0 {
        if let Some(id) = cur {
            if let Some(i) = folder_index(fs, id) {
                if !path_has_id(path, fs[i].id@) {
                    let next = path.push(fs[i]);
                    assert forall|a: int, b: int| 0 <= a < b < next.len() implies (#[trigger] next[a]).id@ != (#[trigger] next[b]).id@ by {
                        if b == path.len() {
                            assert(next[a] == path[a]);
                        } else {
                            assert(next[a] == path[a] && next[b] == path[b]);
                        }
                    }
                    lemma_walk_up_no_repeats(fs, opt_view(fs[i].parent_folder_id), next, (fuel - 1) as nat);
                }
            }
        }
    }
}

/// A breadcrumb chain lists each folder at most once.
pub proof fn lemma_folder_path_no_repeats(fs: Seq<LibraryFolder>, start: Option<Seq<char>>)
    ensures
        forall|i: int, j: int| 0 <= i < j < folder_path_spec(fs, start).len()
            ==> (#[trigger] folder_path_spec(fs, start)[i]).id@ != (#[trigger] folder_path_spec(fs, start)[j]).id@,
{
    let w = walk_up(fs, start, Seq::empty(), (fs.len() + 1) as nat);
    lemma_walk_up_no_repeats(fs, start, Seq::empty(), (fs.len() + 1) as nat);
    let p = folder_path_spec(fs, start);
    assert forall|i: int, j: int| 0 <= i < j < p.len() implies (#[trigger] p[i]).id@ != (#[trigger] p[j]).id@ by {
        assert(p[i] == w[w.len() - 1 - i]);
        assert(p[j] == w[w.len() - 1 - j]);
    }
}

/// Toggling keeps a duplicate-free list duplicate-free, flips whether it
/// holds the item, and toggling the same item back restores the members.
pub proof fn lemma_toggle_twice_restores<A>(s: Seq<A>, x: A)
    requires
        s.no_duplicates(),
    ensures
        toggled(s, x).no_duplicates(),
        toggled(s, x).contains(x) == !s.contains(x),
        toggled(toggled(s, x), x).to_set() == s.to_set(),
        !s.contains(x) ==> toggled(toggled(s, x), x) == s,
{
    lemma_first_index(s, x);
    match first_index(s, x) {
        Some(i) => {
            let t = s.remove(i);
            assert(!t.contains(x)) by {
                if t.contains(x) {
                    let k = choose|k: int| 0 <= k < t.len() && t[k] == x;
                    if k < i {
                        assert(s[k] == x);
                    } else {
                        assert(s[k + 1] == x);
                    }
                }
            }
            assert(t.no_duplicates()) by {
                assert forall|a: int, b: int| 0 <= a < t.len() && 0 <= b < t.len() && a != b implies t[a] != t[b] by {
                    let a2 = if a < i { a } else { a + 1 };
                    let b2 = if b < i { b } else { b + 1 };
                    assert(t[a] == s[a2] && t[b] == s[b2]);
                }
            }
            lemma_first_index(t, x);
            let u = t.push(x);
            assert(toggled(toggled(s, x), x) == u);
            assert(u.to_set() =~= s.to_set()) by {
                assert forall|y: A| u.to_set().contains(y) <==> s.to_set().contains(y) by {
                    if u.contains(y) {
                        let k = choose|k: int| 0 <= k < u.len() && u[k] == y;
                        if k == t.len() {
                            assert(s[i] == y);
                        } else if k < i {
                            assert(s[k] == y);
                        } else {
                            assert(s[k + 1] == y);
                        }
                    }
                    if s.contains(y) {
                        let k = choose|k: int| 0 <= k < s.len() && s[k] == y;
                        if k == i {
                            assert(u[t.len() as int] == y);
                        } else if k < i {
                            assert(u[k] == y);
                        } else {
                            assert(u[k - 1] == y);
                        }
                    }
                }
            }
        },
        None => {
            let u = s.push(x);
            assert(u[s.len() as int] == x);
            assert(u.no_duplicates()) by {
                assert forall|a: int, b: int| 0 <= a < u.len() && 0 <= b < u.len() && a != b implies u[a] != u[b] by {
                    if a == s.len() {
                        assert(u[b] == s[b]);
                    } else if b == s.len() {
                        assert(u[a] == s[a]);
                    } else {
                        assert(u[a] == s[a] && u[b] == s[b]);
                    }
                }
            }
            lemma_first_index(u, x);
            assert(first_index(u, x) == Some(s.len() as int)) by {
                if let Some(k) = first_index(u, x) {
                    if k < s.len() {
                        assert(s[k] == x);
                    }
                }
            }
            assert(u.remove(s.len() as int) =~= s);
        },
    }
}

/// Whether asset `e` lies in `scope` (a folder bucket, or anywhere).
pub open spec fn entry_in_scope(scope: Option<Option<Seq<char>>>, e: LibraryEntry) -> bool {
    match scope {
        Some(f) => opt_view(e.folder_id) == f,
        None => true,
    }
}

proof fn lemma_passing_exact(s: Seq<LibraryEntry>, v: LibraryView, scope: Option<Option<Seq<char>>>)
    ensures
        forall|e: LibraryEntry| #[trigger] passing(s, v, scope).contains(e) <==> (s.contains(e) && entry_passes_spec(e, v)
            && entry_in_scope(scope, e)),
    decreases s.len(),
{
    if s.len() > 0 {
        let init = s.drop_last();
        lemma_passing_exact(init, v, scope);
        let r = passing(s, v, scope);
        let rest = passing(init, v, scope);
        let last = s.last();
        let tail = if entry_in_scope(scope, last) && entry_passes_spec(last, v) { seq![last] } else { Seq::<LibraryEntry>::empty() };
        assert(r =~= rest + tail);
        assert forall|e: LibraryEntry| #[trigger] passing(s, v, scope).contains(e) <==> (s.contains(e) && entry_passes_spec(e, v)
            && entry_in_scope(scope, e)) by {
            if r.contains(e) {
                let i = choose|i: int| 0 <= i < r.len() && r[i] == e;
                if i < rest.len() {
                    assert(rest[i] == e);
                    assert(rest.contains(e));
                    let k = choose|k: int| 0 <= k < init.len() && init[k] == e;
                    assert(s[k] == e);
                } else {
                    assert(s[s.len() - 1] == e);
                }
            }
            if s.contains(e) && entry_passes_spec(e, v) && entry_in_scope(scope, e) {
                let k = choose|k: int| 0 <= k < s.len() && s[k] == e;
                if k < init.len() {
                    assert(init[k] == e);
                    assert(init.contains(e));
                    assert(passing(init, v, scope).contains(e));
                    let i = choose|i: int| 0 <= i < rest.len() && rest[i] == e;
                    assert(r[i] == e);
                } else {
                    assert(r[rest.len() as int] == e);
                }
            }
        }
    }
}

/// The grid shows exactly the library's assets that pass the kind filter,
/// the generated-only filter and the search, limited to the current
/// folder in the folders view without a search.
pub proof fn lemma_visible_entries_exact(m: LibraryManifest, v: LibraryView, e: LibraryEntry)
    ensures
        visible_spec(m, v).contains(e) <==> {
            &&& m.entries@.contains(e)
            &&& entry_passes_spec(e, v)
            &&& (!search_active_spec(v) && v.view_mode == LibraryViewMode::Folders) ==> opt_view(e.folder_id) == v.current_folder
        },
{
    let scope = if search_active_spec(v) || v.view_mode != LibraryViewMode::Folders {
        None
    } else {
        Some(v.current_folder)
    };
    let found = passing(m.entries@, v, scope);
    assert(visible_spec(m, v) == sorted_by(found, v.sort_key));
    lemma_sorted_by_permutes(found, v.sort_key);
    vstd::seq_lib::to_multiset_contains(sorted_by(found, v.sort_key), e);
    vstd::seq_lib::to_multiset_contains(found, e);
    lemma_passing_exact(m.entries@, v, scope);
    if found.contains(e) {
        assert(sorted_by(found, v.sort_key).to_multiset().count(e) > 0);
        assert(sorted_by(found, v.sort_key).contains(e));
    }
}

proof fn lemma_children_exact(fs: Seq<LibraryFolder>, parent: Option<Seq<char>>)
    ensures
        forall|f: LibraryFolder| #[trigger] children_of(fs, parent).contains(f) <==> (fs.contains(f) && opt_view(
            f.parent_folder_id,
        ) == parent),
    decreases fs.len(),
{
    if fs.len() > 0 {
        let init = fs.drop_last();
        lemma_children_exact(init, parent);
        let r = children_of(fs, parent);
        let rest = children_of(init, parent);
        let last = fs.last();
        let tail = if opt_view(last.parent_folder_id) == parent { seq![last] } else { Seq::<LibraryFolder>::empty() };
        assert(r =~= rest + tail);
        assert forall|f: LibraryFolder| #[trigger] children_of(fs, parent).contains(f) <==> (fs.contains(f) && opt_view(
            f.parent_folder_id,
        ) == parent) by {
            if r.contains(f) {
                let i = choose|i: int| 0 <= i < r.len() && r[i] == f;
                if i < rest.len() {
                    assert(rest[i] == f);
                    assert(rest.contains(f));
                    let k = choose|k: int| 0 <= k < init.len() && init[k] == f;
                    assert(fs[k] == f);
                } else {
                    assert(fs[fs.len() - 1] == f);
                }
            }
            if fs.contains(f) && opt_view(f.parent_folder_id) == parent {
                let k = choose|k: int| 0 <= k < fs.len() && fs[k] == f;
                if k < init.len() {
                    assert(init[k] == f);
                    assert(init.contains(f));
                    assert(children_of(init, parent).contains(f));
                    let i = choose|i: int| 0 <= i < rest.len() && rest[i] == f;
                    assert(r[i] == f);
                } else {
                    assert(r[rest.len() as int] == f);
                }
            }
        }
    }
}

/// Folder tiles are exactly the library's folders whose parent is the
/// current folder, and only in the folders view without a search.
pub proof fn lemma_visible_folders_exact(m: LibraryManifest, v: LibraryView, f: LibraryFolder)
    ensures
        visible_folders_spec(m, v).contains(f) <==> {
            &&& !search_active_spec(v) && v.view_mode == LibraryViewMode::Folders
            &&& m.folders@.contains(f)
            &&& opt_view(f.parent_folder_id) == v.current_folder
        },
{
    lemma_children_exact(m.folders@, v.current_folder);
}

} // verus!
