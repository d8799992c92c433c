//! Multi-session (multi-window) state model: each session is one open
//! project window; the registry hands out identifiers that are never
//! reused and tracks which window is focused.
use crate::paths::{file_stem_of, path_file_stem};
use crate::text::{append_decimal, decimal};
use vstd::prelude::*;

verus! {

/// Identifier of an open session (window); monotonically increasing and
/// never reused within a process lifetime.
#[derive(Debug, Clone, Copy, PartialEq, Eq, Hash, Structural)]
pub struct SessionId(pub u32);

impl SessionId {
    /// The display form, `session-<n>`.
    pub fn to_string(&self) -> (s: String)
        ensures
            s@ == "session-"@ + decimal(self.0 as nat),
    {
        let mut s = String::from_str("session-");
        append_decimal(&mut s, self.0 as u128);
        s
    }
}

/// Window title for a project path: its file stem, else "Untitled".
pub open spec fn session_title(project_path: Option<String>) -> Seq<char> {
    match project_path {
        Some(p) => match file_stem_of(p@) {
            Some(stem) => stem,
            None => "Untitled"@,
        },
        None => "Untitled"@,
    }
}

/// State of a single project window session.
#[derive(Debug, Clone)]
pub struct SessionState {
    pub id: SessionId,
    /// Path to the open project, or `None` for an untitled new session.
    pub project_path: Option<String>,
    /// Human-readable title shown in the window title bar.
    pub title: String,
    /// Whether this session has unsaved changes.
    pub is_dirty: bool,
    /// Whether this session's window is currently focused.
    pub is_focused: bool,
}

/// A freshly created session.
pub open spec fn is_new_session(
    s: SessionState,
    id: SessionId,
    project_path: Option<String>,
    focused: bool,
) -> bool {
    &&& s.id == id
    &&& s.project_path == project_path
    &&& s.title@ == session_title(project_path)
    &&& !s.is_dirty
    &&& s.is_focused == focused
}

impl SessionState {
    pub fn new(id: SessionId, project_path: Option<String>) -> (s: Self)
        ensures
            is_new_session(s, id, project_path, false),
    {
        let title = match &project_path {
            Some(p) => match path_file_stem(p.as_str()) {
                Some(stem) => stem,
                None => String::from_str("Untitled"),
            },
            None => String::from_str("Untitled"),
        };
        Self { id, project_path, title, is_dirty: false, is_focused: false }
    }

    pub fn mark_dirty(&mut self)
        ensures
            *final(self) == (SessionState { is_dirty: true, ..*old(self) }),
    {
        self.is_dirty = true;
    }

    pub fn mark_saved(&mut self)
        ensures
            *final(self) == (SessionState { is_dirty: false, ..*old(self) }),
    {
        self.is_dirty = false;
    }
}

/// Index `i` holds the first session with identifier `id`.
pub open spec fn is_first_with_id(s: Seq<SessionState>, id: SessionId, i: int) -> bool {
    &&& 0 <= i < s.len()
    &&& s[i].id == id
    &&& forall|j: int| 0 <= j < i ==> (#[trigger] s[j]).id != id
}

/// Index of the first session with identifier `id`.
pub open spec fn position_of(s: Seq<SessionState>, id: SessionId) -> Option<int> {
    if exists|i: int| 0 <= i < s.len() && (#[trigger] s[i]).id == id {
        Some(choose|i: int| is_first_with_id(s, id, i))
    } else {
        None
    }
}

proof fn lemma_position_at(s: Seq<SessionState>, id: SessionId, i: int)
    requires
        is_first_with_id(s, id, i),
    ensures
        position_of(s, id) == Some(i),
{
    let c = choose|k: int| is_first_with_id(s, id, k);
    assert(is_first_with_id(s, id, c));
    if c < i {
        assert(s[c].id != id);
    } else if c > i {
        assert(s[i].id != id);
    }
}

proof fn lemma_position_absent(s: Seq<SessionState>, id: SessionId)
    requires
        forall|j: int| 0 <= j < s.len() ==> (#[trigger] s[j]).id != id,
    ensures
        position_of(s, id) is None,
{
}

/// `after` is `before` with a new session for `id` appended; the first
/// session ever opened starts focused.
pub open spec fn opened(
    before: Seq<SessionState>,
    after: Seq<SessionState>,
    id: SessionId,
    project_path: Option<String>,
) -> bool {
    &&& after.len() == before.len() + 1
    &&& after.drop_last() == before
    &&& is_new_session(after.last(), id, project_path, before.len() == 0)
}

/// `s` with its last session (if any) marked focused.
pub open spec fn refocus_last(s: Seq<SessionState>) -> Seq<SessionState> {
    if s.len() > 0 {
        s.update(s.len() - 1, SessionState { is_focused: true, ..s.last() })
    } else {
        s
    }
}

/// Effect of closing `id`: the first session with that identifier leaves
/// and the last remaining session is focused; unknown ids change nothing.
pub open spec fn closed_spec(before: Seq<SessionState>, id: SessionId) -> Seq<SessionState> {
    match position_of(before, id) {
        Some(p) => refocus_last(before.remove(p)),
        None => before,
    }
}

/// Effect of focusing `id`: exactly the sessions with that identifier are
/// focused.
pub open spec fn focused_spec(before: Seq<SessionState>, id: SessionId) -> Seq<SessionState> {
    Seq::new(before.len(), |i: int| SessionState { is_focused: before[i].id == id, ..before[i] })
}

/// Index `i` holds the first focused session.
pub open spec fn is_first_focused(s: Seq<SessionState>, i: int) -> bool {
    &&& 0 <= i < s.len()
    &&& s[i].is_focused
    &&& forall|j: int| 0 <= j < i ==> !(#[trigger] s[j]).is_focused
}

/// Identifier of the first focused session.
pub open spec fn focused_of(s: Seq<SessionState>) -> Option<SessionId> {
    if exists|i: int| 0 <= i < s.len() && (#[trigger] s[i]).is_focused {
        Some(s[choose|i: int| is_first_focused(s, i)].id)
    } else {
        None
    }
}

proof fn lemma_focused_at(s: Seq<SessionState>, i: int)
    requires
        is_first_focused(s, i),
    ensures
        focused_of(s) == Some(s[i].id),
{
    let c = choose|k: int| is_first_focused(s, k);
    assert(is_first_focused(s, c));
    if c < i {
        assert(!s[c].is_focused);
    } else if c > i {
        assert(!s[i].is_focused);
    }
}

/// Identifiers are distinct and below `next`.
pub open spec fn ids_wf(s: Seq<SessionState>, next: u32) -> bool {
    &&& forall|i: int| 0 <= i < s.len() ==> (#[trigger] s[i]).id.0 < next
    &&& forall|i: int, j: int| 0 <= i < j < s.len() ==> (#[trigger] s[i]).id != (#[trigger] s[j]).id
}

/// Registry of all open sessions of the process.
#[derive(Debug)]
pub struct SessionRegistry {
    sessions: Vec<SessionState>,
    next_id: u32,
}

impl SessionRegistry {
    /// The sessions, in opening order.
    pub closed spec fn sessions(&self) -> Seq<SessionState> {
        self.sessions@
    }

    /// The identifier the next `open` hands out.
    pub closed spec fn next_id(&self) -> u32 {
        self.next_id
    }

    /// Every session carries a distinct identifier below `next_id`.
    pub open spec fn wf(&self) -> bool {
        ids_wf(self.sessions(), self.next_id())
    }

    pub fn new() -> (r: Self)
        ensures
            r.sessions() == Seq::<SessionState>::empty(),
            r.next_id() == 0,
            r.wf(),
    {
        SessionRegistry { sessions: Vec::new(), next_id: 0 }
    }

    /// Open a new session, optionally for a project at `project_path`.
    pub fn open(&mut self, project_path: Option<String>) -> (id: SessionId)
        requires
            old(self).next_id() < u32::MAX,
        ensures
            id == SessionId(old(self).next_id()),
            final(self).next_id() == old(self).next_id() + 1,
            opened(old(self).sessions(), final(self).sessions(), id, project_path),
            old(self).wf() ==> final(self).wf(),
    {
        let id = SessionId(self.next_id);
        self.next_id += 1;
        let mut session = SessionState::new(id, project_path);
        if self.sessions.len() == 0 {
            session.is_focused = true;
        }
        self.sessions.push(session);
        assert(self.sessions@.drop_last() =~= old(self).sessions@);
        id
    }

    /// Close a session by identifier; `true` when it was found and removed.
    pub fn close(&mut self, id: SessionId) -> (found: bool)
        ensures
            found == (position_of(old(self).sessions(), id) is Some),
            final(self).sessions() == closed_spec(old(self).sessions(), id),
            final(self).next_id() == old(self).next_id(),
            old(self).wf() ==> final(self).wf(),
    {
        let mut i: usize = 0;
        while i < self.sessions.len()
            invariant
                0 <= i <= self.sessions.len(),
                self.sessions@ == old(self).sessions@,
                self.next_id == old(self).next_id,
                forall|j: int| 0 <= j < i ==> (#[trigger] self.sessions@[j]).id != id,
            decreases self.sessions.len() - i,
        {
            if self.sessions[i].id == id {
                proof {
                    lemma_position_at(self.sessions@, id, i as int);
                }
                self.sessions.remove(i);
                let n = self.sessions.len();
                if n > 0 {
                    let last = &mut self.sessions[n - 1];
                    last.is_focused = true;
                }
                assert(self.sessions@ =~= closed_spec(old(self).sessions@, id));
                proof {
                    let b = old(self).sessions@;
                    let a = self.sessions@;
                    if old(self).wf() {
                        assert forall|x: int| 0 <= x < a.len() implies (#[trigger] a[x]).id.0
                            < self.next_id by {
                            if x < i {
                                assert(a[x].id == b[x].id);
                            } else {
                                assert(a[x].id == b[x + 1].id);
                            }
                        }
                        assert forall|x: int, y: int| 0 <= x < y < a.len() implies (#[trigger] a[x]).id
                            != (#[trigger] a[y]).id by {
                            let bx = if x < i { x } else { x + 1 };
                            let by_ = if y < i { y } else { y + 1 };
                            assert(a[x].id == b[bx].id);
                            assert(a[y].id == b[by_].id);
                        }
                    }
                }
                return true;
            }
            i += 1;
        }
        proof {
            lemma_position_absent(self.sessions@, id);
        }
        false
    }

    pub fn get(&self, id: SessionId) -> (r: Option<&SessionState>)
        ensures
            match position_of(self.sessions(), id) {
                Some(p) => r is Some && *r->0 == self.sessions()[p],
                None => r is None,
            },
    {
        let mut i: usize = 0;
        while i < self.sessions.len()
            invariant
                0 <= i <= self.sessions.len(),
                forall|j: int| 0 <= j < i ==> (#[trigger] self.sessions@[j]).id != id,
            decreases self.sessions.len() - i,
        {
            if self.sessions[i].id == id {
                proof {
                    lemma_position_at(self.sessions@, id, i as int);
                }
                return Some(&self.sessions[i]);
            }
            i += 1;
        }
        proof {
            lemma_position_absent(self.sessions@, id);
        }
        None
    }

    /// Whether `open` may hand out another identifier: the counter has
    /// not reached its limit.
    pub fn can_open(&self) -> (b: bool)
        ensures
            b == (self.next_id() < u32::MAX),
    {
        self.next_id < u32::MAX
    }

    pub fn len(&self) -> (n: usize)
        ensures
            n == self.sessions().len(),
    {
        self.sessions.len()
    }

    pub fn is_empty(&self) -> (b: bool)
        ensures
            b == (self.sessions().len() == 0),
    {
        self.sessions.len() == 0
    }

    /// Identifier of the first focused session.
    pub fn focused_id(&self) -> (r: Option<SessionId>)
        ensures
            r == focused_of(self.sessions()),
    {
        let mut i: usize = 0;
        while i < self.sessions.len()
            invariant
                0 <= i <= self.sessions.len(),
                forall|j: int| 0 <= j < i ==> !(#[trigger] self.sessions@[j]).is_focused,
            decreases self.sessions.len() - i,
        {
            if self.sessions[i].is_focused {
                proof {
                    lemma_focused_at(self.sessions@, i as int);
                }
                return Some(self.sessions[i].id);
            }
            i += 1;
        }
        None
    }

    /// Focus `id`: its session is focused, every other one is not.
    pub fn set_focused(&mut self, id: SessionId)
        ensures
            final(self).sessions() == focused_spec(old(self).sessions(), id),
            final(self).next_id() == old(self).next_id(),
            old(self).wf() ==> final(self).wf(),
    {
        let mut i: usize = 0;
        while i < self.sessions.len()
            invariant
                0 <= i <= self.sessions.len(),
                self.sessions@.len() == old(self).sessions@.len(),
                self.next_id == old(self).next_id,
                forall|j: int|
                    0 <= j < i ==> #[trigger] self.sessions@[j] == (SessionState {
                        is_focused: old(self).sessions@[j].id == id,
                        ..old(self).sessions@[j]
                    }),
                forall|j: int| i <= j < self.sessions@.len() ==> #[trigger] self.sessions@[j] == old(self).sessions@[j],
            decreases self.sessions.len() - i,
        {
            let s = &mut self.sessions[i];
            s.is_focused = s.id == id;
            i += 1;
        }
        assert(self.sessions@ =~= focused_spec(old(self).sessions@, id));
    }

    /// All sessions, in opening order.
    pub fn all(&self) -> (r: &[SessionState])
        ensures
            r@ == self.sessions(),
    {
        self.sessions.as_slice()
    }

    pub fn get_mut(&mut self, id: SessionId) -> (r: Option<&mut SessionState>)
        ensures
            match position_of(old(self).sessions(), id) {
                Some(p) => r is Some && *r->0 == old(self).sessions()[p] && final(self).sessions()
                    == old(self).sessions().update(p, *final(r->0)),
                None => r is None && final(self).sessions() == old(self).sessions(),
            },
            final(self).next_id() == old(self).next_id(),
    {
        let mut i: usize = 0;
        while i < self.sessions.len()
            invariant
                0 <= i <= self.sessions.len(),
                self.sessions@ == old(self).sessions@,
                self.next_id == old(self).next_id,
                forall|j: int| 0 <= j < i ==> (#[trigger] self.sessions@[j]).id != id,
            decreases self.sessions.len() - i,
        {
            if self.sessions[i].id == id {
                proof {
                    lemma_position_at(self.sessions@, id, i as int);
                }
                return Some(&mut self.sessions[i]);
            }
            i += 1;
        }
        proof {
            lemma_position_absent(self.sessions@, id);
        }
        None
    }
}

/// Identifiers handed out by `open` are never reused, even after closes:
/// `open` hands out the registry's `next_id` and raises it by one, and no
/// operation lowers it, so every identifier handed out earlier (each below
/// the `next_id` of its time, hence below the current one) differs from
/// the one handed out now, and the history stays below the raised
/// counter.
pub proof fn lemma_open_ids_never_repeat(handed_out: Seq<SessionId>, next_then: u32, next_now: u32)
    requires
        forall|i: int| 0 <= i < handed_out.len() ==> (#[trigger] handed_out[i]).0 < next_then,
        next_then <= next_now,
        next_now < u32::MAX,
    ensures
        forall|i: int| 0 <= i < handed_out.len() ==> #[trigger] handed_out[i] != SessionId(next_now),
        forall|i: int|
            0 <= i < handed_out.push(SessionId(next_now)).len() ==> (#[trigger] handed_out.push(
                SessionId(next_now),
            )[i]).0 < next_now + 1,
{
    assert forall|i: int| 0 <= i < handed_out.push(SessionId(next_now)).len() implies (#[trigger] handed_out.push(
        SessionId(next_now),
    )[i]).0 < next_now + 1 by {
        if i < handed_out.len() {
            assert(handed_out.push(SessionId(next_now))[i] == handed_out[i]);
        }
    }
}

/// An opened session gets an identifier no open session carries, is found
/// again under it, and identifiers stay distinct.
pub proof fn lemma_open_hands_out_fresh_id(
    before: Seq<SessionState>,
    after: Seq<SessionState>,
    next: u32,
    project_path: Option<String>,
)
    requires
        ids_wf(before, next),
        next < u32::MAX,
        opened(before, after, SessionId(next), project_path),
    ensures
        forall|i: int| 0 <= i < before.len() ==> (#[trigger] before[i]).id != SessionId(next),
        position_of(after, SessionId(next)) == Some(before.len() as int),
        ids_wf(after, (next + 1) as u32),
{
    assert forall|j: int| 0 <= j < before.len() implies (#[trigger] after[j]).id != SessionId(next) by {
        assert(after[j] == after.drop_last()[j]);
    }
    lemma_position_at(after, SessionId(next), before.len() as int);
    assert forall|x: int, y: int| 0 <= x < y < after.len() implies (#[trigger] after[x]).id
        != (#[trigger] after[y]).id by {
        assert(after[x] == after.drop_last()[x]);
        if y < before.len() {
            assert(after[y] == after.drop_last()[y]);
        }
    }
    assert forall|x: int| 0 <= x < after.len() implies (#[trigger] after[x]).id.0 < next + 1 by {
        if x < before.len() {
            assert(after[x] == after.drop_last()[x]);
        }
    }
}

/// The first session ever opened is the focused one.
pub proof fn lemma_first_session_is_focused(
    after: Seq<SessionState>,
    id: SessionId,
    project_path: Option<String>,
)
    requires
        opened(Seq::empty(), after, id, project_path),
    ensures
        focused_of(after) == Some(id),
{
    lemma_focused_at(after, 0);
}

/// Once closed, a session is no longer found, and exactly one session left.
pub proof fn lemma_closed_session_is_gone(before: Seq<SessionState>, next: u32, id: SessionId)
    requires
        ids_wf(before, next),
    ensures
        position_of(closed_spec(before, id), id) is None,
        closed_spec(before, id).len() == if position_of(before, id) is Some {
            before.len() - 1
        } else {
            before.len() as int
        },
{
    match position_of(before, id) {
        Some(p) => {
            lemma_some_position_has_first(before, id);
            let c = choose|k: int| is_first_with_id(before, id, k);
            assert(is_first_with_id(before, id, c));
            let r = before.remove(p);
            let a = closed_spec(before, id);
            assert forall|j: int| 0 <= j < a.len() implies (#[trigger] a[j]).id != id by {
                assert(a[j].id == r[j].id);
                if j < p {
                    assert(r[j] == before[j]);
                } else {
                    assert(r[j] == before[j + 1]);
                }
            }
            lemma_position_absent(a, id);
        },
        None => {
            if exists|i: int| 0 <= i < before.len() && (#[trigger] before[i]).id == id {
                let i = choose|i: int| 0 <= i < before.len() && (#[trigger] before[i]).id == id;
                assert(false) by {
                    lemma_first_index(before, id, i);
                }
            }
        },
    }
}

proof fn lemma_first_index(s: Seq<SessionState>, id: SessionId, i: int)
    requires
        0 <= i < s.len(),
        s[i].id == id,
    ensures
        exists|k: int| is_first_with_id(s, id, k),
        position_of(s, id) is Some,
    decreases i,
{
    if exists|j: int| 0 <= j < i && (#[trigger] s[j]).id == id {
        let j = choose|j: int| 0 <= j < i && (#[trigger] s[j]).id == id;
        lemma_first_index(s, id, j);
    } else {
        assert(is_first_with_id(s, id, i));
        lemma_position_at(s, id, i);
    }
}

proof fn lemma_some_position_has_first(s: Seq<SessionState>, id: SessionId)
    requires
        position_of(s, id) is Some,
    ensures
        exists|k: int| is_first_with_id(s, id, k),
{
    let i = choose|i: int| 0 <= i < s.len() && (#[trigger] s[i]).id == id;
    lemma_first_index(s, id, i);
}

/// After focusing an open session, it is the focused one.
pub proof fn lemma_set_focused_then_focused_id(before: Seq<SessionState>, next: u32, id: SessionId)
    requires
        ids_wf(before, next),
        position_of(before, id) is Some,
    ensures
        focused_of(focused_spec(before, id)) == Some(id),
{
    lemma_some_position_has_first(before, id);
    let p = choose|k: int| is_first_with_id(before, id, k);
    assert(is_first_with_id(before, id, p));
    let a = focused_spec(before, id);
    assert forall|j: int| 0 <= j < p implies !(#[trigger] a[j]).is_focused by {
        assert(before[j].id != id);
    }
    lemma_focused_at(a, p);
}

impl Default for SessionRegistry {
    fn default() -> (r: Self)
        ensures
            r.sessions() == Seq::<SessionState>::empty(),
            r.next_id() == 0,
    {
        Self::new()
    }
}

} // verus!
