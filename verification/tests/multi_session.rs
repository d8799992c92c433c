use app_shell::multi_session::{SessionId, SessionRegistry, SessionState};

#[test]
fn issue_137_registry_starts_empty() {
    let reg = SessionRegistry::new();
    assert_eq!(reg.len(), 0);
    assert!(reg.is_empty());
}

#[test]
fn issue_137_open_new_session_returns_unique_id() {
    let mut reg = SessionRegistry::new();
    let a = reg.open(None);
    let b = reg.open(None);
    assert_ne!(a, b);
    assert_eq!(reg.len(), 2);
}

#[test]
fn issue_137_first_session_is_focused() {
    let mut reg = SessionRegistry::new();
    let id = reg.open(None);
    assert!(reg.get(id).unwrap().is_focused);
}

#[test]
fn issue_137_second_session_not_focused_by_default() {
    let mut reg = SessionRegistry::new();
    reg.open(None);
    let b = reg.open(None);
    assert!(!reg.get(b).unwrap().is_focused);
}

#[test]
fn issue_137_close_session_removes_it() {
    let mut reg = SessionRegistry::new();
    let id = reg.open(None);
    assert!(reg.close(id));
    assert_eq!(reg.len(), 0);
}

#[test]
fn issue_137_close_nonexistent_returns_false() {
    let mut reg = SessionRegistry::new();
    assert!(!reg.close(SessionId(99)));
}

#[test]
fn issue_137_close_focused_refocuses_last() {
    let mut reg = SessionRegistry::new();
    let a = reg.open(None);
    let b = reg.open(None);
    reg.set_focused(a);
    reg.close(a);
    assert!(reg.get(b).unwrap().is_focused);
}

#[test]
fn issue_137_set_focused_switches_focus() {
    let mut reg = SessionRegistry::new();
    let a = reg.open(None);
    let b = reg.open(None);
    reg.set_focused(b);
    assert!(!reg.get(a).unwrap().is_focused);
    assert!(reg.get(b).unwrap().is_focused);
    assert_eq!(reg.focused_id(), Some(b));
}

#[test]
fn issue_137_session_title_derived_from_path() {
    let mut reg = SessionRegistry::new();
    let id = reg.open(Some("/projects/my-film.palmier".into()));
    let title = &reg.get(id).unwrap().title;
    assert_eq!(title, "my-film");
}

#[test]
fn issue_137_untitled_session_default_title() {
    let mut reg = SessionRegistry::new();
    let id = reg.open(None);
    assert_eq!(reg.get(id).unwrap().title, "Untitled");
}

#[test]
fn issue_137_mark_dirty_and_saved() {
    let mut reg = SessionRegistry::new();
    let id = reg.open(None);
    reg.get_mut(id).unwrap().mark_dirty();
    assert!(reg.get(id).unwrap().is_dirty);
    reg.get_mut(id).unwrap().mark_saved();
    assert!(!reg.get(id).unwrap().is_dirty);
}

#[test]
fn issue_137_session_id_display() {
    let id = SessionId(3);
    assert_eq!(id.to_string(), "session-3");
}

// ---- further checks ----

#[test]
fn ids_are_never_reused_after_close() {
    let mut reg = SessionRegistry::new();
    let a = reg.open(None);
    assert!(reg.close(a));
    let b = reg.open(None);
    assert_ne!(a, b);
    assert_eq!(b, SessionId(1));
    assert!(reg.get(a).is_none());
    assert!(reg.get(b).is_some());
}

#[test]
fn closing_a_background_session_focuses_the_last_one() {
    let mut reg = SessionRegistry::new();
    let a = reg.open(None);
    let b = reg.open(None);
    let c = reg.open(None);
    reg.set_focused(a);
    assert!(reg.close(b));
    assert!(reg.get(a).unwrap().is_focused);
    assert!(reg.get(c).unwrap().is_focused);
    assert_eq!(reg.focused_id(), Some(a));
    let ids: Vec<SessionId> = reg.all().iter().map(|s| s.id).collect();
    assert_eq!(ids, vec![a, c]);
}

#[test]
fn title_stem_drops_only_last_extension() {
    let s = SessionState::new(SessionId(7), Some("/films/cut.v2.palmier".into()));
    assert_eq!(s.title, "cut.v2");
    assert!(!s.is_dirty && !s.is_focused);
    let root = SessionState::new(SessionId(8), Some("/".into()));
    assert_eq!(root.title, "Untitled");
}

#[test]
fn session_id_display_multi_digit() {
    assert_eq!(SessionId(0).to_string(), "session-0");
    assert_eq!(SessionId(4294967295).to_string(), "session-4294967295");
}

#[test]
fn focused_id_none_when_empty_or_after_unknown_focus() {
    let mut reg = SessionRegistry::new();
    assert_eq!(reg.focused_id(), None);
    reg.open(None);
    reg.set_focused(SessionId(42));
    assert_eq!(reg.focused_id(), None);
    assert!(reg.get_mut(SessionId(42)).is_none());
}

#[test]
fn a_fresh_registry_can_open() {
    let mut r = SessionRegistry::new();
    assert!(r.can_open());
    r.open(None);
    assert!(r.can_open());
}
