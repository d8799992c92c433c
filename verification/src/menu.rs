//! Application menus, their keyboard shortcuts, and shortcut routing.
use vstd::prelude::*;

verus! {

/// Top-level menu groups.
#[derive(Debug, Clone, Copy, PartialEq, Eq, Structural)]
pub enum MenuGroup {
    App,
    File,
    Edit,
    View,
    Help,
}

/// Menu item and shortcut action identifiers.
#[derive(Debug, Clone, Copy, PartialEq, Eq, Structural)]
pub enum MenuAction {
    // App menu
    About,
    CheckForUpdates,
    Settings,
    Quit,
    // File menu
    NewProject,
    OpenProject,
    SaveProject,
    SaveProjectAs,
    ImportMedia,
    Export,
    // Edit menu
    Undo,
    Redo,
    Cut,
    Copy,
    Paste,
    SelectAll,
    SplitAtPlayhead,
    TrimStartToPlayhead,
    TrimEndToPlayhead,
    Delete,
    /// Ripple delete (⌥⌫).
    RippleDelete,
    // View menu
    ToggleMediaPanel,
    ToggleInspector,
    ToggleAgentPanel,
    MaximizeFocusedPane,
    EnterFullScreen,
    // Layout submenu
    LayoutDefault,
    LayoutMedia,
    LayoutVertical,
    // Help menu
    Tutorial,
    KeyboardShortcuts,
    McpInstructions,
    SendFeedback,
    // Playback
    /// Space — play/pause.
    PlayPause,
    /// J — play backward.
    PlayBackward,
    /// K — pause.
    PauseJkl,
    /// L — play forward.
    PlayForward,
    /// ← — step one frame backward.
    StepFrameBackward,
    /// → — step one frame forward.
    StepFrameForward,
    /// ⇧← — jump multiple frames backward.
    SkipFramesBackward,
    /// ⇧→ — jump multiple frames forward.
    SkipFramesForward,
    // Marking
    /// I — mark range start.
    MarkIn,
    /// O — mark range end.
    MarkOut,
    /// ⌥I — clear mark in.
    ClearMarkIn,
    /// ⌥O — clear mark out.
    ClearMarkOut,
    /// ⌥X — clear both marks.
    ClearMarks,
    // Timeline zoom
    /// = — zoom timeline in.
    TimelineZoomIn,
    /// - — zoom timeline out.
    TimelineZoomOut,
    /// ⇧Z — fit timeline to window.
    TimelineFitToWindow,
}

/// Modifier key flags.
#[derive(Debug, Clone, Copy, PartialEq, Eq, Structural)]
pub struct Modifiers {
    pub command: bool,
    pub shift: bool,
    pub option: bool,
    pub control: bool,
}

impl Default for Modifiers {
    fn default() -> (m: Self)
        ensures
            m == no_mods(),
    {
        Modifiers { command: false, shift: false, option: false, control: false }
    }
}

/// Keyboard shortcut binding.
#[derive(Debug, Clone)]
pub struct Shortcut {
    pub key: String,
    pub modifiers: Modifiers,
    pub action: MenuAction,
}

/// A chord in the model: key text, modifiers, action.
pub type Chord = (Seq<char>, Modifiers, MenuAction);

/// The model of a shortcut.
pub open spec fn chord_of(s: Shortcut) -> Chord {
    (s.key@, s.modifiers, s.action)
}

pub open spec fn mods(command: bool, shift: bool, option: bool, control: bool) -> Modifiers {
    Modifiers { command, shift, option, control }
}

pub open spec fn no_mods() -> Modifiers {
    mods(false, false, false, false)
}

pub open spec fn cmd_mods() -> Modifiers {
    mods(true, false, false, false)
}

pub open spec fn cmd_shift_mods() -> Modifiers {
    mods(true, true, false, false)
}

pub open spec fn cmd_option_mods() -> Modifiers {
    mods(true, false, true, false)
}

pub open spec fn shift_mods() -> Modifiers {
    mods(false, true, false, false)
}

pub open spec fn option_mods() -> Modifiers {
    mods(false, false, true, false)
}

impl Shortcut {
    pub fn new(key: &str, modifiers: Modifiers, action: MenuAction) -> (s: Self)
        ensures
            chord_of(s) == (key@, modifiers, action),
    {
        Self { key: key.to_owned(), modifiers, action }
    }

    pub fn cmd(key: &str, action: MenuAction) -> (s: Self)
        ensures
            chord_of(s) == (key@, cmd_mods(), action),
    {
        Self::new(key, Modifiers { command: true, shift: false, option: false, control: false }, action)
    }

    pub fn cmd_shift(key: &str, action: MenuAction) -> (s: Self)
        ensures
            chord_of(s) == (key@, cmd_shift_mods(), action),
    {
        Self::new(key, Modifiers { command: true, shift: true, option: false, control: false }, action)
    }

    pub fn cmd_option(key: &str, action: MenuAction) -> (s: Self)
        ensures
            chord_of(s) == (key@, cmd_option_mods(), action),
    {
        Self::new(key, Modifiers { command: true, shift: false, option: true, control: false }, action)
    }
}

/// The menu structure: each group with its items in display order.
pub open spec fn menu_table() -> Seq<(MenuGroup, Seq<MenuAction>)> {
    seq![
        (MenuGroup::App, seq![
            MenuAction::About,
            MenuAction::CheckForUpdates,
            MenuAction::Settings,
            MenuAction::Quit,
        ]),
        (MenuGroup::File, seq![
            MenuAction::NewProject,
            MenuAction::OpenProject,
            MenuAction::SaveProject,
            MenuAction::SaveProjectAs,
            MenuAction::ImportMedia,
            MenuAction::Export,
        ]),
        (MenuGroup::Edit, seq![
            MenuAction::Undo,
            MenuAction::Redo,
            MenuAction::Cut,
            MenuAction::Copy,
            MenuAction::Paste,
            MenuAction::SelectAll,
            MenuAction::SplitAtPlayhead,
            MenuAction::TrimStartToPlayhead,
            MenuAction::TrimEndToPlayhead,
            MenuAction::Delete,
        ]),
        (MenuGroup::View, seq![
            MenuAction::ToggleMediaPanel,
            MenuAction::ToggleInspector,
            MenuAction::ToggleAgentPanel,
            MenuAction::MaximizeFocusedPane,
            MenuAction::EnterFullScreen,
            MenuAction::LayoutDefault,
            MenuAction::LayoutMedia,
            MenuAction::LayoutVertical,
        ]),
        (MenuGroup::Help, seq![
            MenuAction::Tutorial,
            MenuAction::KeyboardShortcuts,
            MenuAction::McpInstructions,
            MenuAction::SendFeedback,
        ]),
    ]
}

/// All menu items organized by group.
pub fn all_menus() -> (r: Vec<(MenuGroup, Vec<MenuAction>)>)
    ensures
        r.len() == menu_table().len(),
        forall|i: int|
            0 <= i < r.len() ==> (#[trigger] r[i]).0 == menu_table()[i].0 && r[i].1@
                == menu_table()[i].1,
{
    let r = vec![
        (
            MenuGroup::App,
            vec![
                MenuAction::About,
                MenuAction::CheckForUpdates,
                MenuAction::Settings,
                MenuAction::Quit,
            ],
        ),
        (
            MenuGroup::File,
            vec![
                MenuAction::NewProject,
                MenuAction::OpenProject,
                MenuAction::SaveProject,
                MenuAction::SaveProjectAs,
                MenuAction::ImportMedia,
                MenuAction::Export,
            ],
        ),
        (
            MenuGroup::Edit,
            vec![
                MenuAction::Undo,
                MenuAction::Redo,
                MenuAction::Cut,
                MenuAction::Copy,
                MenuAction::Paste,
                MenuAction::SelectAll,
                MenuAction::SplitAtPlayhead,
                MenuAction::TrimStartToPlayhead,
                MenuAction::TrimEndToPlayhead,
                MenuAction::Delete,
            ],
        ),
        (
            MenuGroup::View,
            vec![
                MenuAction::ToggleMediaPanel,
                MenuAction::ToggleInspector,
                MenuAction::ToggleAgentPanel,
                MenuAction::MaximizeFocusedPane,
                MenuAction::EnterFullScreen,
                MenuAction::LayoutDefault,
                MenuAction::LayoutMedia,
                MenuAction::LayoutVertical,
            ],
        ),
        (
            MenuGroup::Help,
            vec![
                MenuAction::Tutorial,
                MenuAction::KeyboardShortcuts,
                MenuAction::McpInstructions,
                MenuAction::SendFeedback,
            ],
        ),
    ];
    assert(r[0].1@ =~= menu_table()[0].1);
    assert(r[1].1@ =~= menu_table()[1].1);
    assert(r[2].1@ =~= menu_table()[2].1);
    assert(r[3].1@ =~= menu_table()[3].1);
    assert(r[4].1@ =~= menu_table()[4].1);
    r
}

/// The shortcut table: every chord in binding order.
pub open spec fn shortcut_table() -> Seq<Chord> {
    seq![
        (seq![','], cmd_mods(), MenuAction::Settings),
        (seq!['q'], cmd_mods(), MenuAction::Quit),
        (seq!['n'], cmd_mods(), MenuAction::NewProject),
        (seq!['o'], cmd_mods(), MenuAction::OpenProject),
        (seq!['s'], cmd_mods(), MenuAction::SaveProject),
        (seq!['s'], cmd_shift_mods(), MenuAction::SaveProjectAs),
        (seq!['i'], cmd_mods(), MenuAction::ImportMedia),
        (seq!['e'], cmd_mods(), MenuAction::Export),
        (seq!['z'], cmd_mods(), MenuAction::Undo),
        (seq!['z'], cmd_shift_mods(), MenuAction::Redo),
        (seq!['x'], cmd_mods(), MenuAction::Cut),
        (seq!['c'], cmd_mods(), MenuAction::Copy),
        (seq!['v'], cmd_mods(), MenuAction::Paste),
        (seq!['a'], cmd_mods(), MenuAction::SelectAll),
        (seq!['k'], cmd_mods(), MenuAction::SplitAtPlayhead),
        (seq!['q'], no_mods(), MenuAction::TrimStartToPlayhead),
        (seq!['w'], no_mods(), MenuAction::TrimEndToPlayhead),
        (seq!['b', 'a', 'c', 'k', 's', 'p', 'a', 'c', 'e'], no_mods(), MenuAction::Delete),
        (seq!['0'], cmd_mods(), MenuAction::ToggleMediaPanel),
        (seq!['0'], cmd_option_mods(), MenuAction::ToggleInspector),
        (seq!['a'], cmd_option_mods(), MenuAction::ToggleAgentPanel),
        (seq!['`'], no_mods(), MenuAction::MaximizeFocusedPane),
        (seq!['f'], cmd_mods(), MenuAction::EnterFullScreen),
        (seq!['1'], cmd_mods(), MenuAction::LayoutDefault),
        (seq!['2'], cmd_mods(), MenuAction::LayoutMedia),
        (seq!['3'], cmd_mods(), MenuAction::LayoutVertical),
        (seq!['/'], cmd_shift_mods(), MenuAction::KeyboardShortcuts),
        (seq!['s', 'p', 'a', 'c', 'e'], no_mods(), MenuAction::PlayPause),
        (seq!['j'], no_mods(), MenuAction::PlayBackward),
        (seq!['k'], no_mods(), MenuAction::PauseJkl),
        (seq!['l'], no_mods(), MenuAction::PlayForward),
        (seq!['l', 'e', 'f', 't'], no_mods(), MenuAction::StepFrameBackward),
        (seq!['r', 'i', 'g', 'h', 't'], no_mods(), MenuAction::StepFrameForward),
        (seq!['l', 'e', 'f', 't'], shift_mods(), MenuAction::SkipFramesBackward),
        (seq!['r', 'i', 'g', 'h', 't'], shift_mods(), MenuAction::SkipFramesForward),
        (seq!['i'], no_mods(), MenuAction::MarkIn),
        (seq!['o'], no_mods(), MenuAction::MarkOut),
        (seq!['i'], option_mods(), MenuAction::ClearMarkIn),
        (seq!['o'], option_mods(), MenuAction::ClearMarkOut),
        (seq!['x'], option_mods(), MenuAction::ClearMarks),
        (seq!['b', 'a', 'c', 'k', 's', 'p', 'a', 'c', 'e'], option_mods(), MenuAction::RippleDelete),
        (seq!['='], no_mods(), MenuAction::TimelineZoomIn),
        (seq!['-'], no_mods(), MenuAction::TimelineZoomOut),
        (seq!['z'], shift_mods(), MenuAction::TimelineFitToWindow),
    ]
}

/// All keyboard shortcuts.
pub fn all_shortcuts() -> (r: Vec<Shortcut>)
    ensures
        r@.map_values(|s: Shortcut| chord_of(s)) == shortcut_table(),
{
    proof {
        reveal_strlit(",");
        reveal_strlit("-");
        reveal_strlit("/");
        reveal_strlit("0");
        reveal_strlit("1");
        reveal_strlit("2");
        reveal_strlit("3");
        reveal_strlit("=");
        reveal_strlit("`");
        reveal_strlit("a");
        reveal_strlit("backspace");
        reveal_strlit("c");
        reveal_strlit("e");
        reveal_strlit("f");
        reveal_strlit("i");
        reveal_strlit("j");
        reveal_strlit("k");
        reveal_strlit("l");
        reveal_strlit("left");
        reveal_strlit("n");
        reveal_strlit("o");
        reveal_strlit("q");
        reveal_strlit("right");
        reveal_strlit("s");
        reveal_strlit("space");
        reveal_strlit("v");
        reveal_strlit("w");
        reveal_strlit("x");
        reveal_strlit("z");
    }
    let r = vec![
        Shortcut::cmd(",", MenuAction::Settings),
        Shortcut::cmd("q", MenuAction::Quit),
        Shortcut::cmd("n", MenuAction::NewProject),
        Shortcut::cmd("o", MenuAction::OpenProject),
        Shortcut::cmd("s", MenuAction::SaveProject),
        Shortcut::cmd_shift("s", MenuAction::SaveProjectAs),
        Shortcut::cmd("i", MenuAction::ImportMedia),
        Shortcut::cmd("e", MenuAction::Export),
        Shortcut::cmd("z", MenuAction::Undo),
        Shortcut::cmd_shift("z", MenuAction::Redo),
        Shortcut::cmd("x", MenuAction::Cut),
        Shortcut::cmd("c", MenuAction::Copy),
        Shortcut::cmd("v", MenuAction::Paste),
        Shortcut::cmd("a", MenuAction::SelectAll),
        Shortcut::cmd("k", MenuAction::SplitAtPlayhead),
        Shortcut::new("q", Modifiers { command: false, shift: false, option: false, control: false }, MenuAction::TrimStartToPlayhead),
        Shortcut::new("w", Modifiers { command: false, shift: false, option: false, control: false }, MenuAction::TrimEndToPlayhead),
        Shortcut::new("backspace", Modifiers { command: false, shift: false, option: false, control: false }, MenuAction::Delete),
        Shortcut::cmd("0", MenuAction::ToggleMediaPanel),
        Shortcut::cmd_option("0", MenuAction::ToggleInspector),
        Shortcut::cmd_option("a", MenuAction::ToggleAgentPanel),
        Shortcut::new("`", Modifiers { command: false, shift: false, option: false, control: false }, MenuAction::MaximizeFocusedPane),
        Shortcut::cmd("f", MenuAction::EnterFullScreen),
        Shortcut::cmd("1", MenuAction::LayoutDefault),
        Shortcut::cmd("2", MenuAction::LayoutMedia),
        Shortcut::cmd("3", MenuAction::LayoutVertical),
        Shortcut::cmd_shift("/", MenuAction::KeyboardShortcuts),
        Shortcut::new("space", Modifiers { command: false, shift: false, option: false, control: false }, MenuAction::PlayPause),
        Shortcut::new("j", Modifiers { command: false, shift: false, option: false, control: false }, MenuAction::PlayBackward),
        Shortcut::new("k", Modifiers { command: false, shift: false, option: false, control: false }, MenuAction::PauseJkl),
        Shortcut::new("l", Modifiers { command: false, shift: false, option: false, control: false }, MenuAction::PlayForward),
        Shortcut::new("left", Modifiers { command: false, shift: false, option: false, control: false }, MenuAction::StepFrameBackward),
        Shortcut::new("right", Modifiers { command: false, shift: false, option: false, control: false }, MenuAction::StepFrameForward),
        Shortcut::new("left", Modifiers { command: false, shift: true, option: false, control: false }, MenuAction::SkipFramesBackward),
        Shortcut::new("right", Modifiers { command: false, shift: true, option: false, control: false }, MenuAction::SkipFramesForward),
        Shortcut::new("i", Modifiers { command: false, shift: false, option: false, control: false }, MenuAction::MarkIn),
        Shortcut::new("o", Modifiers { command: false, shift: false, option: false, control: false }, MenuAction::MarkOut),
        Shortcut::new("i", Modifiers { command: false, shift: false, option: true, control: false }, MenuAction::ClearMarkIn),
        Shortcut::new("o", Modifiers { command: false, shift: false, option: true, control: false }, MenuAction::ClearMarkOut),
        Shortcut::new("x", Modifiers { command: false, shift: false, option: true, control: false }, MenuAction::ClearMarks),
        Shortcut::new("backspace", Modifiers { command: false, shift: false, option: true, control: false }, MenuAction::RippleDelete),
        Shortcut::new("=", Modifiers { command: false, shift: false, option: false, control: false }, MenuAction::TimelineZoomIn),
        Shortcut::new("-", Modifiers { command: false, shift: false, option: false, control: false }, MenuAction::TimelineZoomOut),
        Shortcut::new("z", Modifiers { command: false, shift: true, option: false, control: false }, MenuAction::TimelineFitToWindow),
    ];
    assert(chord_of(r@[0]) == shortcut_table()[0]);
    assert(chord_of(r@[1]) == shortcut_table()[1]);
    assert(chord_of(r@[2]) == shortcut_table()[2]);
    assert(chord_of(r@[3]) == shortcut_table()[3]);
    assert(chord_of(r@[4]) == shortcut_table()[4]);
    assert(chord_of(r@[5]) == shortcut_table()[5]);
    assert(chord_of(r@[6]) == shortcut_table()[6]);
    assert(chord_of(r@[7]) == shortcut_table()[7]);
    assert(chord_of(r@[8]) == shortcut_table()[8]);
    assert(chord_of(r@[9]) == shortcut_table()[9]);
    assert(chord_of(r@[10]) == shortcut_table()[10]);
    assert(chord_of(r@[11]) == shortcut_table()[11]);
    assert(chord_of(r@[12]) == shortcut_table()[12]);
    assert(chord_of(r@[13]) == shortcut_table()[13]);
    assert(chord_of(r@[14]) == shortcut_table()[14]);
    assert(chord_of(r@[15]) == shortcut_table()[15]);
    assert(chord_of(r@[16]) == shortcut_table()[16]);
    assert(chord_of(r@[17]) == shortcut_table()[17]);
    assert(chord_of(r@[18]) == shortcut_table()[18]);
    assert(chord_of(r@[19]) == shortcut_table()[19]);
    assert(chord_of(r@[20]) == shortcut_table()[20]);
    assert(chord_of(r@[21]) == shortcut_table()[21]);
    assert(chord_of(r@[22]) == shortcut_table()[22]);
    assert(chord_of(r@[23]) == shortcut_table()[23]);
    assert(chord_of(r@[24]) == shortcut_table()[24]);
    assert(chord_of(r@[25]) == shortcut_table()[25]);
    assert(chord_of(r@[26]) == shortcut_table()[26]);
    assert(chord_of(r@[27]) == shortcut_table()[27]);
    assert(chord_of(r@[28]) == shortcut_table()[28]);
    assert(chord_of(r@[29]) == shortcut_table()[29]);
    assert(chord_of(r@[30]) == shortcut_table()[30]);
    assert(chord_of(r@[31]) == shortcut_table()[31]);
    assert(chord_of(r@[32]) == shortcut_table()[32]);
    assert(chord_of(r@[33]) == shortcut_table()[33]);
    assert(chord_of(r@[34]) == shortcut_table()[34]);
    assert(chord_of(r@[35]) == shortcut_table()[35]);
    assert(chord_of(r@[36]) == shortcut_table()[36]);
    assert(chord_of(r@[37]) == shortcut_table()[37]);
    assert(chord_of(r@[38]) == shortcut_table()[38]);
    assert(chord_of(r@[39]) == shortcut_table()[39]);
    assert(chord_of(r@[40]) == shortcut_table()[40]);
    assert(chord_of(r@[41]) == shortcut_table()[41]);
    assert(chord_of(r@[42]) == shortcut_table()[42]);
    assert(chord_of(r@[43]) == shortcut_table()[43]);
    assert(r@.map_values(|s: Shortcut| chord_of(s)) =~= shortcut_table());
    r
}

/// The action bound to the first chord of `t` whose key and modifiers are
/// `key` and `m`.
pub open spec fn first_match(t: Seq<Chord>, key: Seq<char>, m: Modifiers) -> Option<MenuAction>
    decreases t.len(),
{
    if t.len() == 0 {
        None
    } else if t[0].0 == key && t[0].1 == m {
        Some(t[0].2)
    } else {
        first_match(t.drop_first(), key, m)
    }
}

/// Route a keyboard event to the matching action.
pub fn route_shortcut(key: &str, modifiers: &Modifiers) -> (r: Option<MenuAction>)
    ensures
        r == first_match(shortcut_table(), key@, *modifiers),
{
    let all = all_shortcuts();
    let k = key.to_owned();
    let ghost table = shortcut_table();
    assert(table.skip(0) =~= table);
    let mut i: usize = 0;
    while i < all.len()
        invariant
            all@.map_values(|s: Shortcut| chord_of(s)) == table,
            table == shortcut_table(),
            k@ == key@,
            0 <= i <= all.len(),
            first_match(table, key@, *modifiers) == first_match(table.skip(i as int), key@, *modifiers),
        decreases all.len() - i,
    {
        assert(chord_of(all@[i as int]) == table[i as int]);
        assert(table.skip(i as int)[0] == table[i as int]);
        if all[i].key == k && all[i].modifiers == *modifiers {
            return Some(all[i].action);
        }
        assert(table.skip(i as int).drop_first() =~= table.skip(i + 1));
        i += 1;
    }
    None
}

/// True when a chord could also be typing (no command/option/control —
/// shift alone still types).
pub fn is_text_conflicting(modifiers: &Modifiers) -> (b: bool)
    ensures
        b == (!modifiers.command && !modifiers.option && !modifiers.control),
{
    !modifiers.command && !modifiers.option && !modifiers.control
}

/// The three layout-preset actions, which the native menu nests in a submenu.
pub fn is_layout_action(action: &MenuAction) -> (b: bool)
    ensures
        b == (*action == MenuAction::LayoutDefault || *action == MenuAction::LayoutMedia
            || *action == MenuAction::LayoutVertical),
{
    matches!(action, MenuAction::LayoutDefault | MenuAction::LayoutMedia | MenuAction::LayoutVertical)
}

/// No two entries of `t` share both key and modifiers.
pub open spec fn chords_unique(t: Seq<Chord>) -> bool {
    forall|i: int, j: int|
        0 <= i < j < t.len() ==> !(#[trigger] t[i].0 == #[trigger] t[j].0 && t[i].1 == t[j].1)
}

proof fn lemma_unique_chords_route_to_own_action(t: Seq<Chord>, i: int)
    requires
        chords_unique(t),
        0 <= i < t.len(),
    ensures
        first_match(t, t[i].0, t[i].1) == Some(t[i].2),
    decreases t.len(),
{
    if i > 0 {
        assert(!(t[0].0 == t[i].0 && t[0].1 == t[i].1));
        let u = t.drop_first();
        assert(u[i - 1] == t[i]);
        assert forall|a: int, b: int| 0 <= a < b < u.len() implies !(#[trigger] u[a].0
            == #[trigger] u[b].0 && u[a].1 == u[b].1) by {
            assert(u[a] == t[a + 1] && u[b] == t[b + 1]);
        }
        lemma_unique_chords_route_to_own_action(u, i - 1);
    }
}

/// Two chords that differ in key length, first key character or modifiers.
spec fn sig_differs(a: Chord, b: Chord) -> bool {
    a.0.len() != b.0.len() || (a.0.len() > 0 && a.0[0] != b.0[0]) || a.1 != b.1
}

/// `t[i]` differs in signature from every chord of `t` from index `j` on.
spec fn differs_from_rest(t: Seq<Chord>, i: int, j: int) -> bool
    decreases t.len() - j,
{
    if j >= t.len() || j < 0 {
        true
    } else {
        sig_differs(t[i], t[j]) && differs_from_rest(t, i, j + 1)
    }
}

/// Every chord of `t` from index `i` on differs in signature from every
/// later one.
spec fn distinct_from(t: Seq<Chord>, i: int) -> bool
    decreases t.len() - i,
{
    if i >= t.len() || i < 0 {
        true
    } else {
        differs_from_rest(t, i, i + 1) && distinct_from(t, i + 1)
    }
}

proof fn lemma_differs_from_rest(t: Seq<Chord>, i: int, j: int, k: int)
    requires
        differs_from_rest(t, i, j),
        0 <= j <= k < t.len(),
    ensures
        sig_differs(t[i], t[k]),
    decreases k - j,
{
    if j < k {
        lemma_differs_from_rest(t, i, j + 1, k);
    }
}

proof fn lemma_distinct_from(t: Seq<Chord>, i: int, a: int, b: int)
    requires
        distinct_from(t, i),
        0 <= i <= a < b < t.len(),
    ensures
        sig_differs(t[a], t[b]),
    decreases a - i,
{
    if i < a {
        lemma_distinct_from(t, i + 1, a, b);
    } else {
        lemma_differs_from_rest(t, a, a + 1, b);
    }
}

/// No two shortcuts share a chord.
proof fn lemma_shortcut_chords_unique()
    ensures
        chords_unique(shortcut_table()),
{
    let t = shortcut_table();
    assert(distinct_from(t, 0)) by {
        reveal_with_fuel(distinct_from, 45);
        reveal_with_fuel(differs_from_rest, 45);
    }
    assert forall|i: int, j: int| 0 <= i < j < t.len() implies !(#[trigger] t[i].0 == #[trigger] t[j].0
        && t[i].1 == t[j].1) by {
        lemma_distinct_from(t, 0, i, j);
    }
}

/// Every shortcut of the table routes back to its own action: chords are
/// unique, so `route_shortcut` never shadows a binding.
pub proof fn lemma_every_shortcut_routes_to_its_action(i: int)
    requires
        0 <= i < shortcut_table().len(),
    ensures
        first_match(shortcut_table(), shortcut_table()[i].0, shortcut_table()[i].1) == Some(
            shortcut_table()[i].2,
        ),
{
    lemma_shortcut_chords_unique();
    lemma_unique_chords_route_to_own_action(shortcut_table(), i);
}

proof fn lemma_first_match_found(t: Seq<Chord>, key: Seq<char>, m: Modifiers)
    ensures
        first_match(t, key, m) matches Some(a) ==> exists|i: int| 0 <= i < t.len() && (#[trigger] t[i]) == (key, m, a),
        first_match(t, key, m) is None ==> forall|i: int| 0 <= i < t.len() ==> !((#[trigger] t[i]).0 == key && t[i].1 == m),
    decreases t.len(),
{
    if t.len() > 0 {
        lemma_first_match_found(t.drop_first(), key, m);
        if !(t[0].0 == key && t[0].1 == m) {
            if let Some(a) = first_match(t, key, m) {
                let i = choose|i: int| 0 <= i < t.drop_first().len() && (#[trigger] t.drop_first()[i]) == (key, m, a);
                assert(t[i + 1] == (key, m, a));
            } else {
                assert forall|i: int| 0 <= i < t.len() implies !((#[trigger] t[i]).0 == key && t[i].1 == m) by {
                    if i > 0 {
                        assert(t[i] == t.drop_first()[i - 1]);
                    }
                }
            }
        }
    }
}

/// A key event routes only to an action bound to exactly that key and
/// those modifiers, and routes nowhere when no shortcut has them.
pub proof fn lemma_route_only_to_bound_actions(key: Seq<char>, m: Modifiers)
    ensures
        first_match(shortcut_table(), key, m) matches Some(a) ==> exists|i: int| 0 <= i < shortcut_table().len()
            && (#[trigger] shortcut_table()[i]) == (key, m, a),
        first_match(shortcut_table(), key, m) is None ==> forall|i: int| 0 <= i < shortcut_table().len()
            ==> !((#[trigger] shortcut_table()[i]).0 == key && shortcut_table()[i].1 == m),
{
    lemma_first_match_found(shortcut_table(), key, m);
}

} // verus!
