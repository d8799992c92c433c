//! What the media library does on a click, a key or a tile menu: the
//! display order a range pick runs over, which selection a click leaves,
//! what Escape cancels, the tile menus, the arguments of the editing
//! tools it calls, and what view state survives a change of the library.
use crate::captions::{music_still_generating, synced_caption_language};
use crate::generation_model::status_inflight;
use crate::http_generation_backend::opt_view;
use crate::json::{json_of, members_of, push_member, Json, JsonValue};
use crate::media_library::{
    clicked, derefs, first_index, grouped_sections, lemma_first_index, range_picked, search_active_spec,
    section_view, strs, toggled, visible_entries, visible_spec, grouped_spec, LibraryEntry, LibraryManifest,
    LibraryState, LibraryView, LibraryViewMode,
};
use crate::text::{trim, trim_spec};
use vstd::prelude::*;

verus! {

pub open spec fn entry_ids(s: Seq<LibraryEntry>) -> Seq<Seq<char>> {
    s.map_values(|e: LibraryEntry| e.id@)
}

pub open spec fn section_ids(s: Seq<(Option<Seq<char>>, Seq<char>, Seq<LibraryEntry>)>) -> Seq<Seq<Seq<char>>> {
    s.map_values(|x: (Option<Seq<char>>, Seq<char>, Seq<LibraryEntry>)| entry_ids(x.2))
}

/// Asset ids in the grid's display order, which a range pick runs over:
/// section after section in the grouped view (without a search), else the
/// order of the visible assets.
pub open spec fn ordered_ids_spec(m: LibraryManifest, v: LibraryView) -> Seq<Seq<char>> {
    if !search_active_spec(v) && v.view_mode == LibraryViewMode::Grouped {
        section_ids(grouped_spec(m, v)).flatten()
    } else {
        entry_ids(visible_spec(m, v))
    }
}

fn push_entry_ids(out: &mut Vec<String>, entries: &Vec<&LibraryEntry>)
    ensures
        strs(final(out)@) == strs(old(out)@) + entry_ids(derefs(entries@)),
{
    let ghost start = strs(out@);
    let mut i: usize = 0;
    while i < entries.len()
        invariant
            0 <= i <= entries@.len(),
            strs(out@) == start + entry_ids(derefs(entries@)).take(i as int),
        decreases entries.len() - i,
    {
        let ghost before = strs(out@);
        out.push(entries[i].id.clone());
        assert(strs(out@) =~= before.push(entries@[i as int].id@));
        assert(entry_ids(derefs(entries@)).take(i + 1) =~= entry_ids(derefs(entries@)).take(i as int).push(entries@[i as int].id@));
        i += 1;
    }
    assert(entry_ids(derefs(entries@)).take(i as int) =~= entry_ids(derefs(entries@)));
}

/// Asset ids in the grid's current display order (folders excluded).
pub fn ordered_visible_ids(manifest: &LibraryManifest, state: &LibraryState) -> (r: Vec<String>)
    ensures
        strs(r@) == ordered_ids_spec(*manifest, state@),
{
    let mut out: Vec<String> = Vec::new();
    if !state.search_active() && state.view_mode == LibraryViewMode::Grouped {
        let sections = grouped_sections(manifest, state);
        let ghost views = sections@.map_values(|s: (Option<&str>, String, Vec<&LibraryEntry>)| section_view(s));
        assert(views == grouped_spec(*manifest, state@));
        let mut k: usize = 0;
        while k < sections.len()
            invariant
                0 <= k <= sections@.len(),
                views == sections@.map_values(|s: (Option<&str>, String, Vec<&LibraryEntry>)| section_view(s)),
                strs(out@) == section_ids(views.take(k as int)).flatten(),
            decreases sections.len() - k,
        {
            let ghost before = strs(out@);
            push_entry_ids(&mut out, &sections[k].2);
            proof {
                assert(section_ids(views.take(k + 1)) =~= section_ids(views.take(k as int)).push(entry_ids(derefs(sections@[k as int].2@))));
                section_ids(views.take(k as int)).lemma_flatten_push(entry_ids(derefs(sections@[k as int].2@)));
            }
            k += 1;
        }
        assert(views.take(k as int) =~= views);
        out
    } else {
        let visible = visible_entries(manifest, state);
        push_entry_ids(&mut out, &visible);
        assert(strs(out@) =~= entry_ids(visible_spec(*manifest, state@)));
        out
    }
}

/// A click on an asset tile: with shift a range pick over the display
/// order, with the command or control key a toggle, else a plain click.
pub fn handle_asset_click(state: &mut LibraryState, manifest: &LibraryManifest, id: &str, shift: bool, command_or_control: bool)
    ensures
        shift ==> final(state)@ == range_picked(old(state)@, ordered_ids_spec(*manifest, old(state)@), id@),
        !shift && command_or_control ==> final(state)@ == (LibraryView {
            selection: toggled(old(state)@.selection, id@),
            selection_anchor: Some(id@),
            ..old(state)@
        }),
        !shift && !command_or_control ==> final(state)@ == clicked(old(state)@, id@),
{
    if shift {
        let ordered = ordered_visible_ids(manifest, state);
        state.select_range(&ordered, id);
    } else if command_or_control {
        state.select_toggle(id);
    } else {
        state.select_click(id);
    }
}

/// What Escape does in the library, first applicable first.
#[derive(Debug, Clone, Copy, PartialEq, Eq, Structural)]
pub enum EscapeAction {
    CloseContextMenu,
    CancelFolderRename,
    CancelAssetRename,
    CloseToolbarMenu,
    ClearSelection,
    Ignore,
}

/// The action a key press takes: only Escape acts, closing the tile menu,
/// else cancelling a folder rename, else an asset rename, else closing the
/// toolbar menu, else clearing the selection.
pub open spec fn key_action_spec(key: Seq<char>, context_menu_open: bool, folder_renaming: bool, asset_renaming: bool, toolbar_menu_open: bool, has_selection: bool) -> EscapeAction {
    if key != "escape"@ {
        EscapeAction::Ignore
    } else if context_menu_open {
        EscapeAction::CloseContextMenu
    } else if folder_renaming {
        EscapeAction::CancelFolderRename
    } else if asset_renaming {
        EscapeAction::CancelAssetRename
    } else if toolbar_menu_open {
        EscapeAction::CloseToolbarMenu
    } else if has_selection {
        EscapeAction::ClearSelection
    } else {
        EscapeAction::Ignore
    }
}

/// The action a key press takes in the library.
pub fn key_down_action(key: &str, context_menu_open: bool, folder_renaming: bool, asset_renaming: bool, toolbar_menu_open: bool, has_selection: bool) -> (a: EscapeAction)
    ensures
        a == key_action_spec(key@, context_menu_open, folder_renaming, asset_renaming, toolbar_menu_open, has_selection),
{
    let escape = String::from_str("escape");
    let k = String::from_str(key);
    if k != escape {
        return EscapeAction::Ignore;
    }
    if context_menu_open {
        EscapeAction::CloseContextMenu
    } else if folder_renaming {
        EscapeAction::CancelFolderRename
    } else if asset_renaming {
        EscapeAction::CancelAssetRename
    } else if toolbar_menu_open {
        EscapeAction::CloseToolbarMenu
    } else if has_selection {
        EscapeAction::ClearSelection
    } else {
        EscapeAction::Ignore
    }
}

/// The assets a tile menu's Delete removes: the whole selection when the
/// clicked asset is in it, else that asset alone.
pub open spec fn delete_targets_spec(selection: Seq<Seq<char>>, id: Seq<char>) -> Seq<Seq<char>> {
    if selection.contains(id) {
        selection
    } else {
        seq![id]
    }
}

pub fn delete_targets(selection: &Vec<String>, id: &str) -> (r: Vec<String>)
    ensures
        strs(r@) == delete_targets_spec(strs(selection@), id@),
{
    let key = String::from_str(id);
    let mut i: usize = 0;
    while i < selection.len()
        invariant
            0 <= i <= selection@.len(),
            key@ == id@,
            forall|k: int| 0 <= k < i ==> (#[trigger] selection@[k])@ != id@,
        decreases selection.len() - i,
    {
        if selection[i] == key {
            assert(strs(selection@)[i as int] == id@);
            let mut all: Vec<String> = Vec::new();
            let mut j: usize = 0;
            while j < selection.len()
                invariant
                    0 <= j <= selection@.len(),
                    all@.len() == j,
                    forall|k: int| 0 <= k < j ==> (#[trigger] all@[k])@ == selection@[k]@,
                decreases selection.len() - j,
            {
                all.push(selection[j].clone());
                j += 1;
            }
            assert(strs(all@) =~= strs(selection@));
            return all;
        }
        i += 1;
    }
    assert(!strs(selection@).contains(id@)) by {
        assert forall|k: int| 0 <= k < strs(selection@).len() implies strs(selection@)[k] != id@ by {
            assert(strs(selection@)[k] == selection@[k]@);
        }
    }
    let mut one: Vec<String> = Vec::new();
    one.push(key);
    assert(strs(one@) =~= seq![id@]);
    one
}

/// An entry of a library tile menu.
#[derive(Debug, Clone, Copy, PartialEq, Eq)]
pub enum LibraryMenuEntry {
    Item { id: &'static str, label: &'static str, destructive: bool },
    Separator,
}

pub open spec fn menu_entry_view(e: LibraryMenuEntry) -> Option<(Seq<char>, Seq<char>, bool)> {
    match e {
        LibraryMenuEntry::Item { id, label, destructive } => Some((id@, label@, destructive)),
        LibraryMenuEntry::Separator => None,
    }
}

pub open spec fn menu_view(v: Seq<LibraryMenuEntry>) -> Seq<Option<(Seq<char>, Seq<char>, bool)>> {
    v.map_values(|e: LibraryMenuEntry| menu_entry_view(e))
}

/// The asset tile menu: Rename, Reveal (only with a local file), a
/// separator, and a destructive Delete.
pub open spec fn asset_menu_spec(can_reveal: bool) -> Seq<Option<(Seq<char>, Seq<char>, bool)>> {
    seq![Some(("rename"@, "Rename"@, false))]
        + (if can_reveal { seq![Some(("reveal"@, "Reveal in File Manager"@, false))] } else { Seq::empty() })
        + seq![None, Some(("delete"@, "Delete"@, true))]
}

/// The asset tile menu, in activation order.
pub fn asset_menu_entries(can_reveal: bool) -> (r: Vec<LibraryMenuEntry>)
    ensures
        menu_view(r@) == asset_menu_spec(can_reveal),
{
    let mut entries: Vec<LibraryMenuEntry> = Vec::new();
    entries.push(LibraryMenuEntry::Item { id: "rename", label: "Rename", destructive: false });
    if can_reveal {
        entries.push(LibraryMenuEntry::Item { id: "reveal", label: "Reveal in File Manager", destructive: false });
    }
    entries.push(LibraryMenuEntry::Separator);
    entries.push(LibraryMenuEntry::Item { id: "delete", label: "Delete", destructive: true });
    assert(menu_view(entries@) =~= asset_menu_spec(can_reveal));
    entries
}

/// The folder tile menu: Open, Rename, a separator, and a destructive
/// Delete.
pub fn folder_menu_entries() -> (r: Vec<LibraryMenuEntry>)
    ensures
        menu_view(r@) == seq![
            Some(("open"@, "Open"@, false)),
            Some(("rename"@, "Rename"@, false)),
            None,
            Some(("delete"@, "Delete"@, true)),
        ],
{
    let mut entries: Vec<LibraryMenuEntry> = Vec::new();
    entries.push(LibraryMenuEntry::Item { id: "open", label: "Open", destructive: false });
    entries.push(LibraryMenuEntry::Item { id: "rename", label: "Rename", destructive: false });
    entries.push(LibraryMenuEntry::Separator);
    entries.push(LibraryMenuEntry::Item { id: "delete", label: "Delete", destructive: true });
    assert(menu_view(entries@) =~= seq![
        Some(("open"@, "Open"@, false)),
        Some(("rename"@, "Rename"@, false)),
        None,
        Some(("delete"@, "Delete"@, true)),
    ]);
    entries
}

/// Arguments of the tool that deletes an asset.
pub fn delete_media_args(id: &str) -> (v: JsonValue)
    ensures
        json_of(v) == Json::Object(seq![("mediaId"@, Json::Str(id@))]),
{
    let mut e: Vec<(String, JsonValue)> = Vec::new();
    assert(members_of(e@) =~= Seq::<(Seq<char>, Json)>::empty());
    push_member(&mut e, "mediaId", JsonValue::Str(String::from_str(id)));
    assert(members_of(e@) =~= seq![("mediaId"@, Json::Str(id@))]);
    JsonValue::Object(e)
}

/// Arguments of the tool that deletes a folder (its assets move to the
/// root).
pub fn delete_folder_args(id: &str) -> (v: JsonValue)
    ensures
        json_of(v) == Json::Object(seq![("folderId"@, Json::Str(id@))]),
{
    let mut e: Vec<(String, JsonValue)> = Vec::new();
    assert(members_of(e@) =~= Seq::<(Seq<char>, Json)>::empty());
    push_member(&mut e, "folderId", JsonValue::Str(String::from_str(id)));
    assert(members_of(e@) =~= seq![("folderId"@, Json::Str(id@))]);
    JsonValue::Object(e)
}

/// Arguments of the tool that creates "New Folder" in the current folder
/// (at the root when there is none).
pub fn create_folder_args(current_folder: Option<&str>) -> (v: JsonValue)
    ensures
        json_of(v) == Json::Object(seq![("name"@, Json::Str("New Folder"@))] + match current_folder {
            Some(p) => seq![("parentFolderId"@, Json::Str(p@))],
            None => Seq::empty(),
        }),
{
    let mut e: Vec<(String, JsonValue)> = Vec::new();
    assert(members_of(e@) =~= Seq::<(Seq<char>, Json)>::empty());
    push_member(&mut e, "name", JsonValue::Str(String::from_str("New Folder")));
    assert(members_of(e@) =~= seq![("name"@, Json::Str("New Folder"@))]);
    if let Some(p) = current_folder {
        push_member(&mut e, "parentFolderId", JsonValue::Str(String::from_str(p)));
    }
    assert(members_of(e@) =~= seq![("name"@, Json::Str("New Folder"@))] + match current_folder {
        Some(p) => seq![("parentFolderId"@, Json::Str(p@))],
        None => Seq::<(Seq<char>, Json)>::empty(),
    });
    JsonValue::Object(e)
}

/// Arguments of a rename tool: the id under `id_key` and the trimmed new
/// name; `None` when the name is blank (the rename is cancelled).
pub open spec fn rename_args_spec(id_key: Seq<char>, id: Seq<char>, raw_name: Seq<char>) -> Option<Json> {
    let name = trim_spec(raw_name);
    if name.len() == 0 {
        None
    } else {
        Some(Json::Object(seq![(id_key, Json::Str(id)), ("name"@, Json::Str(name))]))
    }
}

fn rename_args(id_key: &str, id: &str, raw_name: &str) -> (r: Option<JsonValue>)
    ensures
        match r {
            Some(v) => rename_args_spec(id_key@, id@, raw_name@) == Some(json_of(v)),
            None => rename_args_spec(id_key@, id@, raw_name@) is None,
        },
{
    let name = trim(raw_name);
    if name.unicode_len() == 0 {
        return None;
    }
    let mut e: Vec<(String, JsonValue)> = Vec::new();
    assert(members_of(e@) =~= Seq::<(Seq<char>, Json)>::empty());
    push_member(&mut e, id_key, JsonValue::Str(String::from_str(id)));
    push_member(&mut e, "name", JsonValue::Str(String::from_str(name)));
    assert(members_of(e@) =~= seq![(id_key@, Json::Str(id@)), ("name"@, Json::Str(name@))]);
    Some(JsonValue::Object(e))
}

/// Arguments of the tool that renames an asset; `None` for a blank name.
pub fn rename_media_args(id: &str, raw_name: &str) -> (r: Option<JsonValue>)
    ensures
        match r {
            Some(v) => rename_args_spec("mediaId"@, id@, raw_name@) == Some(json_of(v)),
            None => rename_args_spec("mediaId"@, id@, raw_name@) is None,
        },
{
    rename_args("mediaId", id, raw_name)
}

/// Arguments of the tool that renames a folder; `None` for a blank name.
pub fn rename_folder_args(id: &str, raw_name: &str) -> (r: Option<JsonValue>)
    ensures
        match r {
            Some(v) => rename_args_spec("folderId"@, id@, raw_name@) == Some(json_of(v)),
            None => rename_args_spec("folderId"@, id@, raw_name@) is None,
        },
{
    rename_args("folderId", id, raw_name)
}

/// An optional id, kept only while it names one of `ids`.
pub open spec fn still_present(o: Option<Seq<char>>, ids: Seq<Seq<char>>) -> Option<Seq<char>> {
    match o {
        Some(x) => if ids.contains(x) {
            Some(x)
        } else {
            None
        },
        None => None,
    }
}

/// The ids of `sel` that are among `ids`, in order.
pub open spec fn retained(sel: Seq<Seq<char>>, ids: Seq<Seq<char>>) -> Seq<Seq<char>>
    decreases sel.len(),
{
    if sel.len() == 0 {
        Seq::empty()
    } else {
        let rest = retained(sel.drop_last(), ids);
        if ids.contains(sel.last()) {
            rest.push(sel.last())
        } else {
            rest
        }
    }
}

/// The library view after the library changed: a current folder that is
/// gone falls back to the root, and selected assets that are gone leave
/// the selection.
pub open spec fn pruned_library(v: LibraryView, entry_ids: Seq<Seq<char>>, folder_ids: Seq<Seq<char>>) -> LibraryView {
    LibraryView {
        current_folder: still_present(v.current_folder, folder_ids),
        selection: retained(v.selection, entry_ids),
        ..v
    }
}

fn contains_id(ids: &[String], id: &String) -> (b: bool)
    ensures
        b == strs(ids@).contains(id@),
{
    let mut i: usize = 0;
    while i < ids.len()
        invariant
            0 <= i <= ids@.len(),
            forall|j: int| 0 <= j < i ==> (#[trigger] ids@[j])@ != id@,
        decreases ids.len() - i,
    {
        if ids[i] == *id {
            assert(strs(ids@)[i as int] == id@);
            return true;
        }
        i += 1;
    }
    proof {
        if strs(ids@).contains(id@) {
            let k = choose|k: int| 0 <= k < strs(ids@).len() && strs(ids@)[k] == id@;
            assert(ids@[k]@ == id@);
        }
    }
    false
}

/// Keep an id of an editor or menu target only while it names one of
/// `ids`.
pub fn keep_if_present(id: Option<String>, ids: &[String]) -> (r: Option<String>)
    ensures
        opt_view(r) == still_present(opt_view(id), strs(ids@)),
{
    match id {
        Some(x) => {
            if contains_id(ids, &x) {
                Some(x)
            } else {
                None
            }
        },
        None => None,
    }
}

/// Drop what the library no longer holds from the view state; see
/// `pruned_library`. `entry_ids` and `folder_ids` are the ids the library
/// now holds.
pub fn prune_library_state(state: &mut LibraryState, entry_ids: &[String], folder_ids: &[String])
    ensures
        final(state)@ == pruned_library(old(state)@, strs(entry_ids@), strs(folder_ids@)),
{
    let folder = state.current_folder.take();
    state.current_folder = keep_if_present(folder, folder_ids);
    let mut kept: Vec<String> = Vec::new();
    let mut i: usize = 0;
    let ghost sel = strs(state.selection@);
    while i < state.selection.len()
        invariant
            0 <= i <= state.selection@.len(),
            sel == strs(state.selection@),
            strs(kept@) == retained(sel.take(i as int), strs(entry_ids@)),
        decreases state.selection.len() - i,
    {
        assert(sel.take(i + 1).drop_last() =~= sel.take(i as int));
        let ghost before = kept@;
        if contains_id(entry_ids, &state.selection[i]) {
            kept.push(state.selection[i].clone());
            assert(strs(kept@) =~= strs(before).push(sel[i as int]));
        }
        i += 1;
    }
    assert(sel.take(i as int) =~= sel);
    state.selection = kept;
    proof {
        assert(final(state)@ =~= pruned_library(old(state)@, strs(entry_ids@), strs(folder_ids@)));
    }
}

proof fn lemma_retained_members(sel: Seq<Seq<char>>, ids: Seq<Seq<char>>)
    ensures
        forall|i: int| 0 <= i < retained(sel, ids).len() ==> ids.contains(#[trigger] retained(sel, ids)[i]),
        forall|x: Seq<char>| sel.contains(x) && ids.contains(x) ==> retained(sel, ids).contains(x),
        retained(retained(sel, ids), ids) == retained(sel, ids),
    decreases sel.len(),
{
    if sel.len() > 0 {
        lemma_retained_members(sel.drop_last(), ids);
        let rest = retained(sel.drop_last(), ids);
        assert forall|x: Seq<char>| sel.contains(x) && ids.contains(x) implies retained(sel, ids).contains(x) by {
            let k = choose|k: int| 0 <= k < sel.len() && sel[k] == x;
            if k < sel.len() - 1 {
                assert(sel.drop_last()[k] == x);
                let j = choose|j: int| 0 <= j < rest.len() && rest[j] == x;
                if ids.contains(sel.last()) {
                    assert(retained(sel, ids)[j] == x);
                }
            } else {
                assert(retained(sel, ids).last() == x);
            }
        }
        if ids.contains(sel.last()) {
            assert(retained(sel, ids).drop_last() =~= rest);
        }
    }
}

/// After pruning, the current folder and every selected asset exist, no
/// selected asset that still exists is dropped, and pruning again changes
/// nothing.
pub proof fn lemma_pruned_refs_exist(v: LibraryView, entry_ids: Seq<Seq<char>>, folder_ids: Seq<Seq<char>>)
    ensures
        pruned_library(v, entry_ids, folder_ids).current_folder matches Some(f) ==> folder_ids.contains(f),
        forall|i: int|
            0 <= i < pruned_library(v, entry_ids, folder_ids).selection.len() ==> entry_ids.contains(
                #[trigger] pruned_library(v, entry_ids, folder_ids).selection[i],
            ),
        forall|x: Seq<char>| v.selection.contains(x) && entry_ids.contains(x) ==> pruned_library(v, entry_ids, folder_ids).selection.contains(x),
        pruned_library(pruned_library(v, entry_ids, folder_ids), entry_ids, folder_ids) == pruned_library(v, entry_ids, folder_ids),
{
    lemma_retained_members(v.selection, entry_ids);
    assert(pruned_library(pruned_library(v, entry_ids, folder_ids), entry_ids, folder_ids) =~= pruned_library(v, entry_ids, folder_ids));
}

/// Bring the panels' view state in line with the project after it
/// changed: an untouched, unset caption language takes the timeline's; a
/// caption source track that is gone falls back to automatic; the music
/// overlay stays only while a generation is under way; the library drops
/// what it no longer holds. The ids and statuses are those the project
/// now holds.
pub fn refresh_after_project_change(
    language: &mut Option<String>,
    language_touched: bool,
    selected_track_id: &mut Option<String>,
    music_generating: &mut bool,
    library: &mut LibraryState,
    timeline_language: Option<String>,
    track_ids: &[String],
    statuses: &[Option<String>],
    entry_ids: &[String],
    folder_ids: &[String],
)
    ensures
        opt_view(*final(language)) == if !language_touched && *old(language) is None {
            opt_view(timeline_language)
        } else {
            opt_view(*old(language))
        },
        opt_view(*final(selected_track_id)) == still_present(opt_view(*old(selected_track_id)), strs(track_ids@)),
        *final(music_generating) == (*old(music_generating) && exists|j: int|
            0 <= j < statuses@.len() && status_inflight(opt_view(#[trigger] statuses@[j]))),
        final(library)@ == pruned_library(old(library)@, strs(entry_ids@), strs(folder_ids@)),
{
    let current = language.take();
    *language = synced_caption_language(current, language_touched, timeline_language);
    let track = selected_track_id.take();
    *selected_track_id = keep_if_present(track, track_ids);
    *music_generating = music_still_generating(*music_generating, statuses);
    prune_library_state(library, entry_ids, folder_ids);
}

/// A range pick: with the anchor and the picked id both in the display
/// order, the selection becomes a contiguous run of that order holding
/// both, and the anchor stays; otherwise it is a plain click on the id.
/// Nothing but the selection and its anchor changes.
pub proof fn lemma_range_pick_spans_anchor_and_target(v: LibraryView, ordered: Seq<Seq<char>>, id: Seq<char>)
    ensures
        ({
            let w = range_picked(v, ordered, id);
            let a = v.selection_anchor->0;
            let both = v.selection_anchor is Some && ordered.contains(a) && ordered.contains(id);
            &&& both ==> {
                &&& w.selection.contains(a) && w.selection.contains(id)
                &&& w.selection_anchor == Some(a)
                &&& exists|lo: int, hi: int| 0 <= lo <= hi <= ordered.len() && w.selection == ordered.subrange(lo, hi)
            }
            &&& !both ==> {
                &&& w.selection == seq![id]
                &&& w.selection_anchor == Some(id)
            }
            &&& w.search_query == v.search_query && w.type_filter == v.type_filter && w.filter_ai == v.filter_ai
            &&& w.current_folder == v.current_folder && w.sort_key == v.sort_key && w.view_mode == v.view_mode
        }),
{
    lemma_first_index(ordered, id);
    if let Some(a) = v.selection_anchor {
        lemma_first_index(ordered, a);
        if ordered.contains(a) && ordered.contains(id) {
            let f = first_index(ordered, a)->0;
            let t = first_index(ordered, id)->0;
            let lo = if f < t { f } else { t };
            let hi = if f < t { t } else { f };
            let sel = ordered.subrange(lo, hi + 1);
            assert(sel[f - lo] == a);
            assert(sel[t - lo] == id);
            assert(range_picked(v, ordered, id).selection == sel);
        }
    }
}

/// A toggle of an id in a selection without repeats: the id is selected
/// afterwards exactly when it was not before, every other id keeps its
/// state, and the selection still has no repeats.
pub proof fn lemma_toggle_flips_only_that_id(s: Seq<Seq<char>>, x: Seq<char>, y: Seq<char>)
    requires
        s.no_duplicates(),
    ensures
        toggled(s, x).contains(x) <==> !s.contains(x),
        y != x ==> (toggled(s, x).contains(y) <==> s.contains(y)),
        toggled(s, x).no_duplicates(),
{
    lemma_first_index(s, x);
    match first_index(s, x) {
        Some(i) => {
            let r = s.remove(i);
            assert(r =~= s.subrange(0, i) + s.subrange(i + 1, s.len() as int));
            assert forall|k: int| 0 <= k < r.len() implies (#[trigger] r[k]) == if k < i { s[k] } else { s[k + 1] } by {}
            if r.contains(x) {
                let k = choose|k: int| 0 <= k < r.len() && r[k] == x;
                if k < i {
                    assert(s[k] == s[i]);
                } else {
                    assert(s[k + 1] == s[i]);
                }
            }
            if y != x && s.contains(y) {
                let k = choose|k: int| 0 <= k < s.len() && s[k] == y;
                if k < i {
                    assert(r[k] == y);
                } else {
                    assert(k != i);
                    assert(r[k - 1] == y);
                }
            }
            if r.contains(y) {
                let k = choose|k: int| 0 <= k < r.len() && r[k] == y;
                if k < i {
                    assert(s[k] == y);
                } else {
                    assert(s[k + 1] == y);
                }
            }
            assert forall|p: int, q: int| 0 <= p < r.len() && 0 <= q < r.len() && p != q implies r[p] != r[q] by {
                let sp = if p < i { p } else { p + 1 };
                let sq = if q < i { q } else { q + 1 };
                assert(r[p] == s[sp] && r[q] == s[sq]);
            }
        },
        None => {
            let r = s.push(x);
            assert(r[s.len() as int] == x);
            if y != x && s.contains(y) {
                let k = choose|k: int| 0 <= k < s.len() && s[k] == y;
                assert(r[k] == y);
            }
            if r.contains(y) && y != x {
                let k = choose|k: int| 0 <= k < r.len() && r[k] == y;
                assert(k < s.len());
                assert(s[k] == y);
            }
            assert forall|p: int, q: int| 0 <= p < r.len() && 0 <= q < r.len() && p != q implies r[p] != r[q] by {
                if p < s.len() && q < s.len() {
                } else if p < s.len() {
                    assert(s[p] != x);
                } else if q < s.len() {
                    assert(s[q] != x);
                }
            }
        },
    }
}

/// Delete from a tile menu always removes the clicked asset, and removes
/// the whole selection when that asset is part of it.
pub proof fn lemma_delete_targets_hold_clicked(selection: Seq<Seq<char>>, id: Seq<char>)
    ensures
        delete_targets_spec(selection, id).contains(id),
        selection.contains(id) ==> delete_targets_spec(selection, id) == selection,
        !selection.contains(id) ==> delete_targets_spec(selection, id) == seq![id],
{
    assert(seq![id][0] == id);
}

/// A rename is sent exactly when the trimmed name is not blank, and it
/// carries the id and the trimmed name.
pub proof fn lemma_rename_sends_trimmed_name(id_key: Seq<char>, id: Seq<char>, raw_name: Seq<char>)
    ensures
        rename_args_spec(id_key, id, raw_name) is Some <==> trim_spec(raw_name).len() > 0,
        trim_spec(raw_name).len() > 0 ==> rename_args_spec(id_key, id, raw_name) == Some(
            Json::Object(seq![(id_key, Json::Str(id)), ("name"@, Json::Str(trim_spec(raw_name)))]),
        ),
{
}

/// Escape acts on the innermost open thing first: the tile menu, then a
/// folder rename, then an asset rename, then the toolbar menu, then the
/// selection; any other key, or Escape with nothing open or selected, is
/// ignored.
pub proof fn lemma_escape_precedence(key: Seq<char>, menu: bool, folder: bool, asset: bool, toolbar: bool, selection: bool)
    ensures
        key != "escape"@ ==> key_action_spec(key, menu, folder, asset, toolbar, selection) == EscapeAction::Ignore,
        key == "escape"@ && menu ==> key_action_spec(key, menu, folder, asset, toolbar, selection) == EscapeAction::CloseContextMenu,
        key == "escape"@ && !menu && folder ==> key_action_spec(key, menu, folder, asset, toolbar, selection)
            == EscapeAction::CancelFolderRename,
        key == "escape"@ && !menu && !folder && asset ==> key_action_spec(key, menu, folder, asset, toolbar, selection)
            == EscapeAction::CancelAssetRename,
        key == "escape"@ && !menu && !folder && !asset && toolbar ==> key_action_spec(key, menu, folder, asset, toolbar, selection)
            == EscapeAction::CloseToolbarMenu,
        key == "escape"@ && !menu && !folder && !asset && !toolbar ==> key_action_spec(key, menu, folder, asset, toolbar, selection)
            == if selection { EscapeAction::ClearSelection } else { EscapeAction::Ignore },
{
}

} // verus!
