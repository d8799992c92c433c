//! The action payload every menu item and menu shortcut dispatches.
use crate::menu::MenuAction;
use vstd::prelude::*;

verus! {

/// Menu-shortcut dispatch: one action carrying the target menu action.
#[derive(Debug, Clone, Copy, PartialEq, Eq, Structural)]
pub struct RunMenuAction {
    pub action: MenuAction,
}

} // verus!
