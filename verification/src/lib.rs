//! Pure logic of the editor shell: pane layout and persistence, menus and
//! shortcut routing, session registry, panel models and generation-backend
//! configuration.
pub mod captions;
pub mod generation_model;
pub mod generation_panel;
pub mod global_shortcuts;
pub mod help_text;
pub mod home_model;
pub mod http_generation_backend;
pub mod inspector_model;
pub mod json;
pub mod library_actions;
pub mod matte_writer;
pub mod mcp_service;
pub mod media_library;
pub mod media_panel_model;
pub mod mention_model;
pub mod menu;
pub mod multi_session;
pub mod pane;
pub mod pane_prefs;
pub mod pane_resize;
pub mod pane_tree;
pub mod paths;
pub mod text;

use vstd::prelude::*;

verus! {

pub const APP_NAME: &'static str = "Fronda";
pub const SHELL_HEADLINE: &'static str = "Cross-platform Rust editor shell";
pub const SHELL_STATUS: &'static str = "Palmier Pro compatibility baseline active";

/// The product name, headline and status line shown at launch.
pub fn launch_status_lines() -> (r: [&'static str; 3])
    ensures
        r[0]@ == APP_NAME@,
        r[1]@ == SHELL_HEADLINE@,
        r[2]@ == SHELL_STATUS@,
{
    [APP_NAME, SHELL_HEADLINE, SHELL_STATUS]
}

} // verus!
