//! Divider-resize targets of the editor pane layout.
use vstd::prelude::*;

verus! {

/// What a divider drag resizes.
#[derive(Debug, Clone, Copy, PartialEq, Eq, Structural)]
pub enum ResizeTarget {
    AgentWidth,
    MediaWidth,
    InspectorWidth,
    TimelineHeight,
    /// Vertical preset: the whole left (media/inspector + timeline) column.
    VerticalLeftWidth,
}

/// Which way a positive pointer movement grows the pane: `true` for
/// targets whose divider sits on the trailing edge (growth follows the
/// pointer), `false` for those on the leading or top edge.
pub open spec fn grows_with_pointer_spec(target: ResizeTarget) -> bool {
    match target {
        ResizeTarget::AgentWidth | ResizeTarget::MediaWidth | ResizeTarget::VerticalLeftWidth => true,
        ResizeTarget::InspectorWidth | ResizeTarget::TimelineHeight => false,
    }
}

/// The sign of `drag_direction`: `true` for +1, `false` for -1.
pub fn grows_with_pointer(target: ResizeTarget) -> (b: bool)
    ensures
        b == grows_with_pointer_spec(target),
{
    match target {
        ResizeTarget::AgentWidth | ResizeTarget::MediaWidth | ResizeTarget::VerticalLeftWidth => true,
        ResizeTarget::InspectorWidth | ResizeTarget::TimelineHeight => false,
    }
}

} // verus!
