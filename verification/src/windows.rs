//! Desktop windows as the window backends report them.

use vstd::prelude::*;

verus! {

/// Where a window stands on the screen. A backend that does not know the
/// position leaves `x` and `y` out.
#[derive(Clone, Copy, Debug, PartialEq, Eq)]
pub struct WindowBounds {
    pub x: Option<i32>,
    pub y: Option<i32>,
    pub width: u32,
    pub height: u32,
}

/// One window and what is known of it.
#[derive(Clone, Debug)]
pub struct WindowInfo {
    pub window_id: u64,
    pub title: Option<String>,
    pub app_id: Option<String>,
    pub wm_class: Option<String>,
    pub pid: Option<u32>,
    pub bounds: Option<WindowBounds>,
    pub workspace: Option<i32>,
    pub focused: bool,
    pub hidden: bool,
    pub client_type: Option<String>,
    pub backend: String,
    pub terminal: Option<String>,
}

/// The window behind a reference that may be absent.
pub open spec fn window_view(window: Option<&WindowInfo>) -> Option<WindowInfo> {
    match window {
        Some(window) => Some(*window),
        None => None,
    }
}

/// The window behind a reference is the window itself.
pub proof fn law_window_behind_a_reference(window: &WindowInfo)
    ensures
        window_view(Some(window)) == Some(*window),
        window_view(None) is None,
{
}

} // verus!
