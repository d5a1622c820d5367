//! What the window manager answers when it is asked about itself.
use vstd::prelude::*;

use crate::geometry::Rect;
use crate::ids::id_text;

verus! {

/// A window, as clients name it.
#[derive(Clone, Copy, Debug, PartialEq, Eq, Structural, PartialOrd, Ord, Hash)]
pub struct WindowId {
    pub pid: i32,
    pub idx: u32,
}

impl WindowId {
    /// The window `idx` of process `pid`; zero is the index of none.
    pub fn new(pid: i32, idx: u32) -> (id: Option<Self>)
        ensures
            id == if idx == 0 {
                None
            } else {
                Some(WindowId { pid, idx })
            },
    {
        if idx == 0 {
            None
        } else {
            Some(WindowId { pid, idx })
        }
    }

    /// The identifier by its two numbers' names.
    pub fn to_debug_string(self) -> (text: String)
        ensures
            text@ == id_text(self.pid as int, self.idx as int),
    {
        crate::ids::WindowId { pid: self.pid, idx: self.idx }.to_debug_string()
    }

    /// The window manager's own identifier of the same window.
    pub fn known_as(self) -> (id: Option<crate::ids::WindowId>)
        ensures
            id == if self.idx == 0 {
                None
            } else {
                Some(crate::ids::WindowId { pid: self.pid, idx: self.idx })
            },
    {
        crate::ids::WindowId::checked(self.pid, self.idx)
    }
}

impl vstd::std_specs::convert::FromSpecImpl<crate::ids::WindowId> for WindowId {
    open spec fn obeys_from_spec() -> bool {
        true
    }

    open spec fn from_spec(id: crate::ids::WindowId) -> WindowId {
        WindowId { pid: id.pid, idx: id.idx }
    }
}

impl From<crate::ids::WindowId> for WindowId {
    fn from(id: crate::ids::WindowId) -> WindowId {
        WindowId { pid: id.pid, idx: id.idx }
    }
}

#[derive(Debug)]
pub struct WindowData {
    pub id: WindowId,
    pub title: String,
    pub frame: Rect,
    pub is_floating: bool,
    pub is_focused: bool,
    pub bundle_id: Option<String>,
    pub app_name: Option<String>,
    pub window_server_id: Option<u32>,
}

#[derive(Debug)]
pub struct WorkspaceData {
    pub id: String,
    pub index: usize,
    pub name: String,
    pub layout_mode: String,
    pub is_active: bool,
    pub window_count: usize,
    pub windows: Vec<WindowData>,
}

#[derive(Debug)]
pub struct WorkspaceLayoutData {
    pub id: String,
    pub index: usize,
    pub name: String,
    pub layout_mode: String,
    pub is_active: bool,
}

#[derive(Debug)]
pub struct ApplicationData {
    pub pid: i32,
    pub bundle_id: Option<String>,
    pub name: String,
    pub is_frontmost: bool,
    pub window_count: usize,
}

/// The type of a node in the normalized layout topology.
#[derive(Clone, Copy, Debug, PartialEq, Eq, Structural)]
pub enum ContainerNodeType {
    Container,
    Window,
    /// An empty slot retained by a layout engine, such as an empty BSP root.
    Placeholder,
}

/// How many windows belong to one display, independent of what it is showing.
#[derive(Debug)]
pub struct DiagnosticDisplayCensus {
    pub display_uuid: String,
    pub display_name: Option<String>,
    /// Windows whose durable home is this display.
    pub homed: usize,
    /// Windows currently assigned to this display's space, across every workspace. A persistent gap
    /// between this and `homed` is a migration.
    pub assigned: usize,
    /// Per workspace name, how many of this display's windows sit there.
    pub by_workspace: Vec<(String, usize)>,
}

#[derive(Debug)]
pub struct DisplayData {
    pub uuid: String,
    pub name: Option<String>,
    pub screen_id: u32,
    pub frame: Rect,
    pub space: Option<u64>,
    pub is_active_space: bool,
    pub is_active_context: bool,
    pub active_space_ids: Vec<u64>,
    pub inactive_space_ids: Vec<u64>,
}

/// The two identifiers of a window have the same numbers, and the one reached from the other is the
/// one it was made of; an index of zero names no window.
pub proof fn a_window_keeps_its_numbers(
    id: crate::ids::WindowId,
    pid: i32,
    idx: u32,
    made: Option<WindowId>,
    known: Option<crate::ids::WindowId>,
)
    requires
        call_ensures(WindowId::new, (pid, idx), made),
        call_ensures(WindowId::known_as, (WindowId { pid: id.pid, idx: id.idx },), known),
    ensures
        made is None <==> idx == 0,
        made matches Some(window) ==> window.pid == pid && window.idx == idx,
        id.wf() ==> known == Some(id),
        !id.wf() ==> known is None,
        <WindowId as vstd::std_specs::convert::FromSpec<crate::ids::WindowId>>::from_spec(id) == (
        WindowId { pid: id.pid, idx: id.idx }),
{
}

} // verus!
