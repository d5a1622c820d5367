//! Events clients can subscribe to.
use vstd::prelude::*;

use crate::protocol::queries::WindowId;
use crate::text::{decimal, format_decimal, same_text};

verus! {

/// Events available through the Mach subscription API.
#[derive(Clone, Copy, Debug, PartialEq, Eq, Structural, Hash)]
pub enum EventKind {
    WorkspaceChanged,
    WindowsChanged,
    WindowTitleChanged,
    FocusedWindowChanged,
    All,
}

impl EventKind {
    /// The name an event goes by.
    pub open spec fn name(self) -> Seq<char> {
        match self {
            EventKind::WorkspaceChanged => "workspace_changed"@,
            EventKind::WindowsChanged => "windows_changed"@,
            EventKind::WindowTitleChanged => "window_title_changed"@,
            EventKind::FocusedWindowChanged => "focused_window_changed"@,
            EventKind::All => "*"@,
        }
    }

    pub fn as_str(self) -> (name: &'static str)
        ensures
            name@ == self.name(),
            self == EventKind::WorkspaceChanged ==> name@ == "workspace_changed"@,
            self == EventKind::WindowsChanged ==> name@ == "windows_changed"@,
            self == EventKind::WindowTitleChanged ==> name@ == "window_title_changed"@,
            self == EventKind::FocusedWindowChanged ==> name@ == "focused_window_changed"@,
            self == EventKind::All ==> name@ == "*"@,
    {
        match self {
            EventKind::WorkspaceChanged => "workspace_changed",
            EventKind::WindowsChanged => "windows_changed",
            EventKind::WindowTitleChanged => "window_title_changed",
            EventKind::FocusedWindowChanged => "focused_window_changed",
            EventKind::All => "*",
        }
    }

    /// The name, as a text of its own.
    pub fn to_text(self) -> (name: String)
        ensures
            name@ == self.name(),
    {
        self.as_str().to_owned()
    }

    /// The kind an argument asks for: every kind when there is none, and none for an unknown name.
    pub fn asked_for(argument: Option<&str>) -> (kind: Option<EventKind>)
        ensures
            argument is None ==> kind == Some(EventKind::All),
            argument matches Some(name) ==> {
                &&& kind matches Some(found) ==> found.name() == name@
                &&& kind is None ==> forall|k: EventKind| #[trigger] k.name() != name@
                &&& name@ == "workspace_changed"@ <==> kind == Some(EventKind::WorkspaceChanged)
                &&& name@ == "windows_changed"@ <==> kind == Some(EventKind::WindowsChanged)
                &&& name@ == "window_title_changed"@ <==> kind == Some(
                    EventKind::WindowTitleChanged,
                )
                &&& name@ == "focused_window_changed"@ <==> kind == Some(
                    EventKind::FocusedWindowChanged,
                )
                &&& name@ == "*"@ <==> kind == Some(EventKind::All)
            },
    {
        proof {
            reveal_strlit("workspace_changed");
            reveal_strlit("windows_changed");
            reveal_strlit("window_title_changed");
            reveal_strlit("focused_window_changed");
            reveal_strlit("*");
            assert("workspace_changed"@.len() == 17);
            assert("windows_changed"@.len() == 15);
            assert("window_title_changed"@.len() == 20);
            assert("focused_window_changed"@.len() == 22);
            assert("*"@.len() == 1);
        }
        match argument {
            None => Some(EventKind::All),
            Some(name) => {
                if same_text(name, "workspace_changed") {
                    Some(EventKind::WorkspaceChanged)
                } else if same_text(name, "windows_changed") {
                    Some(EventKind::WindowsChanged)
                } else if same_text(name, "window_title_changed") {
                    Some(EventKind::WindowTitleChanged)
                } else if same_text(name, "focused_window_changed") {
                    Some(EventKind::FocusedWindowChanged)
                } else if same_text(name, "*") {
                    Some(EventKind::All)
                } else {
                    None
                }
            },
        }
    }
}

/// No two kinds of event share a name.
pub proof fn an_event_is_known_by_its_name(a: EventKind, b: EventKind)
    ensures
        a.name() == b.name() ==> a == b,
{
    reveal_strlit("workspace_changed");
    reveal_strlit("windows_changed");
    reveal_strlit("window_title_changed");
    reveal_strlit("focused_window_changed");
    reveal_strlit("*");
    assert("workspace_changed"@.len() == 17);
    assert("windows_changed"@.len() == 15);
    assert("window_title_changed"@.len() == 20);
    assert("focused_window_changed"@.len() == 22);
    assert("*"@.len() == 1);
}

/// The serialized identity of a virtual workspace.
#[derive(Clone, Copy, Debug, PartialEq, Eq, Structural, Hash)]
pub struct WorkspaceId {
    pub idx: u32,
    pub version: u32,
}

/// The text of a workspace's identity: its two numbers one after the other, followed by spaces up to
/// eight characters.
pub open spec fn workspace_text(id: WorkspaceId) -> Seq<char> {
    let digits = decimal(id.idx as nat) + decimal(id.version as nat);
    digits + Seq::new(
        if digits.len() < 8 {
            (8 - digits.len()) as nat
        } else {
            0
        },
        |i: int| ' ',
    )
}

impl WorkspaceId {
    /// The text of the identity.
    pub fn to_text(&self) -> (text: String)
        ensures
            text@ == workspace_text(*self),
    {
        let mut text: String = format_decimal(self.idx as u64);
        text.append(format_decimal(self.version as u64).as_str());
        let ghost digits = decimal(self.idx as nat) + decimal(self.version as nat);
        let mut len: usize = text.as_str().unicode_len();
        assert(text@ =~= digits + Seq::new(0, |i: int| ' '));
        while len < 8
            invariant
                digits.len() <= len,
                len <= 8 || len == digits.len(),
                text@ == digits + Seq::new((len - digits.len()) as nat, |i: int| ' '),
            decreases 8 - len,
        {
            text.push(' ');
            len += 1;
            assert(text@ =~= digits + Seq::new((len - digits.len()) as nat, |i: int| ' '));
        }
        text
    }
}

/// The typed payload delivered for a subscription event.
#[derive(Debug)]
pub enum RiniEvent {
    WorkspaceChanged {
        space_id: u64,
        workspace_id: WorkspaceId,
        workspace_name: String,
        display_uuid: Option<String>,
    },
    WindowsChanged {
        workspace_id: WorkspaceId,
        workspace_name: String,
        windows: Vec<String>,
        space_id: u64,
        display_uuid: Option<String>,
    },
    WindowTitleChanged {
        window_id: WindowId,
        workspace_id: WorkspaceId,
        workspace_index: Option<u64>,
        workspace_name: String,
        previous_title: String,
        new_title: String,
        space_id: u64,
        display_uuid: Option<String>,
    },
    FocusedWindowChanged {
        window_id: WindowId,
        workspace_id: WorkspaceId,
        workspace_index: Option<u64>,
        workspace_name: String,
        space_id: u64,
        display_uuid: Option<String>,
    },
}

impl RiniEvent {
    /// The kind of this event.
    pub open spec fn kind_of(self) -> EventKind {
        match self {
            RiniEvent::WorkspaceChanged { .. } => EventKind::WorkspaceChanged,
            RiniEvent::WindowsChanged { .. } => EventKind::WindowsChanged,
            RiniEvent::WindowTitleChanged { .. } => EventKind::WindowTitleChanged,
            RiniEvent::FocusedWindowChanged { .. } => EventKind::FocusedWindowChanged,
        }
    }

    /// The space it happened on.
    pub open spec fn space(self) -> u64 {
        match self {
            RiniEvent::WorkspaceChanged { space_id, .. } => space_id,
            RiniEvent::WindowsChanged { space_id, .. } => space_id,
            RiniEvent::WindowTitleChanged { space_id, .. } => space_id,
            RiniEvent::FocusedWindowChanged { space_id, .. } => space_id,
        }
    }

    /// The display it names.
    pub open spec fn display(self) -> Option<String> {
        match self {
            RiniEvent::WorkspaceChanged { display_uuid, .. } => display_uuid,
            RiniEvent::WindowsChanged { display_uuid, .. } => display_uuid,
            RiniEvent::WindowTitleChanged { display_uuid, .. } => display_uuid,
            RiniEvent::FocusedWindowChanged { display_uuid, .. } => display_uuid,
        }
    }

    /// The same event on another display.
    pub open spec fn on(self, display_uuid: Option<String>) -> Self {
        match self {
            RiniEvent::WorkspaceChanged { space_id, workspace_id, workspace_name, .. } =>
                RiniEvent::WorkspaceChanged {
                    space_id,
                    workspace_id,
                    workspace_name,
                    display_uuid,
                },
            RiniEvent::WindowsChanged { workspace_id, workspace_name, windows, space_id, .. } =>
                RiniEvent::WindowsChanged {
                    workspace_id,
                    workspace_name,
                    windows,
                    space_id,
                    display_uuid,
                },
            RiniEvent::WindowTitleChanged {
                window_id,
                workspace_id,
                workspace_index,
                workspace_name,
                previous_title,
                new_title,
                space_id,
                ..
            } => RiniEvent::WindowTitleChanged {
                window_id,
                workspace_id,
                workspace_index,
                workspace_name,
                previous_title,
                new_title,
                space_id,
                display_uuid,
            },
            RiniEvent::FocusedWindowChanged {
                window_id,
                workspace_id,
                workspace_index,
                workspace_name,
                space_id,
                ..
            } => RiniEvent::FocusedWindowChanged {
                window_id,
                workspace_id,
                workspace_index,
                workspace_name,
                space_id,
                display_uuid,
            },
        }
    }

    pub fn kind(&self) -> (kind: EventKind)
        ensures
            kind == self.kind_of(),
    {
        match self {
            RiniEvent::WorkspaceChanged { .. } => EventKind::WorkspaceChanged,
            RiniEvent::WindowsChanged { .. } => EventKind::WindowsChanged,
            RiniEvent::WindowTitleChanged { .. } => EventKind::WindowTitleChanged,
            RiniEvent::FocusedWindowChanged { .. } => EventKind::FocusedWindowChanged,
        }
    }

    pub fn space_id(&self) -> (id: u64)
        ensures
            id == self.space(),
    {
        match self {
            RiniEvent::WorkspaceChanged { space_id, .. } => *space_id,
            RiniEvent::WindowsChanged { space_id, .. } => *space_id,
            RiniEvent::WindowTitleChanged { space_id, .. } => *space_id,
            RiniEvent::FocusedWindowChanged { space_id, .. } => *space_id,
        }
    }

    pub fn display_uuid(&self) -> (uuid: Option<&str>)
        ensures
            uuid is Some <==> self.display() is Some,
            uuid matches Some(text) ==> text@ == self.display()->0@,
    {
        let uuid: &Option<String> = match self {
            RiniEvent::WorkspaceChanged { display_uuid, .. } => display_uuid,
            RiniEvent::WindowsChanged { display_uuid, .. } => display_uuid,
            RiniEvent::WindowTitleChanged { display_uuid, .. } => display_uuid,
            RiniEvent::FocusedWindowChanged { display_uuid, .. } => display_uuid,
        };
        match uuid {
            Some(text) => Some(text.as_str()),
            None => None,
        }
    }

    /// Names the display this event happened on, if it is not named already.
    ///
    /// Which display owns a space is not something the layout engine knows, so an event leaves it
    /// with the display unnamed and is filled in on the way to the wire. An event that already names
    /// one keeps it, and nobody is asked.
    pub fn name_display<F: FnOnce() -> Option<String>>(&mut self, uuid: F)
        requires
            old(self).display() is None ==> call_requires(uuid, ()),
        ensures
            *final(self) == old(self).on(final(self).display()),
            old(self).display() is Some ==> *final(self) == *old(self),
            old(self).display() is None ==> call_ensures(uuid, (), final(self).display()),
    {
        match self {
            RiniEvent::WorkspaceChanged { display_uuid, .. } => {
                if display_uuid.is_none() {
                    *display_uuid = uuid();
                }
            },
            RiniEvent::WindowsChanged { display_uuid, .. } => {
                if display_uuid.is_none() {
                    *display_uuid = uuid();
                }
            },
            RiniEvent::WindowTitleChanged { display_uuid, .. } => {
                if display_uuid.is_none() {
                    *display_uuid = uuid();
                }
            },
            RiniEvent::FocusedWindowChanged { display_uuid, .. } => {
                if display_uuid.is_none() {
                    *display_uuid = uuid();
                }
            },
        }
    }
}

/// An event is told apart by its kind alone: where it happened changes neither its kind nor its
/// space, and a display once named stays.
pub proof fn naming_a_display_keeps_the_event(event: RiniEvent, display: Option<String>)
    ensures
        event.on(display).kind_of() == event.kind_of(),
        event.on(display).space() == event.space(),
        event.on(display).display() == display,
        event.on(event.display()) == event,
        event.kind_of() != EventKind::All,
{
}

/// The wire names: a subscriber to one kind of event writes its name in snake case, and a star for
/// all of them.
pub proof fn each_kind_goes_by_its_own_name(kind: EventKind)
    ensures
        kind.name() == "workspace_changed"@ <==> kind == EventKind::WorkspaceChanged,
        kind.name() == "windows_changed"@ <==> kind == EventKind::WindowsChanged,
        kind.name() == "window_title_changed"@ <==> kind == EventKind::WindowTitleChanged,
        kind.name() == "focused_window_changed"@ <==> kind == EventKind::FocusedWindowChanged,
        kind.name() == "*"@ <==> kind == EventKind::All,
{
    reveal_strlit("workspace_changed");
    reveal_strlit("windows_changed");
    reveal_strlit("window_title_changed");
    reveal_strlit("focused_window_changed");
    reveal_strlit("*");
    assert("workspace_changed"@.len() == 17);
    assert("windows_changed"@.len() == 15);
    assert("window_title_changed"@.len() == 20);
    assert("focused_window_changed"@.len() == 22);
    assert("*"@.len() == 1);
}

/// Asking for a kind by the name it is delivered under gives that very kind, and asking for nothing
/// in particular gives every kind.
pub proof fn asking_by_name_gives_the_kind(
    kind: EventKind,
    name: &'static str,
    argument: &str,
    asked: Option<EventKind>,
    unasked: Option<EventKind>,
)
    requires
        call_ensures(EventKind::as_str, (kind,), name),
        argument@ == name@,
        call_ensures(EventKind::asked_for, (Some(argument),), asked),
        call_ensures(EventKind::asked_for, (None::<&str>,), unasked),
    ensures
        asked == Some(kind),
        unasked == Some(EventKind::All),
{
}

/// An event's kind and the space and display it happened on are the ones it carries.
pub proof fn an_event_says_what_it_carries(event: RiniEvent)
    ensures
        event matches RiniEvent::WorkspaceChanged { space_id, display_uuid, .. } ==> event.space()
            == space_id && event.display() == display_uuid && event.kind_of().name()
            == "workspace_changed"@,
        event matches RiniEvent::WindowsChanged { space_id, display_uuid, .. } ==> event.space()
            == space_id && event.display() == display_uuid && event.kind_of().name()
            == "windows_changed"@,
        event matches RiniEvent::WindowTitleChanged { space_id, display_uuid, .. } ==> event.space()
            == space_id && event.display() == display_uuid && event.kind_of().name()
            == "window_title_changed"@,
        event matches RiniEvent::FocusedWindowChanged { space_id, display_uuid, .. } ==> event.space()
            == space_id && event.display() == display_uuid && event.kind_of().name()
            == "focused_window_changed"@,
{
}

/// The text of a workspace's identity starts with its two numbers and is spaces behind them; it is
/// never shorter than eight characters, nor longer than that when the numbers are short.
pub proof fn a_workspace_text_is_its_numbers_padded(id: WorkspaceId)
    ensures
        ({
            let text = workspace_text(id);
            let first = decimal(id.idx as nat);
            let second = decimal(id.version as nat);
            let digits = first.len() + second.len();
            &&& text.len() >= 8
            &&& text.len() > 8 ==> text.len() == digits
            &&& digits <= text.len()
            &&& text.subrange(0, first.len() as int) == first
            &&& text.subrange(first.len() as int, digits as int) == second
            &&& forall|i: int| digits <= i < text.len() ==> #[trigger] text[i] == ' '
        }),
{
    let text = workspace_text(id);
    let first = decimal(id.idx as nat);
    let second = decimal(id.version as nat);
    assert(text.subrange(0, first.len() as int) =~= first);
    assert(text.subrange(first.len() as int, (first.len() + second.len()) as int) =~= second);
}

/// A display already named is kept and nobody is asked; one not named is what the asked name, and
/// nothing else of the event changes.
pub proof fn an_unnamed_display_is_asked_for<F: FnOnce() -> Option<String>>(
    event: &mut RiniEvent,
    uuid: F,
    done: (),
)
    requires
        old(event).display() is None ==> call_requires(uuid, ()),
        call_ensures(RiniEvent::name_display::<F>, (event, uuid), done),
    ensures
        old(event).display() is Some ==> *final(event) == *old(event),
        old(event).display() is None ==> call_ensures(uuid, (), final(event).display()),
        final(event).kind_of() == old(event).kind_of(),
        final(event).space() == old(event).space(),
{
}

/// What is asked of an event is what it carries.
pub proof fn an_event_answers_for_itself(
    event: RiniEvent,
    kind: EventKind,
    space: u64,
    uuid: Option<&str>,
)
    requires
        call_ensures(RiniEvent::kind, (&event,), kind),
        call_ensures(RiniEvent::space_id, (&event,), space),
        call_ensures(RiniEvent::display_uuid, (&event,), uuid),
    ensures
        kind == event.kind_of(),
        space == event.space(),
        uuid is Some <==> event.display() is Some,
        uuid matches Some(text) ==> text@ == event.display()->0@,
        event is WorkspaceChanged ==> kind == EventKind::WorkspaceChanged,
        event is WindowsChanged ==> kind == EventKind::WindowsChanged,
        event is WindowTitleChanged ==> kind == EventKind::WindowTitleChanged,
        event is FocusedWindowChanged ==> kind == EventKind::FocusedWindowChanged,
{
}

} // verus!
