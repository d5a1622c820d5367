//! Identities of windows, displays and spaces.
use vstd::prelude::*;

use crate::text::{
    chars_of, decimal, decimal_digits_stand_for_the_number, find, first_occurrence, format_decimal,
    format_signed, is_digit, located, located_is, occurs_at, parse_number, parsed,
    reading_undoes_writing, same_chars, signed_decimal, slice,
};

verus! {

/// An identifier representing a window.
///
/// This identifier is only valid for the lifetime of the process that owns it. It is not stable
/// across restarts of the window manager.
#[derive(Clone, Copy, PartialEq, Eq, Structural, PartialOrd, Ord, Hash, Debug)]
pub struct WindowId {
    pub pid: i32,
    /// Never zero in a well-formed identifier.
    pub idx: u32,
}

impl WindowId {
    /// The index names a window: zero names none.
    pub open spec fn wf(self) -> bool {
        self.idx != 0
    }

    /// The window `idx` of process `pid`.
    pub fn new(pid: i32, idx: u32) -> (r: WindowId)
        requires
            idx != 0,
        ensures
            r == (WindowId { pid, idx }),
            r.wf(),
    {
        WindowId { pid, idx }
    }

    /// The window `idx` of process `pid`, unless the index is zero.
    pub fn checked(pid: i32, idx: u32) -> (r: Option<WindowId>)
        ensures
            r == (if idx == 0 {
                None
            } else {
                Some(WindowId { pid, idx })
            }),
    {
        if idx == 0 {
            None
        } else {
            Some(WindowId { pid, idx })
        }
    }
}

/// The text of a window identifier: its two numbers by name.
pub open spec fn id_text(pid: int, idx: int) -> Seq<char> {
    "WindowId { pid: "@ + signed_decimal(pid) + ", idx: "@ + signed_decimal(idx) + " }"@
}

/// The text between `prefix` and `suffix`, if it stands between them.
pub open spec fn between(text: Seq<char>, prefix: Seq<char>, suffix: Seq<char>) -> Option<
    Seq<char>,
> {
    if text.len() >= prefix.len() + suffix.len() && text.take(prefix.len() as int) == prefix
        && text.skip(text.len() - suffix.len()) == suffix {
        Some(text.subrange(prefix.len() as int, text.len() - suffix.len()))
    } else {
        None
    }
}

/// A number within a range, if a text stands for one.
pub open spec fn number_in(text: Seq<char>, signed: bool, least: int, most: int) -> Option<int> {
    match parsed(text, signed) {
        Some(n) => if least <= n <= most {
            Some(n)
        } else {
            None
        },
        None => None,
    }
}

/// Why a text is not a window identifier.
#[derive(Clone, Copy, PartialEq, Eq, Structural, Debug)]
pub enum WindowIdError {
    /// It is not of the form "WindowId { pid: .., idx: .. }".
    NotAnId,
    /// The process is not a number that fits.
    Pid,
    /// The index is not a number that fits.
    Idx,
    /// The index is zero.
    ZeroIndex,
    /// The process is missing.
    MissingPid,
    /// The index is missing.
    MissingIdx,
}

/// The identifier a text stands for, or why it stands for none.
pub open spec fn id_from(text: Seq<char>) -> Result<WindowId, WindowIdError> {
    match between(text, "WindowId { pid: "@, " }"@) {
        None => Err(WindowIdError::NotAnId),
        Some(inner) => match located(inner, ", idx: "@, 0) {
            None => Err(WindowIdError::NotAnId),
            Some(at) => match number_in(
                inner.take(at),
                true,
                i32::MIN as int,
                i32::MAX as int,
            ) {
                None => Err(WindowIdError::Pid),
                Some(pid) => match number_in(
                    inner.skip(at + ", idx: "@.len()),
                    false,
                    0,
                    u32::MAX as int,
                ) {
                    None => Err(WindowIdError::Idx),
                    Some(idx) => if idx == 0 {
                        Err(WindowIdError::ZeroIndex)
                    } else {
                        Ok(WindowId { pid: pid as i32, idx: idx as u32 })
                    },
                },
            },
        },
    }
}

/// What the fields of a window identifier come to: the first that is missing, or the identifier,
/// whose index may not be zero.
pub open spec fn id_of_fields(pid: Option<i32>, idx: Option<u32>) -> Result<
    WindowId,
    WindowIdError,
> {
    match (pid, idx) {
        (None, _) => Err(WindowIdError::MissingPid),
        (Some(_), None) => Err(WindowIdError::MissingIdx),
        (Some(pid), Some(idx)) => if idx == 0 {
            Err(WindowIdError::ZeroIndex)
        } else {
            Ok(WindowId { pid, idx })
        },
    }
}

/// One entry of an object that may hold a window identifier, in the order read. Entries of other
/// names are ignored, so that later additions stay readable.
#[derive(Clone, Copy, PartialEq, Eq, Debug)]
pub enum IdField {
    Pid(i32),
    Idx(u32),
    Other,
}

/// The last process an object names.
pub open spec fn last_pid(fields: Seq<IdField>) -> Option<i32>
    decreases fields.len(),
{
    if fields.len() == 0 {
        None
    } else {
        match fields.last() {
            IdField::Pid(pid) => Some(pid),
            _ => last_pid(fields.drop_last()),
        }
    }
}

/// The last index an object names.
pub open spec fn last_idx(fields: Seq<IdField>) -> Option<u32>
    decreases fields.len(),
{
    if fields.len() == 0 {
        None
    } else {
        match fields.last() {
            IdField::Idx(idx) => Some(idx),
            _ => last_idx(fields.drop_last()),
        }
    }
}

fn is_between(chars: &Vec<char>, prefix: &Vec<char>, suffix: &Vec<char>) -> (r: Option<Vec<char>>)
    requires
        prefix.len() + suffix.len() <= usize::MAX,
    ensures
        r is Some <==> between(chars@, prefix@, suffix@) is Some,
        r matches Some(inner) ==> inner@ == between(chars@, prefix@, suffix@)->0,
{
    if chars.len() < prefix.len() + suffix.len() {
        return None;
    }
    let end: usize = chars.len() - suffix.len();
    let head: Vec<char> = slice(chars, 0, prefix.len());
    let tail: Vec<char> = slice(chars, end, chars.len());
    assert(head@ =~= chars@.take(prefix@.len() as int));
    assert(tail@ =~= chars@.skip(chars@.len() - suffix@.len()));
    if !same_chars(&head, prefix) || !same_chars(&tail, suffix) {
        return None;
    }
    Some(slice(chars, prefix.len(), end))
}

/// Reads a window identifier from its text, and says why where it is none.
pub fn parse_debug_string(text: &str) -> (r: Result<WindowId, WindowIdError>)
    ensures
        r == id_from(text@),
{
    proof {
        reveal_strlit("WindowId { pid: ");
        reveal_strlit(" }");
        reveal_strlit(", idx: ");
    }
    let chars: Vec<char> = chars_of(text);
    let prefix: Vec<char> = chars_of("WindowId { pid: ");
    let suffix: Vec<char> = chars_of(" }");
    let comma: Vec<char> = chars_of(", idx: ");
    match is_between(&chars, &prefix, &suffix) {
        None => Err(WindowIdError::NotAnId),
        Some(inner) => match find(&inner, &comma, 0) {
            None => Err(WindowIdError::NotAnId),
            Some(at) => {
                let first: Vec<char> = slice(&inner, 0, at);
                let second: Vec<char> = slice(&inner, at + comma.len(), inner.len());
                assert(first@ =~= inner@.take(at as int));
                assert(second@ =~= inner@.skip(at + ", idx: "@.len()));
                match parse_number(&first, true, i32::MIN as i64, i32::MAX as i64) {
                    None => Err(WindowIdError::Pid),
                    Some(pid) => match parse_number(&second, false, 0, u32::MAX as i64) {
                        None => Err(WindowIdError::Idx),
                        Some(idx) => if idx == 0 {
                            Err(WindowIdError::ZeroIndex)
                        } else {
                            Ok(WindowId { pid: pid as i32, idx: idx as u32 })
                        },
                    },
                }
            },
        },
    }
}

impl WindowId {
    /// Reads a window identifier from its text, such as "WindowId { pid: 123, idx: 456 }".
    pub fn from_debug_string(text: &str) -> (r: Option<WindowId>)
        ensures
            r == (match id_from(text@) {
                Ok(id) => Some(id),
                Err(_) => None,
            }),
            r matches Some(id) ==> id.wf(),
    {
        match parse_debug_string(text) {
            Ok(id) => Some(id),
            Err(_) => None,
        }
    }

    /// The text of the identifier.
    pub fn to_debug_string(&self) -> (r: String)
        ensures
            r@ == id_text(self.pid as int, self.idx as int),
    {
        let mut out: String = String::new();
        out.append("WindowId { pid: ");
        out.append(format_signed(self.pid as i64).as_str());
        out.append(", idx: ");
        out.append(format_decimal(self.idx as u64).as_str());
        out.append(" }");
        assert(out@ =~= id_text(self.pid as int, self.idx as int));
        out
    }

    /// A window identifier from two values in order: the process, then the index.
    pub fn from_pair(pid: Option<i32>, idx: Option<u32>) -> (r: Result<WindowId, WindowIdError>)
        ensures
            r == id_of_fields(pid, idx),
            r matches Ok(id) ==> id.wf(),
    {
        match pid {
            None => Err(WindowIdError::MissingPid),
            Some(pid) => match idx {
                None => Err(WindowIdError::MissingIdx),
                Some(idx) => if idx == 0 {
                    Err(WindowIdError::ZeroIndex)
                } else {
                    Ok(WindowId { pid, idx })
                },
            },
        }
    }

    /// A window identifier from the entries of an object; the last entry of a name counts.
    pub fn from_fields(fields: &Vec<IdField>) -> (r: Result<WindowId, WindowIdError>)
        ensures
            r == id_of_fields(last_pid(fields@), last_idx(fields@)),
            r matches Ok(id) ==> id.wf(),
    {
        let mut pid: Option<i32> = None;
        let mut idx: Option<u32> = None;
        let mut i: usize = 0;
        while i < fields.len()
            invariant
                i <= fields.len(),
                pid == last_pid(fields@.take(i as int)),
                idx == last_idx(fields@.take(i as int)),
            decreases fields.len() - i,
        {
            assert(fields@.take(i + 1).drop_last() =~= fields@.take(i as int));
            match fields[i] {
                IdField::Pid(value) => {
                    pid = Some(value);
                },
                IdField::Idx(value) => {
                    idx = Some(value);
                },
                IdField::Other => {},
            }
            i += 1;
        }
        assert(fields@.take(fields@.len() as int) =~= fields@);
        WindowId::from_pair(pid, idx)
    }
}

/// Reading the text of an identifier gives the identifier back.
pub proof fn reading_an_id_undoes_writing_it(id: WindowId)
    requires
        id.wf(),
    ensures
        id_from(id_text(id.pid as int, id.idx as int)) == Ok::<WindowId, WindowIdError>(id),
{
    reveal_strlit("WindowId { pid: ");
    reveal_strlit(", idx: ");
    reveal_strlit(" }");
    let prefix = "WindowId { pid: "@;
    let comma = ", idx: "@;
    let suffix = " }"@;
    let first = signed_decimal(id.pid as int);
    let second = signed_decimal(id.idx as int);
    let text = id_text(id.pid as int, id.idx as int);
    let inner = first + comma + second;
    assert(text.take(prefix.len() as int) =~= prefix);
    assert(text.skip(text.len() - suffix.len()) =~= suffix);
    assert(text.subrange(prefix.len() as int, text.len() - suffix.len()) =~= inner);
    let at = first.len() as int;
    numbers_have_no_comma(id.pid as int);
    assert(inner.subrange(at, at + comma.len()) =~= comma);
    assert forall|i: int| 0 <= i < at implies !#[trigger] occurs_at(inner, comma, i) by {
        if occurs_at(inner, comma, i) {
            assert(inner.subrange(i, i + comma.len())[0] == comma[0]);
            assert(inner[i] == first[i]);
        }
    }
    assert(first_occurrence(inner, comma, 0, at));
    located_is(inner, comma, 0, at);
    assert(inner.take(at) =~= first);
    assert(inner.skip(at + comma.len()) =~= second);
    reading_undoes_writing(id.pid as int);
    reading_undoes_writing(id.idx as int);
}

proof fn numbers_have_no_comma(n: int)
    ensures
        forall|i: int| 0 <= i < signed_decimal(n).len() ==> #[trigger] signed_decimal(n)[i] != ',',
{
    if n < 0 {
        decimal_digits_stand_for_the_number((-n) as nat);
        let text = signed_decimal(n);
        assert forall|i: int| 0 <= i < text.len() implies #[trigger] text[i] != ',' by {
            if i > 0 {
                assert(text[i] == decimal((-n) as nat)[i - 1]);
                assert(is_digit(decimal((-n) as nat)[i - 1]));
            }
        }
    } else {
        decimal_digits_stand_for_the_number(n as nat);
        assert forall|i: int| 0 <= i < signed_decimal(n).len() implies #[trigger] signed_decimal(
            n,
        )[i] != ',' by {
            assert(is_digit(decimal(n as nat)[i]));
        }
    }
}

/// The window server's own number for a window.
#[derive(Clone, Copy, PartialEq, Eq, Structural, PartialOrd, Ord, Hash, Debug)]
pub struct WindowServerId(pub u32);

impl WindowServerId {
    pub fn new(id: u32) -> (r: Self)
        ensures
            r == WindowServerId(id),
    {
        WindowServerId(id)
    }

    pub fn as_u32(self) -> (r: u32)
        ensures
            r == self.0,
    {
        self.0
    }

    /// The number, unless it is zero, which is no window.
    pub fn as_nonzero(self) -> (r: Option<u32>)
        ensures
            r == (if self.0 == 0 {
                None
            } else {
                Some(self.0)
            }),
    {
        if self.0 == 0 {
            None
        } else {
            Some(self.0)
        }
    }
}

impl vstd::std_specs::convert::FromSpecImpl<WindowServerId> for u32 {
    open spec fn obeys_from_spec() -> bool {
        true
    }

    open spec fn from_spec(id: WindowServerId) -> Self {
        id.0
    }
}

impl From<WindowServerId> for u32 {
    fn from(id: WindowServerId) -> (r: Self) {
        id.0
    }
}

impl vstd::std_specs::convert::FromSpecImpl<WindowId> for WindowServerId {
    open spec fn obeys_from_spec() -> bool {
        true
    }

    open spec fn from_spec(id: WindowId) -> Self {
        WindowServerId(id.idx)
    }
}

/// A window's index is its number with the window server.
impl From<WindowId> for WindowServerId {
    fn from(id: WindowId) -> (r: Self) {
        WindowServerId(id.idx)
    }
}

/// A stable identifier derived from a window server number, for a window nobody manages. Process
/// zero keeps it clear of real identifiers.
pub open spec fn synthetic(server_id: WindowServerId) -> WindowId {
    WindowId {
        pid: 0,
        idx: if server_id.0 == 0 {
            1
        } else {
            server_id.0
        },
    }
}

/// A stable identifier derived from a window server number.
pub fn synthetic_window_id(server_id: WindowServerId) -> (r: WindowId)
    ensures
        r == synthetic(server_id),
        r.wf(),
{
    WindowId {
        pid: 0,
        idx: if server_id.0 == 0 {
            1
        } else {
            server_id.0
        },
    }
}

/// The window server's own number for a space.
#[derive(Clone, Copy, PartialEq, Eq, Structural, PartialOrd, Ord, Hash, Debug)]
pub struct SpaceId(u64);

impl SpaceId {
    /// The number inside.
    pub closed spec fn number(self) -> u64 {
        self.0
    }

    pub fn new(id: u64) -> (r: SpaceId)
        ensures
            r.number() == id,
    {
        SpaceId(id)
    }

    pub fn get(&self) -> (r: u64)
        ensures
            r == self.number(),
    {
        self.0
    }

    /// The space's number, written out.
    pub fn to_text(&self) -> (r: String)
        ensures
            r@ == decimal(self.number() as nat),
    {
        format_decimal(self.0)
    }
}

impl vstd::std_specs::convert::FromSpecImpl<SpaceId> for u64 {
    open spec fn obeys_from_spec() -> bool {
        true
    }

    open spec fn from_spec(id: SpaceId) -> Self {
        id.number()
    }
}

impl From<SpaceId> for u64 {
    fn from(id: SpaceId) -> (r: Self) {
        id.get()
    }
}

/// A space is its number and nothing more.
pub proof fn a_space_is_its_number(a: SpaceId, b: SpaceId)
    ensures
        a.number() == b.number() <==> a == b,
{
}

/// The system's number for a display.
#[derive(Clone, Copy, PartialEq, Eq, Structural, PartialOrd, Ord, Hash, Debug)]
pub struct ScreenId(u32);

impl ScreenId {
    /// The number inside.
    pub closed spec fn number(self) -> u32 {
        self.0
    }

    pub fn new(id: u32) -> (r: Self)
        ensures
            r.number() == id,
    {
        ScreenId(id)
    }

    pub fn as_u32(&self) -> (r: u32)
        ensures
            r == self.number(),
    {
        self.0
    }
}

/// The text of an identifier whose numbers do not fit is refused for the number that does not: the
/// process first, then the index, and a zero index last.
pub proof fn an_id_out_of_range_is_refused(pid: int, idx: int)
    requires
        idx >= 0,
    ensures
        !(i32::MIN <= pid <= i32::MAX) ==> id_from(id_text(pid, idx)) == Err::<
            WindowId,
            WindowIdError,
        >(WindowIdError::Pid),
        i32::MIN <= pid <= i32::MAX && idx > u32::MAX ==> id_from(id_text(pid, idx)) == Err::<
            WindowId,
            WindowIdError,
        >(WindowIdError::Idx),
        i32::MIN <= pid <= i32::MAX && idx == 0 ==> id_from(id_text(pid, idx)) == Err::<
            WindowId,
            WindowIdError,
        >(WindowIdError::ZeroIndex),
{
    reveal_strlit("WindowId { pid: ");
    reveal_strlit(", idx: ");
    reveal_strlit(" }");
    let prefix = "WindowId { pid: "@;
    let comma = ", idx: "@;
    let suffix = " }"@;
    let first = signed_decimal(pid);
    let second = signed_decimal(idx);
    let text = id_text(pid, idx);
    let inner = first + comma + second;
    assert(text.take(prefix.len() as int) =~= prefix);
    assert(text.skip(text.len() - suffix.len()) =~= suffix);
    assert(text.subrange(prefix.len() as int, text.len() - suffix.len()) =~= inner);
    let at = first.len() as int;
    numbers_have_no_comma(pid);
    assert(inner.subrange(at, at + comma.len()) =~= comma);
    assert forall|i: int| 0 <= i < at implies !#[trigger] occurs_at(inner, comma, i) by {
        if occurs_at(inner, comma, i) {
            assert(inner.subrange(i, i + comma.len())[0] == comma[0]);
            assert(inner[i] == first[i]);
        }
    }
    assert(first_occurrence(inner, comma, 0, at));
    located_is(inner, comma, 0, at);
    assert(inner.take(at) =~= first);
    assert(inner.skip(at + comma.len()) =~= second);
    reading_undoes_writing(pid);
    reading_undoes_writing(idx);
}

/// What is read as an identifier names a window, and stands between its opening and closing words.
pub proof fn an_id_is_read_between_its_words(text: Seq<char>)
    ensures
        id_from(text) matches Ok(id) ==> {
            &&& id.idx != 0
            &&& text.len() >= 25
            &&& text.take(16) == "WindowId { pid: "@
            &&& text.skip(text.len() - 2) == " }"@
        },
{
    reveal_strlit("WindowId { pid: ");
    reveal_strlit(", idx: ");
    reveal_strlit(" }");
    assert("WindowId { pid: "@.len() == 16);
    assert(" }"@.len() == 2);
    assert(", idx: "@.len() == 7);
    if id_from(text) is Ok {
        let inner = between(text, "WindowId { pid: "@, " }"@)->0;
        let at = choose|at: int| first_occurrence(inner, ", idx: "@, 0, at);
        assert(first_occurrence(inner, ", idx: "@, 0, at));
        assert(occurs_at(inner, ", idx: "@, at));
    }
}

/// An object names a window by both its fields; the process is missed first, and a zero index is no
/// window. Of two entries of one name the later counts, and other entries count for nothing.
pub proof fn the_last_field_of_a_name_counts(fields: Seq<IdField>, pid: i32, idx: u32)
    ensures
        last_pid(fields.push(IdField::Pid(pid))) == Some(pid),
        last_idx(fields.push(IdField::Pid(pid))) == last_idx(fields),
        last_idx(fields.push(IdField::Idx(idx))) == Some(idx),
        last_pid(fields.push(IdField::Idx(idx))) == last_pid(fields),
        last_pid(fields.push(IdField::Other)) == last_pid(fields),
        last_idx(fields.push(IdField::Other)) == last_idx(fields),
        last_pid(Seq::empty()) is None,
        last_idx(Seq::empty()) is None,
        id_of_fields(None, Some(idx)) == Err::<WindowId, WindowIdError>(WindowIdError::MissingPid),
        id_of_fields(None, None) == Err::<WindowId, WindowIdError>(WindowIdError::MissingPid),
        id_of_fields(Some(pid), None) == Err::<WindowId, WindowIdError>(WindowIdError::MissingIdx),
        id_of_fields(Some(pid), Some(0)) == Err::<WindowId, WindowIdError>(
            WindowIdError::ZeroIndex,
        ),
        idx != 0 ==> id_of_fields(Some(pid), Some(idx)) == Ok::<WindowId, WindowIdError>(
            WindowId { pid, idx },
        ),
{
    assert(fields.push(IdField::Pid(pid)).drop_last() =~= fields);
    assert(fields.push(IdField::Idx(idx)).drop_last() =~= fields);
    assert(fields.push(IdField::Other).drop_last() =~= fields);
}

/// A window nobody manages is known by its number, under no process; two of them are one only where
/// their numbers are, and none is a window of a process.
pub proof fn a_synthetic_id_is_its_number(a: WindowServerId, b: WindowServerId, owned: WindowId)
    ensures
        synthetic(a).pid == 0,
        synthetic(a).idx != 0,
        a.0 != 0 ==> synthetic(a).idx == a.0,
        a.0 != 0 && b.0 != 0 && synthetic(a) == synthetic(b) ==> a == b,
        owned.pid != 0 ==> synthetic(a) != owned,
{
}

/// An identifier is made of the numbers given, and of a zero index none is made; a window's number
/// with the server is its index.
pub proof fn an_id_is_its_numbers(
    pid: i32,
    idx: u32,
    checked: Option<WindowId>,
    server: WindowServerId,
    number: Option<u32>,
)
    requires
        call_ensures(WindowId::checked, (pid, idx), checked),
        call_ensures(WindowServerId::new, (idx,), server),
        call_ensures(WindowServerId::as_nonzero, (server,), number),
    ensures
        checked is None <==> idx == 0,
        checked matches Some(id) ==> id.pid == pid && id.idx == idx,
        number is None <==> idx == 0,
        number matches Some(n) ==> n == idx,
        server.0 == idx,
{
}

/// A window's number with the server is its index, and reads as that number.
pub proof fn a_server_number_is_the_index(id: WindowId, server: WindowServerId)
    ensures
        <WindowServerId as vstd::std_specs::convert::FromSpec<WindowId>>::from_spec(id).0 == id.idx,
        <u32 as vstd::std_specs::convert::FromSpec<WindowServerId>>::from_spec(server) == server.0,
{
}

/// A text written of an identifier is read as that identifier, and an object with both its fields names
/// it; anything that is read has an index.
pub proof fn an_id_is_read_as_it_was_written(
    id: WindowId,
    text: &str,
    read: Option<WindowId>,
    fields: Vec<IdField>,
    named: Result<WindowId, WindowIdError>,
)
    requires
        id.wf(),
        text@ == id_text(id.pid as int, id.idx as int),
        call_ensures(WindowId::from_debug_string, (text,), read),
        fields@ == seq![IdField::Pid(id.pid), IdField::Other, IdField::Idx(id.idx)],
        call_ensures(WindowId::from_fields, (&fields,), named),
    ensures
        read == Some(id),
        named == Ok::<WindowId, WindowIdError>(id),
{
    reading_an_id_undoes_writing_it(id);
    let none = Seq::<IdField>::empty();
    let one = none.push(IdField::Pid(id.pid));
    let two = one.push(IdField::Other);
    the_last_field_of_a_name_counts(none, id.pid, id.idx);
    the_last_field_of_a_name_counts(one, id.pid, id.idx);
    the_last_field_of_a_name_counts(two, id.pid, id.idx);
    assert(fields@ =~= two.push(IdField::Idx(id.idx)));
}

/// Numbers go in and come out as they are.
pub proof fn a_number_comes_out_as_it_went_in(
    space: u64,
    screen: u32,
    made: SpaceId,
    got: u64,
    text: String,
    shown: ScreenId,
    number: u32,
)
    requires
        call_ensures(SpaceId::new, (space,), made),
        call_ensures(SpaceId::get, (&made,), got),
        call_ensures(SpaceId::to_text, (&made,), text),
        call_ensures(ScreenId::new, (screen,), shown),
        call_ensures(ScreenId::as_u32, (&shown,), number),
    ensures
        got == space,
        number == screen,
        crate::text::digits_value(text@) == space,
{
    decimal_digits_stand_for_the_number(space as nat);
}

} // verus!
