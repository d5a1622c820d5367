//! What a key binding can name: a wire command, or the few things only a key can ask for. Plain data;
//! the application interprets it.
use vstd::prelude::*;

use crate::ids::WindowServerId;
use crate::protocol::commands::Command;
use crate::text::{chars_of, parts, same_text, split, texts};

verus! {

/// A workspace, by place or by name.
pub enum WorkspaceSelector {
    Index(usize),
    Name(String),
}

/// A command line to run.
pub enum ExecCmd {
    String(String),
    Array(Vec<String>),
}

/// What only a key binding can ask for.
pub enum WmCmd {
    ToggleSpaceActivated,
    Exec(ExecCmd),
    ReloadConfig,
    NextWorkspace,
    PrevWorkspace,
    SwitchToWorkspace(WorkspaceSelector),
    MoveWindowToWorkspace(WorkspaceSelector),
    CreateWorkspace,
    SwitchToLastWorkspace,
    CloseWindow,
    /// Cycle the focused app's windows across workspaces and displays.
    ///
    /// Two variants without fields rather than one with a direction, so both directions can be
    /// written as plain strings in a binding.
    CycleAppWindows,
    CycleAppWindowsBackward,
}

/// What a key binding names: what only a key can ask for, or a command the window manager executes.
/// Of the layout's and the reactor's own commands nothing is read here.
pub enum WmCommand<L, R> {
    Wm(WmCmd),
    ReactorCommand(Command<L, R>),
}

/// What input tells the application: a binding fired, or the pointer did something the window manager
/// reacts to.
pub enum Event<L, R> {
    /// A key binding or gesture fired.
    Command(WmCommand<L, R>),
    /// A mouse button was released while the tap was processing mouse events.
    MouseUp,
    /// The pointer moved into a different window than the one it was in.
    PointerEnteredWindow(WindowServerId),
}

/// The names of the commands, in the order they are declared.
pub open spec fn variant_names() -> Seq<Seq<char>> {
    seq![
        "ToggleSpaceActivated"@,
        "Exec"@,
        "ReloadConfig"@,
        "NextWorkspace"@,
        "PrevWorkspace"@,
        "SwitchToWorkspace"@,
        "MoveWindowToWorkspace"@,
        "CreateWorkspace"@,
        "SwitchToLastWorkspace"@,
        "CloseWindow"@,
        "CycleAppWindows"@,
        "CycleAppWindowsBackward"@,
    ]
}

/// `c` is an upper-case letter of the ASCII alphabet.
pub open spec fn is_upper(c: char) -> bool {
    'A' <= c <= 'Z'
}

/// The lower-case letter of an upper-case one.
pub open spec fn lowered(c: char) -> char {
    ((c as int) + 32) as char
}

/// A name in snake case: every upper-case letter becomes its lower-case one, with an underscore
/// before it unless it begins the name.
pub open spec fn snake(name: Seq<char>) -> Seq<char>
    decreases name.len(),
{
    if name.len() == 0 {
        Seq::empty()
    } else {
        let before = snake(name.drop_last());
        let c = name.last();
        if is_upper(c) {
            if name.len() > 1 {
                before.push('_').push(lowered(c))
            } else {
                before.push(lowered(c))
            }
        } else {
            before.push(c)
        }
    }
}

fn lower_letter(c: char) -> (r: char)
    requires
        is_upper(c),
    ensures
        r == lowered(c),
{
    (c as u8 + 32) as char
}

/// A name in snake case.
pub fn snake_case(name: &str) -> (r: String)
    ensures
        r@ == snake(name@),
{
    let chars: Vec<char> = chars_of(name);
    let mut out: String = String::new();
    let mut i: usize = 0;
    while i < chars.len()
        invariant
            chars@ == name@,
            i <= chars.len(),
            out@ == snake(name@.take(i as int)),
        decreases chars.len() - i,
    {
        let c: char = chars[i];
        let ghost now = name@.take(i + 1);
        proof {
            assert(now.drop_last() =~= name@.take(i as int));
            assert(now.last() == c);
        }
        if 'A' <= c && c <= 'Z' {
            if i != 0 {
                out.push('_');
            }
            out.push(lower_letter(c));
        } else {
            out.push(c);
        }
        i += 1;
    }
    assert(name@.take(name@.len() as int) =~= name@);
    out
}

/// The commands as a configuration writes them.
pub open spec fn builtin_names() -> Seq<Seq<char>> {
    variant_names().map_values(|name: Seq<char>| snake(name))
}

impl WmCmd {
    /// The commands as a configuration writes them, in the order they are declared.
    pub fn snake_case_variants() -> (r: Vec<String>)
        ensures
            texts(r@) == builtin_names(),
    {
        let mut out: Vec<String> = Vec::new();
        out.push(snake_case("ToggleSpaceActivated"));
        out.push(snake_case("Exec"));
        out.push(snake_case("ReloadConfig"));
        out.push(snake_case("NextWorkspace"));
        out.push(snake_case("PrevWorkspace"));
        out.push(snake_case("SwitchToWorkspace"));
        out.push(snake_case("MoveWindowToWorkspace"));
        out.push(snake_case("CreateWorkspace"));
        out.push(snake_case("SwitchToLastWorkspace"));
        out.push(snake_case("CloseWindow"));
        out.push(snake_case("CycleAppWindows"));
        out.push(snake_case("CycleAppWindowsBackward"));
        assert(texts(out@) =~= builtin_names());
        out
    }
}

impl<L, R> WmCommand<L, R> {
    /// What a misspelt binding is compared with.
    pub fn builtin_candidates() -> (r: Vec<String>)
        ensures
            texts(r@) == builtin_names(),
    {
        WmCmd::snake_case_variants()
    }
}

impl ExecCmd {
    /// The words to run.
    pub open spec fn words(&self) -> Seq<Seq<char>> {
        match *self {
            ExecCmd::Array(list) => texts(list@),
            ExecCmd::String(line) => parts(line@, ' '),
        }
    }

    /// The argv to run. The string form splits on single spaces only; quoting is not interpreted, so
    /// use the array form for arguments that contain spaces.
    pub fn as_array(&self) -> (r: Vec<String>)
        ensures
            texts(r@) == self.words(),
    {
        match self {
            ExecCmd::Array(list) => {
                let mut out: Vec<String> = Vec::new();
                let mut i: usize = 0;
                while i < list.len()
                    invariant
                        i <= list.len(),
                        out.len() == i,
                        forall|j: int| 0 <= j < i ==> (#[trigger] out[j])@ == list[j]@,
                    decreases list.len() - i,
                {
                    out.push(list[i].clone());
                    i += 1;
                }
                assert(texts(out@) =~= texts(list@));
                out
            },
            ExecCmd::String(line) => split(line.as_str(), ' '),
        }
    }
}

/// The commands a binding may name by a bare word: those of the window manager, then those of the
/// layout, the metrics and the reactor.
pub open spec fn bare_names() -> Seq<Seq<char>> {
    seq![
        "toggle_space_activated"@,
        "reload_config"@,
        "next_workspace"@,
        "prev_workspace"@,
        "create_workspace"@,
        "switch_to_last_workspace"@,
        "close_window"@,
        "cycle_app_windows"@,
        "cycle_app_windows_backward"@,
        "next_window"@,
        "prev_window"@,
        "toggle_stack"@,
        "unjoin_windows"@,
        "toggle_focus_floating"@,
        "toggle_window_floating"@,
        "toggle_fullscreen_within_gaps"@,
        "snap_strip"@,
        "cycle_preset_column_width"@,
        "center_selection"@,
        "show_timing"@,
        "debug"@,
        "debug_warm_snapshots"@,
        "serialize"@,
        "save_and_exit"@,
        "redistribute_windows"@,
    ]
}

/// A bare word names a command.
pub open spec fn bare_command(word: Seq<char>) -> bool {
    bare_names().contains(word)
}

/// Whether a bare word names a command that takes nothing with it.
pub fn is_bare_command(word: &str) -> (r: bool)
    ensures
        r == bare_command(word@),
{
    let names: [&str; 25] = [
        "toggle_space_activated",
        "reload_config",
        "next_workspace",
        "prev_workspace",
        "create_workspace",
        "switch_to_last_workspace",
        "close_window",
        "cycle_app_windows",
        "cycle_app_windows_backward",
        "next_window",
        "prev_window",
        "toggle_stack",
        "unjoin_windows",
        "toggle_focus_floating",
        "toggle_window_floating",
        "toggle_fullscreen_within_gaps",
        "snap_strip",
        "cycle_preset_column_width",
        "center_selection",
        "show_timing",
        "debug",
        "debug_warm_snapshots",
        "serialize",
        "save_and_exit",
        "redistribute_windows",
    ];
    assert forall|j: int| 0 <= j < 25 implies (#[trigger] names[j])@ == bare_names()[j] by {}
    let mut i: usize = 0;
    while i < 25
        invariant
            i <= 25,
            forall|j: int| 0 <= j < 25 ==> (#[trigger] names[j])@ == bare_names()[j],
            forall|j: int| 0 <= j < i ==> bare_names()[j] != word@,
        decreases 25 - i,
    {
        if same_text(names[i], word) {
            assert(bare_names()[i as int] == word@);
            return true;
        }
        i += 1;
    }
    false
}

/// Snake case goes letter by letter: a capital behind others becomes an underscore and its small
/// letter, a first capital its small letter alone, and anything else stays.
pub proof fn snake_case_goes_letter_by_letter(name: Seq<char>, c: char)
    ensures
        name.len() > 0 && 'A' <= c <= 'Z' ==> snake(name.push(c)) == snake(name).push('_').push(
            ((c as int) + 32) as char,
        ),
        name.len() == 0 && 'A' <= c <= 'Z' ==> snake(name.push(c)) == seq![((c as int) + 32) as char],
        !('A' <= c <= 'Z') ==> snake(name.push(c)) == snake(name).push(c),
        snake(Seq::empty()) == Seq::<char>::empty(),
{
    assert(name.push(c).drop_last() =~= name);
    if name.len() == 0 {
        assert(snake(name) =~= Seq::empty());
        assert(Seq::empty().push(((c as int) + 32) as char) =~= seq![((c as int) + 32) as char]);
    }
}

/// A name in snake case has no capital left.
pub proof fn snake_case_has_no_capital(name: Seq<char>, i: int)
    requires
        0 <= i < snake(name).len(),
    ensures
        !('A' <= snake(name)[i] <= 'Z'),
    decreases name.len(),
{
    if name.len() > 0 {
        let before = snake(name.drop_last());
        let c = name.last();
        if i < before.len() {
            snake_case_has_no_capital(name.drop_last(), i);
        } else if is_upper(c) {
            let code = (c as int) + 32;
            assert(97 <= code <= 122);
            assert((lowered(c) as int) == code);
        }
    }
}

/// Small letters and the like are taken over as they are, wherever they stand.
proof fn small_letters_are_kept(before: Seq<char>, behind: Seq<char>)
    requires
        forall|i: int| 0 <= i < behind.len() ==> !is_upper(#[trigger] behind[i]),
    ensures
        snake(before + behind) == snake(before) + behind,
    decreases behind.len(),
{
    if behind.len() == 0 {
        assert(before + behind =~= before);
        assert(snake(before) + behind =~= snake(before));
    } else {
        let rest = behind.drop_last();
        assert forall|i: int| 0 <= i < rest.len() implies !is_upper(#[trigger] rest[i]) by {
            assert(rest[i] == behind[i]);
        }
        small_letters_are_kept(before, rest);
        assert((before + behind).drop_last() =~= before + rest);
        assert(!is_upper(behind[behind.len() - 1]));
        assert((snake(before) + rest).push(behind.last()) =~= snake(before) + behind);
    }
}

/// A word behind others is set off by an underscore, and begins with its small letter.
proof fn a_word_is_set_off(before: Seq<char>, capital: char, small: char, behind: Seq<char>)
    requires
        'A' <= capital <= 'Z',
        small as int == (capital as int) + 32,
        forall|i: int| 0 <= i < behind.len() ==> !is_upper(#[trigger] behind[i]),
    ensures
        before.len() > 0 ==> snake(before.push(capital) + behind) == snake(before).push('_').push(
            small,
        ) + behind,
        before.len() == 0 ==> snake(before.push(capital) + behind) == seq![small] + behind,
{
    snake_case_goes_letter_by_letter(before, capital);
    small_letters_are_kept(before.push(capital), behind);
}

/// The commands are written in the configuration as the words of their names, in small letters with
/// an underscore between them.
pub proof fn the_commands_are_written_in_small_words()
    ensures
        builtin_names().len() == 12,
        builtin_names()[0] == "toggle_space_activated"@,
        builtin_names()[1] == "exec"@,
        builtin_names()[2] == "reload_config"@,
        builtin_names()[3] == "next_workspace"@,
        builtin_names()[4] == "prev_workspace"@,
        builtin_names()[5] == "switch_to_workspace"@,
        builtin_names()[6] == "move_window_to_workspace"@,
        builtin_names()[7] == "create_workspace"@,
        builtin_names()[8] == "switch_to_last_workspace"@,
        builtin_names()[9] == "close_window"@,
        builtin_names()[10] == "cycle_app_windows"@,
        builtin_names()[11] == "cycle_app_windows_backward"@,
{
    name_toggle_space_activated();
    name_exec();
    name_reload_config();
    name_next_workspace();
    name_prev_workspace();
    name_switch_to_workspace();
    name_move_window_to_workspace();
    name_create_workspace();
    name_switch_to_last_workspace();
    name_close_window();
    name_cycle_app_windows();
    name_cycle_app_windows_backward();
}

proof fn name_toggle_space_activated()
    ensures
        snake("ToggleSpaceActivated"@) == "toggle_space_activated"@,
{
    reveal_strlit("ToggleSpaceActivated");
    reveal_strlit("toggle_space_activated");
    let w0 = Seq::<char>::empty();
    let r0: Seq<char> = seq!['o', 'g', 'g', 'l', 'e'];
    a_word_is_set_off(w0, 'T', 't', r0);
    let w1 = w0.push('T') + r0;
    let r1: Seq<char> = seq!['p', 'a', 'c', 'e'];
    a_word_is_set_off(w1, 'S', 's', r1);
    let w2 = w1.push('S') + r1;
    let r2: Seq<char> = seq!['c', 't', 'i', 'v', 'a', 't', 'e', 'd'];
    a_word_is_set_off(w2, 'A', 'a', r2);
    assert(w2.push('A') + r2 =~= "ToggleSpaceActivated"@);
    assert(snake(w2.push('A') + r2) =~= "toggle_space_activated"@);
}

proof fn name_exec()
    ensures
        snake("Exec"@) == "exec"@,
{
    reveal_strlit("Exec");
    reveal_strlit("exec");
    let w0 = Seq::<char>::empty();
    let r0: Seq<char> = seq!['x', 'e', 'c'];
    a_word_is_set_off(w0, 'E', 'e', r0);
    assert(w0.push('E') + r0 =~= "Exec"@);
    assert(snake(w0.push('E') + r0) =~= "exec"@);
}

proof fn name_reload_config()
    ensures
        snake("ReloadConfig"@) == "reload_config"@,
{
    reveal_strlit("ReloadConfig");
    reveal_strlit("reload_config");
    let w0 = Seq::<char>::empty();
    let r0: Seq<char> = seq!['e', 'l', 'o', 'a', 'd'];
    a_word_is_set_off(w0, 'R', 'r', r0);
    let w1 = w0.push('R') + r0;
    let r1: Seq<char> = seq!['o', 'n', 'f', 'i', 'g'];
    a_word_is_set_off(w1, 'C', 'c', r1);
    assert(w1.push('C') + r1 =~= "ReloadConfig"@);
    assert(snake(w1.push('C') + r1) =~= "reload_config"@);
}

proof fn name_next_workspace()
    ensures
        snake("NextWorkspace"@) == "next_workspace"@,
{
    reveal_strlit("NextWorkspace");
    reveal_strlit("next_workspace");
    let w0 = Seq::<char>::empty();
    let r0: Seq<char> = seq!['e', 'x', 't'];
    a_word_is_set_off(w0, 'N', 'n', r0);
    let w1 = w0.push('N') + r0;
    let r1: Seq<char> = seq!['o', 'r', 'k', 's', 'p', 'a', 'c', 'e'];
    a_word_is_set_off(w1, 'W', 'w', r1);
    assert(w1.push('W') + r1 =~= "NextWorkspace"@);
    assert(snake(w1.push('W') + r1) =~= "next_workspace"@);
}

proof fn name_prev_workspace()
    ensures
        snake("PrevWorkspace"@) == "prev_workspace"@,
{
    reveal_strlit("PrevWorkspace");
    reveal_strlit("prev_workspace");
    let w0 = Seq::<char>::empty();
    let r0: Seq<char> = seq!['r', 'e', 'v'];
    a_word_is_set_off(w0, 'P', 'p', r0);
    let w1 = w0.push('P') + r0;
    let r1: Seq<char> = seq!['o', 'r', 'k', 's', 'p', 'a', 'c', 'e'];
    a_word_is_set_off(w1, 'W', 'w', r1);
    assert(w1.push('W') + r1 =~= "PrevWorkspace"@);
    assert(snake(w1.push('W') + r1) =~= "prev_workspace"@);
}

proof fn name_switch_to_workspace()
    ensures
        snake("SwitchToWorkspace"@) == "switch_to_workspace"@,
{
    reveal_strlit("SwitchToWorkspace");
    reveal_strlit("switch_to_workspace");
    let w0 = Seq::<char>::empty();
    let r0: Seq<char> = seq!['w', 'i', 't', 'c', 'h'];
    a_word_is_set_off(w0, 'S', 's', r0);
    let w1 = w0.push('S') + r0;
    let r1: Seq<char> = seq!['o'];
    a_word_is_set_off(w1, 'T', 't', r1);
    let w2 = w1.push('T') + r1;
    let r2: Seq<char> = seq!['o', 'r', 'k', 's', 'p', 'a', 'c', 'e'];
    a_word_is_set_off(w2, 'W', 'w', r2);
    assert(w2.push('W') + r2 =~= "SwitchToWorkspace"@);
    assert(snake(w2.push('W') + r2) =~= "switch_to_workspace"@);
}

proof fn name_move_window_to_workspace()
    ensures
        snake("MoveWindowToWorkspace"@) == "move_window_to_workspace"@,
{
    reveal_strlit("MoveWindowToWorkspace");
    reveal_strlit("move_window_to_workspace");
    let w0 = Seq::<char>::empty();
    let r0: Seq<char> = seq!['o', 'v', 'e'];
    a_word_is_set_off(w0, 'M', 'm', r0);
    let w1 = w0.push('M') + r0;
    let r1: Seq<char> = seq!['i', 'n', 'd', 'o', 'w'];
    a_word_is_set_off(w1, 'W', 'w', r1);
    let w2 = w1.push('W') + r1;
    let r2: Seq<char> = seq!['o'];
    a_word_is_set_off(w2, 'T', 't', r2);
    let w3 = w2.push('T') + r2;
    let r3: Seq<char> = seq!['o', 'r', 'k', 's', 'p', 'a', 'c', 'e'];
    a_word_is_set_off(w3, 'W', 'w', r3);
    assert(w3.push('W') + r3 =~= "MoveWindowToWorkspace"@);
    assert(snake(w3.push('W') + r3) =~= "move_window_to_workspace"@);
}

proof fn name_create_workspace()
    ensures
        snake("CreateWorkspace"@) == "create_workspace"@,
{
    reveal_strlit("CreateWorkspace");
    reveal_strlit("create_workspace");
    let w0 = Seq::<char>::empty();
    let r0: Seq<char> = seq!['r', 'e', 'a', 't', 'e'];
    a_word_is_set_off(w0, 'C', 'c', r0);
    let w1 = w0.push('C') + r0;
    let r1: Seq<char> = seq!['o', 'r', 'k', 's', 'p', 'a', 'c', 'e'];
    a_word_is_set_off(w1, 'W', 'w', r1);
    assert(w1.push('W') + r1 =~= "CreateWorkspace"@);
    assert(snake(w1.push('W') + r1) =~= "create_workspace"@);
}

proof fn name_switch_to_last_workspace()
    ensures
        snake("SwitchToLastWorkspace"@) == "switch_to_last_workspace"@,
{
    reveal_strlit("SwitchToLastWorkspace");
    reveal_strlit("switch_to_last_workspace");
    let w0 = Seq::<char>::empty();
    let r0: Seq<char> = seq!['w', 'i', 't', 'c', 'h'];
    a_word_is_set_off(w0, 'S', 's', r0);
    let w1 = w0.push('S') + r0;
    let r1: Seq<char> = seq!['o'];
    a_word_is_set_off(w1, 'T', 't', r1);
    let w2 = w1.push('T') + r1;
    let r2: Seq<char> = seq!['a', 's', 't'];
    a_word_is_set_off(w2, 'L', 'l', r2);
    let w3 = w2.push('L') + r2;
    let r3: Seq<char> = seq!['o', 'r', 'k', 's', 'p', 'a', 'c', 'e'];
    a_word_is_set_off(w3, 'W', 'w', r3);
    assert(w3.push('W') + r3 =~= "SwitchToLastWorkspace"@);
    assert(snake(w3.push('W') + r3) =~= "switch_to_last_workspace"@);
}

proof fn name_close_window()
    ensures
        snake("CloseWindow"@) == "close_window"@,
{
    reveal_strlit("CloseWindow");
    reveal_strlit("close_window");
    let w0 = Seq::<char>::empty();
    let r0: Seq<char> = seq!['l', 'o', 's', 'e'];
    a_word_is_set_off(w0, 'C', 'c', r0);
    let w1 = w0.push('C') + r0;
    let r1: Seq<char> = seq!['i', 'n', 'd', 'o', 'w'];
    a_word_is_set_off(w1, 'W', 'w', r1);
    assert(w1.push('W') + r1 =~= "CloseWindow"@);
    assert(snake(w1.push('W') + r1) =~= "close_window"@);
}

proof fn name_cycle_app_windows()
    ensures
        snake("CycleAppWindows"@) == "cycle_app_windows"@,
{
    reveal_strlit("CycleAppWindows");
    reveal_strlit("cycle_app_windows");
    let w0 = Seq::<char>::empty();
    let r0: Seq<char> = seq!['y', 'c', 'l', 'e'];
    a_word_is_set_off(w0, 'C', 'c', r0);
    let w1 = w0.push('C') + r0;
    let r1: Seq<char> = seq!['p', 'p'];
    a_word_is_set_off(w1, 'A', 'a', r1);
    let w2 = w1.push('A') + r1;
    let r2: Seq<char> = seq!['i', 'n', 'd', 'o', 'w', 's'];
    a_word_is_set_off(w2, 'W', 'w', r2);
    assert(w2.push('W') + r2 =~= "CycleAppWindows"@);
    assert(snake(w2.push('W') + r2) =~= "cycle_app_windows"@);
}

proof fn name_cycle_app_windows_backward()
    ensures
        snake("CycleAppWindowsBackward"@) == "cycle_app_windows_backward"@,
{
    reveal_strlit("CycleAppWindowsBackward");
    reveal_strlit("cycle_app_windows_backward");
    let w0 = Seq::<char>::empty();
    let r0: Seq<char> = seq!['y', 'c', 'l', 'e'];
    a_word_is_set_off(w0, 'C', 'c', r0);
    let w1 = w0.push('C') + r0;
    let r1: Seq<char> = seq!['p', 'p'];
    a_word_is_set_off(w1, 'A', 'a', r1);
    let w2 = w1.push('A') + r1;
    let r2: Seq<char> = seq!['i', 'n', 'd', 'o', 'w', 's'];
    a_word_is_set_off(w2, 'W', 'w', r2);
    let w3 = w2.push('W') + r2;
    let r3: Seq<char> = seq!['a', 'c', 'k', 'w', 'a', 'r', 'd'];
    a_word_is_set_off(w3, 'B', 'b', r3);
    assert(w3.push('B') + r3 =~= "CycleAppWindowsBackward"@);
    assert(snake(w3.push('B') + r3) =~= "cycle_app_windows_backward"@);
}

/// A bare word names a command of the window manager unless that command takes something with it.
pub proof fn a_command_that_takes_nothing_is_a_bare_word(i: int)
    requires
        0 <= i < builtin_names().len(),
        i != 1 && i != 5 && i != 6,
    ensures
        bare_command(builtin_names()[i]),
{
    the_commands_are_written_in_small_words();
    assert(bare_names()[0] == builtin_names()[0] || i != 0);
    assert(bare_names()[1] == builtin_names()[2] || i != 2);
    assert(bare_names()[2] == builtin_names()[3] || i != 3);
    assert(bare_names()[3] == builtin_names()[4] || i != 4);
    assert(bare_names()[4] == builtin_names()[7] || i != 7);
    assert(bare_names()[5] == builtin_names()[8] || i != 8);
    assert(bare_names()[6] == builtin_names()[9] || i != 9);
    assert(bare_names()[7] == builtin_names()[10] || i != 10);
    assert(bare_names()[8] == builtin_names()[11] || i != 11);
}

/// A command line is run as the words between its single spaces, and a list as it stands.
pub proof fn a_command_line_is_its_words(line: String, list: Vec<String>, i: int)
    ensures
        crate::text::joined((ExecCmd::String(line)).words(), seq![' ']) == line@,
        0 <= i < (ExecCmd::String(line)).words().len() ==> !(ExecCmd::String(line)).words()[i].contains(
            ' ',
        ),
        (ExecCmd::Array(list)).words().len() == list@.len(),
        0 <= i < list@.len() ==> (ExecCmd::Array(list)).words()[i] == list@[i]@,
{
    crate::text::joining_undoes_splitting(line@, ' ');
}

/// The bare words that name a command: those of the window manager, the layout, the metrics and the
/// reactor, and no others.
pub proof fn these_are_the_bare_words(word: Seq<char>)
    ensures
        bare_command(word) <==> {
            ||| word == "toggle_space_activated"@
            ||| word == "reload_config"@
            ||| word == "next_workspace"@
            ||| word == "prev_workspace"@
            ||| word == "create_workspace"@
            ||| word == "switch_to_last_workspace"@
            ||| word == "close_window"@
            ||| word == "cycle_app_windows"@
            ||| word == "cycle_app_windows_backward"@
            ||| word == "next_window"@
            ||| word == "prev_window"@
            ||| word == "toggle_stack"@
            ||| word == "unjoin_windows"@
            ||| word == "toggle_focus_floating"@
            ||| word == "toggle_window_floating"@
            ||| word == "toggle_fullscreen_within_gaps"@
            ||| word == "snap_strip"@
            ||| word == "cycle_preset_column_width"@
            ||| word == "center_selection"@
            ||| word == "show_timing"@
            ||| word == "debug"@
            ||| word == "debug_warm_snapshots"@
            ||| word == "serialize"@
            ||| word == "save_and_exit"@
            ||| word == "redistribute_windows"@
        },
{
    let names = bare_names();
    if bare_command(word) {
        let i = choose|i: int| 0 <= i < names.len() && names[i] == word;
        assert(names[i] == word);
    }
    assert(names[0] == "toggle_space_activated"@);
    assert(names[1] == "reload_config"@);
    assert(names[2] == "next_workspace"@);
    assert(names[3] == "prev_workspace"@);
    assert(names[4] == "create_workspace"@);
    assert(names[5] == "switch_to_last_workspace"@);
    assert(names[6] == "close_window"@);
    assert(names[7] == "cycle_app_windows"@);
    assert(names[8] == "cycle_app_windows_backward"@);
    assert(names[9] == "next_window"@);
    assert(names[10] == "prev_window"@);
    assert(names[11] == "toggle_stack"@);
    assert(names[12] == "unjoin_windows"@);
    assert(names[13] == "toggle_focus_floating"@);
    assert(names[14] == "toggle_window_floating"@);
    assert(names[15] == "toggle_fullscreen_within_gaps"@);
    assert(names[16] == "snap_strip"@);
    assert(names[17] == "cycle_preset_column_width"@);
    assert(names[18] == "center_selection"@);
    assert(names[19] == "show_timing"@);
    assert(names[20] == "debug"@);
    assert(names[21] == "debug_warm_snapshots"@);
    assert(names[22] == "serialize"@);
    assert(names[23] == "save_and_exit"@);
    assert(names[24] == "redistribute_windows"@);
}

/// The candidates for a misspelt binding are the built-in commands as a configuration writes them, and
/// a command line is run as its words.
pub proof fn the_candidates_are_the_builtin_commands(
    candidates: Vec<String>,
    command: ExecCmd,
    argv: Vec<String>,
)
    requires
        call_ensures(WmCommand::<u64, u64>::builtin_candidates, (), candidates),
        call_ensures(ExecCmd::as_array, (&command,), argv),
    ensures
        candidates@.len() == 12,
        candidates@[0]@ == "toggle_space_activated"@,
        candidates@[11]@ == "cycle_app_windows_backward"@,
        forall|i: int| 0 <= i < 12 ==> (#[trigger] candidates@[i])@ == builtin_names()[i],
        command matches ExecCmd::String(line) ==> crate::text::joined(texts(argv@), seq![' '])
            == line@,
        command matches ExecCmd::Array(list) ==> texts(argv@) == texts(list@),
{
    the_commands_are_written_in_small_words();
    assert(texts(candidates@).len() == candidates@.len());
    assert forall|i: int| 0 <= i < 12 implies (#[trigger] candidates@[i])@
        == builtin_names()[i] by {
        assert(texts(candidates@)[i] == candidates@[i]@);
    }
    if let ExecCmd::String(line) = command {
        crate::text::joining_undoes_splitting(line@, ' ');
    }
}

} // verus!
