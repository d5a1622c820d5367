//! The configuration file: which bindings are old, and which name nothing.
use vstd::prelude::*;

use crate::binding::{bare_command, is_bare_command};
use crate::suggest::{extract_unknown_variant, meant, suggest_similar_command, unknown_token};
use crate::text::{maybe_text, same_text, texts};

verus! {

/// The entries of the table `table` at the top of the TOML document `document`: every key with its
/// value where that is a string. `None` when the text is no TOML document or has no such table.
pub uninterp spec fn document_entries(document: Seq<char>, table: Seq<char>) -> Option<
    Seq<(Seq<char>, Option<Seq<char>>)>,
>;

/// `toml::from_str` into a `toml::Value`, then the named table's entries by `Value::get`,
/// `Value::as_table` and `Value::as_str`, in the table's own order. [`document_entries`] names what
/// the document holds; the grammar of TOML is not stated.
#[verifier::external_body]
pub(crate) fn toml_entries(document: &str, table: &str) -> (r: Option<
    Vec<(String, Option<String>)>,
>)
    ensures
        r is Some <==> document_entries(document@, table@) is Some,
        r matches Some(entries) ==> entry_views(entries@) == document_entries(
            document@,
            table@,
        )->0,
{
    let value: toml::Value = toml::from_str(document).ok()?;
    let entries = value.get(table)?.as_table()?;
    let plain = entries.iter().map(|(key, item)| (key.clone(), item.as_str().map(str::to_owned)));
    Some(plain.collect())
}

/// The contents of a table's entries.
pub open spec fn entry_views(entries: Seq<(String, Option<String>)>) -> Seq<
    (Seq<char>, Option<Seq<char>>),
> {
    entries.map_values(|e: (String, Option<String>)| (e.0@, maybe_text(e.1)))
}

/// A default that is on.
pub fn yes() -> (r: bool)
    ensures
        r,
{
    true
}

/// A default that is off.
pub fn no() -> (r: bool)
    ensures
        !r,
{
    false
}

/// The binding is written in the old form, without an orientation.
pub open spec fn legacy_resize(command: Option<Seq<char>>) -> bool {
    command matches Some(name) && (name == "resize_window_grow"@ || name
        == "resize_window_shrink"@)
}

/// One binding to rewrite: the key and its place in the table, and the command that takes
/// "horizontal".
pub struct Migration {
    pub at: usize,
    pub key: String,
    pub command: String,
    pub orientation: String,
}

/// The bindings in the old form, in order: each one's place, key and command.
pub open spec fn legacy_places(entries: Seq<(Seq<char>, Option<Seq<char>>)>) -> Seq<
    (int, Seq<char>, Seq<char>),
>
    decreases entries.len(),
{
    if entries.len() == 0 {
        Seq::empty()
    } else {
        let before = legacy_places(entries.drop_last());
        if legacy_resize(entries.last().1) {
            before.push((entries.len() - 1, entries.last().0, entries.last().1->0))
        } else {
            before
        }
    }
}

/// The contents of a list of migrations.
pub open spec fn migration_views(migrations: Seq<Migration>) -> Seq<(int, Seq<char>, Seq<char>)> {
    migrations.map_values(|m: Migration| (m.at as int, m.key@, m.command@))
}

/// Finds the resize bindings in the old form, which resized horizontally: each becomes its own
/// command with that orientation.
pub fn migrate_legacy_resize_bindings(entries: &Vec<(String, Option<String>)>) -> (r: Vec<
    Migration,
>)
    ensures
        migration_views(r@) == legacy_places(entry_views(entries@)),
        forall|i: int| 0 <= i < r.len() ==> (#[trigger] r[i]).orientation@ == "horizontal"@,
{
    let mut out: Vec<Migration> = Vec::new();
    let mut i: usize = 0;
    assert(entry_views(entries@.take(0)) =~= Seq::empty());
    assert(migration_views(out@) =~= Seq::empty());
    while i < entries.len()
        invariant
            i <= entries.len(),
            migration_views(out@) == legacy_places(entry_views(entries@.take(i as int))),
            forall|j: int|
                0 <= j < out.len() ==> (#[trigger] out[j]).orientation@ == "horizontal"@,
        decreases entries.len() - i,
    {
        let ghost now = entry_views(entries@.take(i + 1));
        proof {
            assert(now.drop_last() =~= entry_views(entries@.take(i as int)));
            assert(now.last() == (entries[i as int].0@, maybe_text(entries[i as int].1)));
            assert(now.len() == i + 1);
        }
        if let Some(command) = &entries[i].1 {
            if same_text(command.as_str(), "resize_window_grow") || same_text(
                command.as_str(),
                "resize_window_shrink",
            ) {
                let ghost before = out@;
                out.push(
                    Migration {
                        at: i,
                        key: entries[i].0.clone(),
                        command: command.clone(),
                        orientation: "horizontal".to_owned(),
                    },
                );
                assert(migration_views(out@) =~= migration_views(before).push(
                    (i as int, entries[i as int].0@, entries[i as int].1->0@),
                ));
            }
        }
        i += 1;
    }
    assert(entries@.take(entries@.len() as int) =~= entries@);
    out
}

/// The resize bindings in the old form among the `keys` of a configuration. `None` when the text is
/// no TOML document or has no such table.
pub fn legacy_resize_bindings(document: &str) -> (r: Option<Vec<Migration>>)
    ensures
        r is Some <==> document_entries(document@, "keys"@) is Some,
        r matches Some(found) ==> migration_views(found@) == legacy_places(
            document_entries(document@, "keys"@)->0,
        ) && forall|i: int|
            0 <= i < found.len() ==> (#[trigger] found[i]).orientation@ == "horizontal"@,
{
    match toml_entries(document, "keys") {
        Some(entries) => Some(migrate_legacy_resize_bindings(&entries)),
        None => None,
    }
}

/// The entry at `i` is the first string in the table that names no command.
pub open spec fn first_unbindable(
    entries: Seq<(Seq<char>, Option<Seq<char>>)>,
    i: int,
) -> bool {
    &&& 0 <= i < entries.len()
    &&& entries[i].1 is Some && !bare_command(entries[i].1->0)
    &&& forall|j: int|
        0 <= j < i ==> ((#[trigger] entries[j]).1 is Some ==> bare_command(entries[j].1->0))
}

/// The first string in a table that names no command, if there is one.
pub open spec fn unbindable(entries: Seq<(Seq<char>, Option<Seq<char>>)>) -> Option<Seq<char>> {
    if exists|i: int| first_unbindable(entries, i) {
        entries[choose|i: int| first_unbindable(entries, i)].1
    } else {
        None
    }
}

/// The first string among the entries of a table that names no command.
pub fn first_unbindable_among(entries: &Vec<(String, Option<String>)>) -> (r: Option<String>)
    ensures
        maybe_text(r) == unbindable(entry_views(entries@)),
{
    let ghost views = entry_views(entries@);
    let mut i: usize = 0;
    while i < entries.len()
        invariant
            i <= entries.len(),
            views == entry_views(entries@),
            forall|j: int|
                0 <= j < i ==> ((#[trigger] views[j]).1 is Some ==> bare_command(views[j].1->0)),
        decreases entries.len() - i,
    {
        assert(views[i as int] == (entries[i as int].0@, maybe_text(entries[i as int].1)));
        if let Some(command) = &entries[i].1 {
            if !is_bare_command(command.as_str()) {
                proof {
                    assert(first_unbindable(views, i as int));
                    let c = choose|c: int| first_unbindable(views, c);
                    assert(first_unbindable(views, c));
                    if c < i {
                        assert(views[c].1 is Some);
                    } else if (i as int) < c {
                        assert(views[i as int].1 is Some);
                    }
                }
                return Some(command.clone());
            }
        }
        i += 1;
    }
    proof {
        if exists|c: int| first_unbindable(views, c) {
            let c = choose|c: int| first_unbindable(views, c);
            assert(views[c].1 is Some);
        }
    }
    None
}

/// A binding may be one of several kinds of command, so a misspelt one is reported without its name.
/// Finds the offending string among the `keys` of a configuration, so that it can be suggested for.
pub fn first_unbindable_command(document: &str) -> (r: Option<String>)
    ensures
        maybe_text(r) == (match document_entries(document@, "keys"@) {
            Some(entries) => unbindable(entries),
            None => None,
        }),
{
    match toml_entries(document, "keys") {
        Some(entries) => first_unbindable_among(&entries),
        None => None,
    }
}

/// The misspelt text of an error: the one the message names, else the first binding of the document
/// that names nothing.
pub open spec fn misspelt_in(message: Seq<char>, document: Seq<char>) -> Option<Seq<char>> {
    match unknown_token(message) {
        Some(token) => Some(token),
        None => match document_entries(document, "keys"@) {
            Some(entries) => unbindable(entries),
            None => None,
        },
    }
}

/// The misspelt text behind an error, if one can be found.
pub fn misspelt(message: &str, document: &str) -> (r: Option<String>)
    ensures
        maybe_text(r) == misspelt_in(message@, document@),
{
    match extract_unknown_variant(message) {
        Some(token) => Some(token),
        None => first_unbindable_command(document),
    }
}

/// The text shown for a configuration that does not parse: the message, and the command that was
/// probably meant where there is one.
pub open spec fn report_text(message: Seq<char>, suggestion: Option<Seq<char>>) -> Seq<char> {
    match suggestion {
        Some(command) => message + "\nDid you mean `"@ + command + "`?"@,
        None => message,
    }
}

/// The text shown for a configuration that does not parse.
pub fn error_text(message: &str, suggestion: Option<String>) -> (r: String)
    ensures
        r@ == report_text(message@, maybe_text(suggestion)),
{
    let mut out: String = String::new();
    out.append(message);
    if let Some(command) = suggestion {
        out.append("\nDid you mean `");
        out.append(command.as_str());
        out.append("`?");
    }
    assert(out@ =~= report_text(message@, maybe_text(suggestion)));
    out
}

/// What a configuration that does not parse is reported with: the message, with the command that was
/// probably meant where one is near enough to what was misspelt.
pub fn explain_parse_error(message: &str, document: &str) -> (r: String)
    ensures
        r@ == report_text(
            message@,
            match misspelt_in(message@, document@) {
                Some(token) => meant(token),
                None => None,
            },
        ),
{
    let suggestion: Option<String> = match misspelt(message, document) {
        Some(token) => suggest_similar_command(token.as_str()),
        None => None,
    };
    error_text(message, suggestion)
}

/// The first key that is no hotkey: its place among the keys.
pub open spec fn first_unread(keys: Seq<(String, bool)>, at: int) -> bool {
    0 <= at < keys.len() && !keys[at].1 && forall|j: int| 0 <= j < at ==> (#[trigger] keys[j]).1
}

/// Every key was read as a hotkey.
pub open spec fn all_read(keys: Seq<(String, bool)>) -> bool {
    forall|i: int| 0 <= i < keys.len() ==> (#[trigger] keys[i]).1
}

/// Whether the keys of a configuration can all be bound, from each key as it is written and whether
/// it was read as a hotkey. The first that was not is reported, as it is written.
pub fn check_hotkeys(keys: &Vec<(String, bool)>) -> (r: Result<(), String>)
    ensures
        r is Ok <==> forall|i: int| 0 <= i < keys@.len() ==> (#[trigger] keys@[i]).1,
        r is Ok <==> all_read(keys@),
        r matches Err(message) ==> exists|at: int| #[trigger]
            first_unread(keys@, at) && message@ == "Could not parse hotkey: "@ + keys@[at].0@,
{
    let mut i: usize = 0;
    while i < keys.len()
        invariant
            i <= keys@.len(),
            forall|j: int| 0 <= j < i ==> (#[trigger] keys@[j]).1,
        decreases keys@.len() - i,
    {
        if !keys[i].1 {
            let mut message: String = "Could not parse hotkey: ".to_owned();
            message.append(keys[i].0.as_str());
            assert(first_unread(keys@, i as int));
            return Err(message);
        }
        i += 1;
    }
    Ok(())
}

/// The written form of the keys in a stored configuration. One stored without it has it from the
/// hotkeys themselves.
pub fn restored_key_specs<T>(key_specs: Vec<T>, from_keys: Vec<T>) -> (r: Vec<T>)
    ensures
        r@ == if key_specs@.len() == 0 {
            from_keys@
        } else {
            key_specs@
        },
{
    if key_specs.len() == 0 && from_keys.len() > 0 {
        from_keys
    } else {
        assert(key_specs@.len() == 0 ==> key_specs@ =~= from_keys@);
        key_specs
    }
}

/// What is wrong with the settings: the duration first, as it is written, then what the layout and
/// the gestures find wrong with theirs.
pub fn settings_issues(
    duration_is_negative: bool,
    duration: &str,
    layout: Vec<String>,
    gestures: Vec<String>,
) -> (issues: Vec<String>)
    ensures
        texts(issues@) == (if duration_is_negative {
            seq!["animation_duration must be non-negative, got "@ + duration@]
        } else {
            Seq::empty()
        }) + texts(layout@) + texts(gestures@),
{
    let mut issues: Vec<String> = Vec::new();
    let ghost first = if duration_is_negative {
        seq!["animation_duration must be non-negative, got "@ + duration@]
    } else {
        Seq::empty()
    };
    if duration_is_negative {
        let mut issue: String = "animation_duration must be non-negative, got ".to_owned();
        issue.append(duration);
        issues.push(issue);
    }
    assert(texts(issues@) =~= first);
    let mut layout = layout;
    let mut gestures = gestures;
    let ghost laid = layout@;
    let ghost gestured = gestures@;
    let ghost before = issues@;
    issues.append(&mut layout);
    assert(texts(issues@) =~= first + texts(laid)) by {
        assert(issues@ =~= before + laid);
    }
    let ghost before = issues@;
    issues.append(&mut gestures);
    assert(texts(issues@) =~= first + texts(laid) + texts(gestured)) by {
        assert(issues@ =~= before + gestured);
    }
    issues
}

/// How the strip is scrolled by gesture. Shares are in thousandths.
#[derive(Clone, Copy, Debug, PartialEq, Eq, Structural)]
pub struct ScrollGestureSettings {
    pub enabled: bool,
    pub invert_horizontal: bool,
    pub vertical_tolerance: i64,
    pub fingers: usize,
    pub distance_pct: i64,
}

/// The part of the settings that input is read by. Of the other gestures and of the hotkey nothing
/// is read here.
#[derive(Debug)]
pub struct InputSettings<G, H> {
    pub mouse_hides_on_focus: bool,
    pub focus_follows_mouse: bool,
    pub focus_follows_mouse_disable_hotkey: Option<H>,
    pub gestures: G,
    pub strip_scroll: ScrollGestureSettings,
}

/// Assembles the settings of input from the tables of input and of tiling.
pub fn input_settings<G, H>(
    mouse_hides_on_focus: bool,
    focus_follows_mouse: bool,
    focus_follows_mouse_disable_hotkey: Option<H>,
    gestures: G,
    scrolling: &ScrollGestureSettings,
) -> (r: InputSettings<G, H>)
    ensures
        r == (InputSettings {
            mouse_hides_on_focus,
            focus_follows_mouse,
            focus_follows_mouse_disable_hotkey,
            gestures,
            strip_scroll: *scrolling,
        }),
{
    InputSettings {
        mouse_hides_on_focus,
        focus_follows_mouse,
        focus_follows_mouse_disable_hotkey,
        gestures,
        strip_scroll: *scrolling,
    }
}

/// The old form is one of two words that stand alone; nothing else is old.
pub proof fn the_old_form_names_no_orientation(command: Option<Seq<char>>)
    ensures
        legacy_resize(None) == false,
        command matches Some(name) ==> (legacy_resize(command) <==> name == "resize_window_grow"@
            || name == "resize_window_shrink"@),
{
}

/// Every binding in the old form is found where it stands, under its key and with its command; nothing
/// else is, and the places come in order.
pub proof fn the_old_bindings_are_found_in_order(
    entries: Seq<(Seq<char>, Option<Seq<char>>)>,
    i: int,
    k: int,
    m: int,
)
    ensures
        0 <= i < entries.len() && legacy_resize(entries[i].1) ==> legacy_places(entries).contains(
            (i, entries[i].0, entries[i].1->0),
        ),
        0 <= k < legacy_places(entries).len() ==> {
            let found = legacy_places(entries)[k];
            &&& 0 <= found.0 < entries.len()
            &&& entries[found.0].0 == found.1
            &&& entries[found.0].1 == Some(found.2)
            &&& found.2 == "resize_window_grow"@ || found.2 == "resize_window_shrink"@
        },
        0 <= k < m < legacy_places(entries).len() ==> legacy_places(entries)[k].0 < legacy_places(
            entries,
        )[m].0,
    decreases entries.len(),
{
    if entries.len() > 0 {
        let rest = entries.drop_last();
        the_old_bindings_are_found_in_order(rest, i, k, m);
        the_old_bindings_are_found_in_order(rest, i, k, k);
        let before = legacy_places(rest);
        let all = legacy_places(entries);
        if 0 <= i < rest.len() && legacy_resize(entries[i].1) {
            assert(rest[i] == entries[i]);
            let p = choose|p: int|
                0 <= p < before.len() && before[p] == (i, entries[i].0, entries[i].1->0);
            assert(all[p] == before[p]);
        } else if i == rest.len() && legacy_resize(entries[i].1) {
            assert(all[before.len() as int] == (i, entries[i].0, entries[i].1->0));
        }
        if 0 <= k < before.len() {
            assert(all[k] == before[k]);
            assert(rest[before[k].0] == entries[before[k].0]);
            if k < m < all.len() && m == before.len() {
                assert(all[m].0 == entries.len() - 1);
            }
        }
    }
}

/// What is misspelt among a table's strings is the first that names no command; where every string
/// names one, nothing is.
pub proof fn the_first_string_that_names_nothing_is_misspelt(
    entries: Seq<(Seq<char>, Option<Seq<char>>)>,
    i: int,
)
    ensures
        (forall|j: int|
            0 <= j < entries.len() && (#[trigger] entries[j]).1 is Some ==> bare_command(
                entries[j].1->0,
            )) ==> unbindable(entries) is None,
        0 <= i < entries.len() && entries[i].1 is Some && !bare_command(entries[i].1->0) && (forall|
            j: int,
        |
            0 <= j < i && (#[trigger] entries[j]).1 is Some ==> bare_command(entries[j].1->0))
            ==> unbindable(entries) == entries[i].1,
{
    if 0 <= i < entries.len() && entries[i].1 is Some && !bare_command(entries[i].1->0) && (forall|
        j: int,
    |
        0 <= j < i && (#[trigger] entries[j]).1 is Some ==> bare_command(entries[j].1->0)) {
        assert(first_unbindable(entries, i));
        let c = choose|c: int| first_unbindable(entries, c);
        assert(first_unbindable(entries, c));
        if c < i {
            assert(entries[c].1 is Some);
        } else if i < c {
            assert(entries[i].1 is Some);
        }
    }
    if forall|j: int|
        0 <= j < entries.len() && (#[trigger] entries[j]).1 is Some ==> bare_command(
            entries[j].1->0,
        ) {
        if exists|c: int| first_unbindable(entries, c) {
            let c = choose|c: int| first_unbindable(entries, c);
            assert(entries[c].1 is Some);
        }
    }
}

/// The token a message names is believed before the document is looked at, and the document before
/// nothing.
pub proof fn a_named_token_is_believed_first(message: Seq<char>, document: Seq<char>)
    ensures
        unknown_token(message) is Some ==> misspelt_in(message, document) == unknown_token(message),
        unknown_token(message) is None && document_entries(document, "keys"@) is None
            ==> misspelt_in(message, document) is None,
        unknown_token(message) is None && document_entries(document, "keys"@) is Some
            ==> misspelt_in(message, document) == unbindable(
            document_entries(document, "keys"@)->0,
        ),
{
}

/// A report begins with the whole message; a suggestion follows on a line of its own, between
/// backticks, and nothing follows without one.
pub proof fn a_report_begins_with_the_message(message: Seq<char>, command: Seq<char>)
    ensures
        report_text(message, None) == message,
        ({
            let report = report_text(message, Some(command));
            let n = message.len() as int;
            &&& report.len() == n + command.len() + 17
            &&& report.take(n) == message
            &&& report[n] == '\n'
            &&& report.subrange(n, n + 15) == "\nDid you mean `"@
            &&& report.subrange(n + 15, n + 15 + command.len()) == command
            &&& report.skip(n + 15 + command.len()) == "`?"@
        }),
{
    reveal_strlit("\nDid you mean `");
    reveal_strlit("`?");
    assert("\nDid you mean `"@.len() == 15);
    assert("`?"@.len() == 2);
    let report = report_text(message, Some(command));
    let n = message.len() as int;
    assert(report.take(n) =~= message);
    assert(report.subrange(n, n + 15) =~= "\nDid you mean `"@);
    assert(report.subrange(n + 15, n + 15 + command.len()) =~= command);
    assert(report.skip(n + 15 + command.len()) =~= "`?"@);
    assert("\nDid you mean `"@[0] == '\n');
}

/// All keys can be bound or the first that cannot is named, as it is written.
pub proof fn the_first_key_that_is_no_hotkey_is_named(
    keys: Vec<(String, bool)>,
    result: Result<(), String>,
    i: int,
)
    requires
        call_ensures(check_hotkeys, (&keys,), result),
        0 <= i < keys@.len(),
        !keys@[i].1,
        forall|j: int| 0 <= j < i ==> (#[trigger] keys@[j]).1,
    ensures
        result is Err,
        result matches Err(message) && message@ == "Could not parse hotkey: "@ + keys@[i].0@,
{
    assert(!keys@[i].1);
    assert(!all_read(keys@));
    if let Err(message) = result {
        let at = choose|at: int| #[trigger]
            first_unread(keys@, at) && message@ == "Could not parse hotkey: "@ + keys@[at].0@;
        if at < i {
            assert(keys@[at].1);
        } else if i < at {
            assert(keys@[i].1);
        }
    }
}

/// The written form stored is used where there is one, and made of the hotkeys where there is none.
pub proof fn a_stored_form_is_used(key_specs: Vec<u64>, from_keys: Vec<u64>, restored: Vec<u64>)
    requires
        call_ensures(restored_key_specs::<u64>, (key_specs, from_keys), restored),
    ensures
        key_specs@.len() > 0 ==> restored@ == key_specs@,
        key_specs@.len() == 0 ==> restored@ == from_keys@,
{
}

/// What is wrong is told in order, nothing left out: a negative duration first, then what is wrong
/// with the layout, then with the gestures.
pub proof fn the_issues_are_told_in_order(
    negative: bool,
    duration: &str,
    layout: Vec<String>,
    gestures: Vec<String>,
    issues: Vec<String>,
    i: int,
)
    requires
        call_ensures(settings_issues, (negative, duration, layout, gestures), issues),
    ensures
        ({
            let first = if negative {
                1int
            } else {
                0int
            };
            &&& issues@.len() == first + layout@.len() + gestures@.len()
            &&& negative ==> issues@[0]@ == "animation_duration must be non-negative, got "@
                + duration@
            &&& 0 <= i < layout@.len() ==> issues@[first + i]@ == layout@[i]@
            &&& 0 <= i < gestures@.len() ==> issues@[first + layout@.len() + i]@ == gestures@[i]@
        }),
{
    let first = if negative {
        1int
    } else {
        0int
    };
    let all = texts(issues@);
    assert(all.len() == issues@.len());
    if negative {
        assert(all[0] == issues@[0]@);
    }
    if 0 <= i < layout@.len() {
        assert(all[first + i] == issues@[first + i]@);
    }
    if 0 <= i < gestures@.len() {
        assert(all[first + layout@.len() + i] == issues@[first + layout@.len() + i]@);
    }
}

/// The settings of input are the ones given, each under its own name.
pub proof fn the_settings_of_input_are_as_given(
    hides: bool,
    follows: bool,
    hotkey: Option<u64>,
    gestures: u64,
    scrolling: ScrollGestureSettings,
    settings: InputSettings<u64, u64>,
)
    requires
        call_ensures(
            input_settings::<u64, u64>,
            (hides, follows, hotkey, gestures, &scrolling),
            settings,
        ),
    ensures
        settings.mouse_hides_on_focus == hides,
        settings.focus_follows_mouse == follows,
        settings.focus_follows_mouse_disable_hotkey == hotkey,
        settings.gestures == gestures,
        settings.strip_scroll == scrolling,
{
}

/// A parse error is reported with its whole message, and with the command meant where the misspelt
/// text is found and something near it is known.
pub proof fn a_parse_error_is_reported_whole(message: &str, document: &str, report: String)
    requires
        call_ensures(explain_parse_error, (message, document), report),
    ensures
        report@.take(message@.len() as int) == message@,
        misspelt_in(message@, document@) is None ==> report@ == message@,
        misspelt_in(message@, document@) matches Some(token) ==> {
            &&& meant(token) is None ==> report@ == message@
            &&& meant(token) matches Some(command) ==> report@ == message@ + "\nDid you mean `"@
                + command + "`?"@
        },
{
    assert(report@.take(message@.len() as int) =~= message@);
}

/// A binding in the old form becomes its own command with a horizontal orientation, at its own place.
pub proof fn an_old_binding_becomes_horizontal(
    entries: Vec<(String, Option<String>)>,
    migrations: Vec<Migration>,
    i: int,
)
    requires
        call_ensures(migrate_legacy_resize_bindings, (&entries,), migrations),
        0 <= i < migrations@.len(),
    ensures
        ({
            let m = migrations@[i];
            &&& m.orientation@ == "horizontal"@
            &&& m.at < entries@.len()
            &&& m.key@ == entries@[m.at as int].0@
            &&& entries@[m.at as int].1 is Some && m.command@ == (entries@[m.at as int].1->0)@
            &&& m.command@ == "resize_window_grow"@ || m.command@ == "resize_window_shrink"@
        }),
{
    let views = entry_views(entries@);
    the_old_bindings_are_found_in_order(views, 0, i, i);
    let m = migrations@[i];
    assert(migration_views(migrations@)[i] == (m.at as int, m.key@, m.command@));
    assert(views[m.at as int] == (
        entries@[m.at as int].0@,
        maybe_text(entries@[m.at as int].1),
    ));
}

/// What a document binds in the old form is found in its table of keys, and nothing is looked for in a
/// text that has none. Of the two defaults one is on and the other off.
pub proof fn old_bindings_are_looked_for_among_the_keys(
    document: &str,
    found: Option<Vec<Migration>>,
    on: bool,
    off: bool,
    i: int,
)
    requires
        call_ensures(legacy_resize_bindings, (document,), found),
        call_ensures(yes, (), on),
        call_ensures(no, (), off),
    ensures
        on && !off,
        found is Some <==> document_entries(document@, "keys"@) is Some,
        found matches Some(list) ==> 0 <= i < document_entries(document@, "keys"@)->0.len()
            && legacy_resize((document_entries(document@, "keys"@)->0)[i].1) ==> exists|k: int|
            0 <= k < list@.len() && (#[trigger] list@[k]).at == i && list@[k].key@ == (
            document_entries(document@, "keys"@)->0)[i].0,
{
    if let Some(list) = found {
        let entries = document_entries(document@, "keys"@)->0;
        the_old_bindings_are_found_in_order(entries, i, 0, 0);
        if 0 <= i < entries.len() && legacy_resize(entries[i].1) {
            let views = migration_views(list@);
            let k = choose|k: int|
                0 <= k < views.len() && views[k] == (i, entries[i].0, entries[i].1->0);
            assert(views[k] == (list@[k].at as int, list@[k].key@, list@[k].command@));
            assert(list@[k].at == i);
        }
    }
}

} // verus!
