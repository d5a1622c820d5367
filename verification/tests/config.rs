//! Reading the configuration: old bindings, misspelt ones, and what is said of them.
use rini::config::{
    check_hotkeys, error_text, explain_parse_error, first_unbindable_command, input_settings,
    legacy_resize_bindings, migrate_legacy_resize_bindings, misspelt, no, restored_key_specs, settings_issues, yes,
    ScrollGestureSettings,
};
use serde::de::Error;
use serde::{Deserialize, Deserializer};
use std::collections::BTreeMap;
use rini::suggest::{extract_unknown_variant, levenshtein, nearest, suggest_similar_command};

#[test]
fn resize_command_config_supports_legacy_and_oriented_forms() {
    let migrations = legacy_resize_bindings(
        r#"
        [keys]
        legacy = "resize_window_grow"
        vertical = { resize_window_shrink = "vertical" }
        smart = { resize_window_grow = "smart" }
        "#,
    )
    .unwrap();
    assert_eq!(migrations.len(), 1);
    assert_eq!(migrations[0].key, "legacy");
    assert_eq!(migrations[0].command, "resize_window_grow");
    assert_eq!(migrations[0].orientation, "horizontal");
}

#[test]
fn only_a_document_with_keys_has_old_bindings() {
    assert!(legacy_resize_bindings("[keys]\n").unwrap().is_empty());
    assert!(legacy_resize_bindings("[settings]\n").is_none());
    assert!(legacy_resize_bindings("keys = 3\n").is_none());
    assert!(legacy_resize_bindings("not = = toml").is_none());
}

#[test]
fn serde_without_key_specs_reconstructs_from_keys() {
    let from_keys = vec!["Alt + H".to_string(), "Alt + L".to_string()];
    assert_eq!(restored_key_specs(Vec::new(), from_keys.clone()), from_keys);
    let specs = vec!["Alt + J".to_string()];
    assert_eq!(restored_key_specs(specs.clone(), from_keys), specs);
    assert!(restored_key_specs(Vec::<String>::new(), Vec::new()).is_empty());
}

#[test]
fn test_levenshtein_suggests() {
    let err = "unknown variant `toggle_stak`, expected one of `toggle_stack`, `unjoin_windows`";
    let token = extract_unknown_variant(err).unwrap();
    assert_eq!(token, "toggle_stak||toggle_stack,unjoin_windows");
    let suggestion = suggest_similar_command(&token);
    assert_eq!(suggestion.as_deref(), Some("toggle_stack"));
}

/// A table of settings that knows `animate` and nothing else.
struct Settings;

impl<'de> Deserialize<'de> for Settings {
    fn deserialize<D: Deserializer<'de>>(deserializer: D) -> Result<Self, D::Error> {
        let table = BTreeMap::<String, toml::Value>::deserialize(deserializer)?;
        match table.keys().find(|key| *key != "animate") {
            Some(key) => Err(D::Error::unknown_field(key, &["animate"])),
            None => Ok(Settings),
        }
    }
}

#[test]
fn an_unknown_key_in_the_file_is_an_error_with_the_key_named() {
    let document = "[settings]\nno_such_key = 1\n[keys]\n";
    let read = toml::from_str::<BTreeMap<String, Settings>>(document);
    let message = read.err().unwrap().to_string();
    assert_eq!(extract_unknown_variant(&message).as_deref(), Some("no_such_key"));
    let err = explain_parse_error(&message, document);
    assert!(err.starts_with(&message), "{err}");
    assert!(err.contains("no_such_key"), "{err}");
}

#[test]
fn a_misspelt_command_gets_a_suggestion() {
    let err = explain_parse_error(
        "data did not match any variant of untagged enum WmCommand",
        "[settings]\n[keys]\n\"Alt + Z\" = \"toggle_space_activate\"\n",
    );
    assert!(err.contains("Did you mean `toggle_space_activated`"), "{err}");
}

#[test]
fn input_settings_are_assembled_from_both_the_input_and_the_tiling_tables() {
    let scrolling = ScrollGestureSettings {
        enabled: true,
        invert_horizontal: false,
        vertical_tolerance: 0,
        fingers: 2,
        distance_pct: 200,
    };
    let input = input_settings(false, false, None::<String>, (true, 4), &scrolling);
    assert!(!input.focus_follows_mouse);
    assert!(!input.mouse_hides_on_focus);
    assert!(input.gestures.0);
    assert_eq!(input.gestures.1, 4);
    assert!(input.strip_scroll.enabled);
    assert_eq!(input.strip_scroll.fingers, 2);
    assert_eq!(input.strip_scroll.distance_pct, 200);
}

#[test]
fn a_negative_duration_is_the_first_issue() {
    let layout = vec!["layout".to_string()];
    let gestures = vec!["gestures".to_string()];
    assert_eq!(
        settings_issues(true, "-1", layout, gestures),
        ["animation_duration must be non-negative, got -1", "layout", "gestures"]
    );
    assert!(settings_issues(false, "0.35", Vec::new(), Vec::new()).is_empty());
}

#[test]
fn the_first_key_that_is_no_hotkey_is_reported_as_written() {
    let keys = vec![
        ("Alt + H".to_string(), true),
        ("comb9 + C".to_string(), false),
        ("Alt + ?".to_string(), false),
    ];
    assert_eq!(check_hotkeys(&keys), Err("Could not parse hotkey: comb9 + C".to_string()));
    assert_eq!(check_hotkeys(&vec![("Alt + H".to_string(), true)]), Ok(()));
}

#[test]
fn both_old_resize_bindings_are_found_in_order() {
    let found = legacy_resize_bindings(
        "[keys]\na = \"resize_window_shrink\"\nb = \"next_window\"\nc = \"resize_window_grow\"\n",
    )
    .unwrap();
    assert_eq!(found.iter().map(|m| m.at).collect::<Vec<_>>(), [0, 2]);
    assert_eq!(found.iter().map(|m| m.key.as_str()).collect::<Vec<_>>(), ["a", "c"]);
    assert_eq!(found[0].command, "resize_window_shrink");
    assert!(migrate_legacy_resize_bindings(&Vec::new()).is_empty());
}

#[test]
fn the_first_string_that_names_no_command_is_found() {
    let document = "[keys]\na = \"next_window\"\nb = { move_focus = \"left\" }\nc = \"nope\"\n";
    assert_eq!(first_unbindable_command(document).as_deref(), Some("nope"));
    assert_eq!(first_unbindable_command("[keys]\na = \"next_window\"\n"), None);
    assert_eq!(first_unbindable_command("[settings]\n"), None);
    assert_eq!(first_unbindable_command("not = = toml"), None);
}

#[test]
fn a_message_that_names_the_token_is_believed_first() {
    let document = "[keys]\nc = \"nope\"\n";
    assert_eq!(misspelt("unknown thing `x`", document).as_deref(), Some("x"));
    assert_eq!(misspelt("no idea", document).as_deref(), Some("nope"));
    assert_eq!(misspelt("no idea", "[keys]\n"), None);
}

#[test]
fn a_suggestion_follows_the_message() {
    assert_eq!(error_text("bad", Some("good".to_string())), "bad\nDid you mean `good`?");
    assert_eq!(error_text("bad", None), "bad");
}

#[test]
fn distances_are_counted_in_characters() {
    assert_eq!(levenshtein("kitten", "sitting"), 3);
    assert_eq!(levenshtein("", "abc"), 3);
    assert_eq!(levenshtein("abc", ""), 3);
    assert_eq!(levenshtein("same", "same"), 0);
    assert_eq!(levenshtein("naïve", "naive"), 1);
    assert_eq!(levenshtein("sitting", "kitten"), 3);
}

#[test]
fn a_suggestion_is_looked_for_without_regard_to_case() {
    assert_eq!(suggest_similar_command("EXEC").as_deref(), Some("exec"));
    assert_eq!(
        suggest_similar_command("Toggle_Stak||Toggle_Stack, unjoin").as_deref(),
        Some("Toggle_Stack")
    );
    assert_eq!(suggest_similar_command("zzzzzzzzzzzzzzzzzzzzzzzzzzzzzzzzzz"), None);
    assert_eq!(suggest_similar_command("x||, ,"), None);
}

#[test]
fn the_nearest_of_several_is_the_first_of_the_nearest() {
    let candidates = vec!["abd".to_string(), "abe".to_string()];
    assert_eq!(nearest("abc", &candidates, &candidates).as_deref(), Some("abd"));
    assert_eq!(nearest("abe", &candidates, &candidates).as_deref(), Some("abe"));
    assert_eq!(nearest("abc", &Vec::new(), &Vec::new()), None);
}

#[test]
fn tokens_are_taken_from_between_backticks() {
    assert_eq!(extract_unknown_variant("unknown variant `a`").as_deref(), Some("a"));
    assert_eq!(
        extract_unknown_variant("unknown variant `a`, expected `b` or `b` or `a`").as_deref(),
        Some("a||b")
    );
    assert_eq!(extract_unknown_variant("unknown field `f`, expected `g`").as_deref(), Some("f"));
    assert_eq!(extract_unknown_variant("unknown variant `a"), None);
    assert_eq!(extract_unknown_variant("`a` is fine"), None);
}

#[test]
fn defaults_are_what_they_say() {
    assert!(yes() && !no());
}
