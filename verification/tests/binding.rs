//! What a key binding can name.
use rini::binding::{is_bare_command, snake_case, ExecCmd, WmCmd, WmCommand};

#[test]
fn every_builtin_candidate_is_the_name_the_config_accepts() {
    let candidates = WmCommand::<(), ()>::builtin_candidates();
    assert_eq!(candidates.len(), WmCmd::snake_case_variants().len());
    assert_eq!(candidates.len(), 12);
    for name in &candidates {
        assert!(
            name.chars().all(|c| c.is_ascii_lowercase() || c == '_'),
            "{name} is not snake_case"
        );
        let with_payload =
            ["exec", "switch_to_workspace", "move_window_to_workspace"].contains(&name.as_str());
        let parses = is_bare_command(name) || with_payload;
        assert!(parses, "{name} is suggested but the config does not accept it");
    }
    assert!(candidates.iter().any(|c| c == "cycle_app_windows_backward"));
}

#[test]
fn a_bare_string_that_is_not_a_wm_command_falls_through_to_the_reactor_commands() {
    assert!(is_bare_command("next_window"));
    assert!(!WmCommand::<(), ()>::builtin_candidates().iter().any(|c| c == "next_window"));
    assert!(!is_bare_command("no_such_command"));
}

#[test]
fn exec_string_form_splits_on_spaces_without_quote_handling() {
    let cmd = ExecCmd::String("open -a 'My App'".to_string());
    assert_eq!(cmd.as_array(), ["open", "-a", "'My", "App'"]);
    let cmd = ExecCmd::Array(vec!["open".to_string(), "-a".to_string(), "My App".to_string()]);
    assert_eq!(cmd.as_array(), ["open", "-a", "My App"]);
}

#[test]
fn spaces_next_to_each_other_leave_an_empty_word() {
    assert_eq!(ExecCmd::String("a  b".to_string()).as_array(), ["a", "", "b"]);
    assert_eq!(ExecCmd::String(String::new()).as_array(), [""]);
}

#[test]
fn a_variant_is_named_in_snake_case() {
    assert_eq!(snake_case("CycleAppWindowsBackward"), "cycle_app_windows_backward");
    assert_eq!(snake_case("Exec"), "exec");
}
