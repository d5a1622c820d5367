//! Events on their way to subscribers, and commands on their way to whom they are for.
use rini::protocol::commands::{
    decode_legacy_command, Addressee, AnimationEasing, Command, LegacyCommand, MetricsCommand,
    RiniCommand,
};
use rini::protocol::events::{EventKind, RiniEvent, WorkspaceId};
use rini::protocol::queries::WindowId;

fn workspace_changed(display_uuid: Option<&str>) -> RiniEvent {
    RiniEvent::WorkspaceChanged {
        space_id: 42,
        workspace_id: WorkspaceId { idx: 3, version: 1 },
        workspace_name: "main".to_string(),
        display_uuid: display_uuid.map(str::to_string),
    }
}

#[test]
fn an_event_says_its_kind_its_space_and_its_display() {
    let event = workspace_changed(Some("display"));
    assert_eq!(event.kind(), EventKind::WorkspaceChanged);
    assert_eq!(event.kind().as_str(), "workspace_changed");
    assert_eq!(event.space_id(), 42);
    assert_eq!(event.display_uuid(), Some("display"));
    assert_eq!(workspace_changed(None).display_uuid(), None);
}

#[test]
fn an_unnamed_display_is_named_once() {
    let mut event = workspace_changed(None);
    event.name_display(|| Some("left".to_string()));
    assert_eq!(event.display_uuid(), Some("left"));
    event.name_display(|| Some("right".to_string()));
    assert_eq!(event.display_uuid(), Some("left"));
    let mut unknown = workspace_changed(None);
    unknown.name_display(|| None);
    assert_eq!(unknown.display_uuid(), None);
}

#[test]
fn nobody_is_asked_for_a_display_already_named() {
    let mut event = workspace_changed(Some("here"));
    event.name_display(|| panic!("asked"));
    assert_eq!(event.display_uuid(), Some("here"));
}

#[test]
fn every_kind_of_event_keeps_the_rest_when_its_display_is_named() {
    let id = WorkspaceId { idx: 1, version: 2 };
    let window = WindowId::new(1, 5).unwrap();
    let mut events = vec![
        RiniEvent::WindowsChanged {
            workspace_id: id,
            workspace_name: "w".to_string(),
            windows: vec!["a".to_string()],
            space_id: 7,
            display_uuid: None,
        },
        RiniEvent::WindowTitleChanged {
            window_id: window,
            workspace_id: id,
            workspace_index: Some(0),
            workspace_name: "w".to_string(),
            previous_title: "p".to_string(),
            new_title: "n".to_string(),
            space_id: 7,
            display_uuid: None,
        },
        RiniEvent::FocusedWindowChanged {
            window_id: window,
            workspace_id: id,
            workspace_index: None,
            workspace_name: "w".to_string(),
            space_id: 7,
            display_uuid: None,
        },
    ];
    let kinds = [
        EventKind::WindowsChanged,
        EventKind::WindowTitleChanged,
        EventKind::FocusedWindowChanged,
    ];
    for (event, kind) in events.iter_mut().zip(kinds) {
        event.name_display(|| Some("d".to_string()));
        assert_eq!(event.kind(), kind);
        assert_eq!(event.space_id(), 7);
        assert_eq!(event.display_uuid(), Some("d"));
    }
}

#[test]
fn an_event_is_asked_for_by_its_name() {
    for kind in [
        EventKind::WorkspaceChanged,
        EventKind::WindowsChanged,
        EventKind::WindowTitleChanged,
        EventKind::FocusedWindowChanged,
        EventKind::All,
    ] {
        assert_eq!(EventKind::asked_for(Some(kind.as_str())), Some(kind));
        assert_eq!(kind.to_text(), kind.as_str());
    }
    assert_eq!(EventKind::asked_for(None), Some(EventKind::All));
    assert_eq!(EventKind::asked_for(Some("nothing_changed")), None);
    assert_eq!(EventKind::All.as_str(), "*");
}

#[test]
fn a_workspace_id_is_written_eight_wide() {
    for (idx, version) in [(3, 1), (0, 0), (1234, 5678), (u32::MAX, u32::MAX)] {
        let expected = format!("{:08}", format!("{}{}", idx, version));
        assert_eq!(WorkspaceId { idx, version }.to_text(), expected);
    }
    assert_eq!(WorkspaceId { idx: 3, version: 1 }.to_text(), "31      ");
}

#[test]
fn a_command_goes_to_whom_it_is_for() {
    let config: RiniCommand<u8, u8, &str> = RiniCommand::Config("reload");
    assert!(matches!(config.address(), Addressee::Config("reload")));
    let layout: RiniCommand<u8, u8, &str> = RiniCommand::Layout(3);
    assert!(matches!(layout.address(), Addressee::WindowManager(Command::Layout(3))));
    let metrics: RiniCommand<u8, u8, &str> = RiniCommand::Metrics(MetricsCommand::ShowTiming);
    assert!(matches!(
        metrics.address(),
        Addressee::WindowManager(Command::Metrics(MetricsCommand::ShowTiming))
    ));
}

#[test]
fn an_older_clients_command_means_the_same() {
    let command = |c: Command<u8, u8>| decode_legacy_command::<u8, u8, u8>(LegacyCommand::Reactor(c));
    assert!(matches!(command(Command::Layout(1)), RiniCommand::Layout(1)));
    assert!(matches!(command(Command::Reactor(2)), RiniCommand::Reactor(2)));
    assert!(matches!(
        command(Command::Metrics(MetricsCommand::ShowTiming)),
        RiniCommand::Metrics(MetricsCommand::ShowTiming)
    ));
    assert!(matches!(
        decode_legacy_command::<u8, u8, u8>(LegacyCommand::Config(9)),
        RiniCommand::Config(9)
    ));
    assert_eq!(AnimationEasing::default(), AnimationEasing::EaseInOut);
}
