//! Identities of windows, spaces and screens.
use rini::ids::{
    parse_debug_string, synthetic_window_id, IdField, ScreenId, SpaceId, WindowId, WindowIdError,
    WindowServerId,
};

fn wid() -> WindowId {
    WindowId::new(42, 7)
}

/// A window identifier as JSON writes it: an object, a pair, or a text.
fn from_json(json: &str) -> Result<WindowId, WindowIdError> {
    let value: serde_json::Value = serde_json::from_str(json).unwrap();
    match &value {
        serde_json::Value::Object(fields) => {
            let fields: Vec<IdField> = fields
                .iter()
                .map(|(name, value)| match name.as_str() {
                    "pid" => IdField::Pid(value.as_i64().unwrap() as i32),
                    "idx" => IdField::Idx(value.as_u64().unwrap() as u32),
                    _ => IdField::Other,
                })
                .collect();
            WindowId::from_fields(&fields)
        }
        serde_json::Value::Array(items) => WindowId::from_pair(
            items.first().and_then(|pid| pid.as_i64()).map(|pid| pid as i32),
            items.get(1).and_then(|idx| idx.as_u64()).map(|idx| idx as u32),
        ),
        _ => parse_debug_string(value.as_str().unwrap()),
    }
}

#[test]
fn window_id_json_round_trips_as_a_struct() {
    let json = r#"{"pid":42,"idx":7}"#;
    assert_eq!(from_json(json).unwrap(), wid());
}

#[test]
fn window_id_accepts_the_seq_and_debug_string_forms() {
    assert_eq!(from_json("[42, 7]").unwrap(), wid());
    assert_eq!(from_json(r#""WindowId { pid: 42, idx: 7 }""#).unwrap(), wid());
    assert_eq!(WindowId::from_debug_string(&wid().to_debug_string()), Some(wid()));
    assert_eq!(WindowId::from_debug_string("Window { pid: 1, idx: 2 }"), None);
}

#[test]
fn window_id_rejects_a_zero_index_and_ignores_unknown_fields() {
    assert!(from_json(r#"{"pid":1,"idx":0}"#).is_err());
    assert!(from_json("[1, 0]").is_err());
    assert_eq!(from_json(r#"{"pid":42,"idx":7,"extra":true}"#).unwrap(), wid());
}

#[test]
fn window_id_maps_onto_the_protocol_id_and_the_server_id() {
    let protocol: rini::protocol::queries::WindowId = wid().into();
    assert_eq!((protocol.pid, protocol.idx), (42, 7));
    assert_eq!(WindowServerId::from(wid()).as_u32(), 7);
}

#[test]
fn server_id_zero_is_not_a_window() {
    assert_eq!(WindowServerId::new(0).as_nonzero(), None);
    assert_eq!(WindowServerId::new(9).as_nonzero(), Some(9));
    assert_eq!(u32::from(WindowServerId::new(9)), 9);
}

#[test]
fn ids_space_id_serializes_as_a_bare_number() {
    let space = SpaceId::new(1234);
    assert_eq!(serde_json::to_string(&space.get()).unwrap(), "1234");
    assert_eq!(SpaceId::new(serde_json::from_str::<u64>("1234").unwrap()), space);
    assert_eq!(space.to_text(), "1234");
    assert_eq!(u64::from(space), 1234);
}

#[test]
fn each_wrong_window_id_says_why() {
    assert_eq!(parse_debug_string("nothing"), Err(WindowIdError::NotAnId));
    assert_eq!(parse_debug_string("WindowId { pid: 1 }"), Err(WindowIdError::NotAnId));
    assert_eq!(parse_debug_string("WindowId { pid: x, idx: 2 }"), Err(WindowIdError::Pid));
    assert_eq!(parse_debug_string("WindowId { pid: 2147483648, idx: 2 }"), Err(WindowIdError::Pid));
    assert_eq!(parse_debug_string("WindowId { pid: 1, idx: -2 }"), Err(WindowIdError::Idx));
    assert_eq!(parse_debug_string("WindowId { pid: 1, idx: 0 }"), Err(WindowIdError::ZeroIndex));
    assert_eq!(WindowId::from_pair(None, Some(1)), Err(WindowIdError::MissingPid));
    assert_eq!(WindowId::from_pair(Some(1), None), Err(WindowIdError::MissingIdx));
    assert_eq!(WindowId::from_fields(&vec![IdField::Idx(1)]), Err(WindowIdError::MissingPid));
}

#[test]
fn reading_an_id_undoes_writing_it() {
    for id in [WindowId::new(i32::MIN, u32::MAX), WindowId::new(0, 1), WindowId::new(-1, 10)] {
        assert_eq!(parse_debug_string(&id.to_debug_string()), Ok(id));
    }
    assert_eq!(WindowId::new(-12, 340).to_debug_string(), "WindowId { pid: -12, idx: 340 }");
}

#[test]
fn a_field_given_twice_counts_as_given_last() {
    let fields = vec![IdField::Pid(1), IdField::Idx(2), IdField::Other, IdField::Pid(3)];
    assert_eq!(WindowId::from_fields(&fields), Ok(WindowId::new(3, 2)));
}

#[test]
fn a_number_may_carry_a_plus_sign() {
    assert_eq!(parse_debug_string("WindowId { pid: +5, idx: +6 }"), Ok(WindowId::new(5, 6)));
}

#[test]
fn a_synthetic_id_is_clear_of_the_others() {
    let id = synthetic_window_id(WindowServerId::new(9));
    assert_eq!((id.pid, id.idx), (0, 9));
    assert_eq!(synthetic_window_id(WindowServerId::new(0)).idx, 1);
}

#[test]
fn screens_and_protocol_ids_keep_their_numbers() {
    assert_eq!(ScreenId::new(3).as_u32(), 3);
    assert!(rini::protocol::queries::WindowId::new(1, 0).is_none());
    let id = rini::protocol::queries::WindowId::new(1, 5).unwrap();
    assert_eq!(id.to_debug_string(), "WindowId { pid: 1, idx: 5 }");
    assert_eq!(id.known_as(), Some(WindowId::new(1, 5)));
}
