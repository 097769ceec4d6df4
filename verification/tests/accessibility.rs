use std::time::Duration;
use uprobestats::atom::{Field, FieldAnnotation, RecordingAtomWriter, UnstructuredAtom, Value};
use uprobestats::bpf_handler::accessibility::{
    AccessibilityEvent, AccessibilityHandler, ATOM_ID_ACCESSIBILITY_RUNTIME_PERMISSION_GRANT,
};
use uprobestats::bridge_service::{EntryValue, PayloadId, RecordingBridgeService};
use uprobestats::config_resolver::{ResolvedProcess, ResolvedTask};

const TEST_PACKAGE_NAME: &str = "pkg.name";
const TEST_PERMISSION_NAME: &str = "android.permission.A";
const TEST_UID: i32 = 123;
const TEST_A11Y_CODE: i32 = 456;
const A11Y_EVENT_WINDOW: Duration = Duration::from_secs(10);

type Handler = AccessibilityHandler<RecordingAtomWriter<UnstructuredAtom>, RecordingBridgeService>;

fn c_buf(s: &str) -> Vec<u8> {
    let mut buf = vec![0u8; 128];
    buf[..s.len()].copy_from_slice(s.as_bytes());
    buf
}

fn bridge_with(packages: &[(&str, bool, Option<i32>)]) -> RecordingBridgeService {
    let mut bridge = RecordingBridgeService::new();
    for (name, has_a11y, uid) in packages {
        bridge.accessibility_packages.push((name.to_string(), *has_a11y));
        if let Some(uid) = uid {
            bridge.uids.push((name.to_string(), *uid));
        }
    }
    bridge
}

fn setup_handler_and_task(bridge: RecordingBridgeService) -> (Handler, ResolvedTask) {
    let handler = AccessibilityHandler::new(RecordingAtomWriter::new(), bridge);
    let task = ResolvedTask {
        id: 1,
        duration_secs: 0,
        resolved_process: ResolvedProcess { pid: 0, uid: TEST_UID, name: TEST_PACKAGE_NAME.to_string() },
        resolved_probes: vec![],
        bpf_map_paths: vec![],
        statsd_logging_config: None,
    };
    (handler, task)
}

fn create_permission_event(pkg_name: &str, perm_name: &str, timestamp: Duration) -> AccessibilityEvent {
    AccessibilityEvent {
        variant: 1,
        timestamp_ns: timestamp.as_nanos().try_into().unwrap(),
        uid: 0,
        code: 0,
        package_name: c_buf(pkg_name),
        permission_name: c_buf(perm_name),
    }
}

fn create_a11y_event(uid: i32, code: i32, timestamp: Duration) -> AccessibilityEvent {
    AccessibilityEvent {
        variant: 2,
        uid,
        code,
        timestamp_ns: timestamp.as_nanos().try_into().unwrap(),
        package_name: vec![0; 128],
        permission_name: vec![0; 128],
    }
}

fn millis(d: Duration) -> i64 {
    d.as_millis().try_into().unwrap()
}

fn assert_a11y_event_enqueued(bridge: &RecordingBridgeService, index: usize, uid: i32, timestamp: Duration, code: i32) {
    let (event, flush) = &bridge.events[index];
    assert!(!flush);
    assert_eq!(event.uid, uid);
    assert_eq!(event.timestamp_ms, millis(timestamp));
    assert_eq!(event.payload_id, PayloadId::A11y);
    assert!(event.payload.iter().any(|e| e.key == "CODE" && e.value == EntryValue::IntValue(code)));
    assert!(event.payload.iter().any(|e| e.key == "INTERFACE_NAME"
        && e.value == EntryValue::StringValue("IAccessibilityServiceConnection".to_string())));
}

fn assert_permission_grant_enqueued(
    bridge: &RecordingBridgeService,
    index: usize,
    uid: i32,
    timestamp: Duration,
    permission_name: &str,
) {
    let (event, flush) = &bridge.events[index];
    assert!(!flush);
    assert_eq!(event.uid, uid);
    assert_eq!(event.timestamp_ms, millis(timestamp));
    assert_eq!(event.payload_id, PayloadId::RuntimePermissionGrant);
    assert!(event.payload.iter().any(|e| e.key == "PERMISSION_NAME"
        && e.value == EntryValue::StringValue(permission_name.to_string())));
}

fn grant_atom(uid: i32, permission: &str, timestamp: Duration, calls: Vec<(i32, Duration)>) -> UnstructuredAtom {
    UnstructuredAtom {
        atom_id: ATOM_ID_ACCESSIBILITY_RUNTIME_PERMISSION_GRANT,
        fields: vec![
            Field::new_with_annotation(Value::Int32(uid), FieldAnnotation::IsUid(true)),
            Field::new(Value::String(permission.to_string())),
            Field::new(Value::Int64(millis(timestamp))),
            Field::new(Value::Int32Vec(calls.iter().map(|(c, _)| *c).collect())),
            Field::new(Value::Int64Vec(calls.iter().map(|(_, t)| millis(*t)).collect())),
        ],
    }
}

#[test]
fn permission_grant_after_a11y_event_is_reported() {
    let a11y_timestamp = Duration::from_secs(1);
    let permission_timestamp = Duration::from_secs(2);
    let (mut handler, task) = setup_handler_and_task(bridge_with(&[(TEST_PACKAGE_NAME, true, Some(TEST_UID))]));
    handler.on_item(&task, &create_a11y_event(TEST_UID, TEST_A11Y_CODE, a11y_timestamp)).unwrap();
    handler
        .on_item(&task, &create_permission_event(TEST_PACKAGE_NAME, TEST_PERMISSION_NAME, permission_timestamp))
        .unwrap();
    handler.on_finished().unwrap();

    assert_eq!(handler.bridge_service.events.len(), 2);
    assert_a11y_event_enqueued(&handler.bridge_service, 0, TEST_UID, a11y_timestamp, TEST_A11Y_CODE);
    assert_permission_grant_enqueued(&handler.bridge_service, 1, TEST_UID, permission_timestamp, TEST_PERMISSION_NAME);

    assert_eq!(handler.writer.written.len(), 1);
    let atom = handler.writer.written[0].clone();
    let expected = UnstructuredAtom {
        atom_id: ATOM_ID_ACCESSIBILITY_RUNTIME_PERMISSION_GRANT,
        fields: vec![
            Field::new_with_annotation(Value::Int32(TEST_UID), FieldAnnotation::IsUid(true)),
            Field::new(Value::String(TEST_PERMISSION_NAME.to_string())),
            Field::new(Value::Int64(permission_timestamp.as_millis().try_into().unwrap())),
            Field::new(Value::Int32Vec(vec![TEST_A11Y_CODE])),
            Field::new(Value::Int64Vec(vec![a11y_timestamp.as_millis().try_into().unwrap()])),
        ],
    };
    assert_eq!(atom, expected);
}

#[test]
fn non_android_permission_is_ignored() {
    let (mut handler, task) = setup_handler_and_task(RecordingBridgeService::new());
    let permission_event =
        create_permission_event(TEST_PACKAGE_NAME, "com.example.permission", Duration::from_millis(2000));
    handler.on_item(&task, &permission_event).unwrap();
    handler.on_finished().unwrap();
    assert_eq!(handler.writer.written.len(), 0);
    assert!(handler.bridge_service.events.is_empty());
}

#[test]
fn no_enabled_a11y_service_is_ignored() {
    let (mut handler, task) = setup_handler_and_task(bridge_with(&[(TEST_PACKAGE_NAME, false, None)]));
    let permission_event = create_permission_event(TEST_PACKAGE_NAME, TEST_PERMISSION_NAME, Duration::from_millis(2000));
    handler.on_item(&task, &permission_event).unwrap();
    handler.on_finished().unwrap();
    assert_eq!(handler.writer.written.len(), 0);
}

#[test]
fn package_has_enabled_a11y_service_error_is_propagated() {
    let (mut handler, task) = setup_handler_and_task(RecordingBridgeService::new());
    let permission_event = create_permission_event(TEST_PACKAGE_NAME, TEST_PERMISSION_NAME, Duration::from_millis(2000));
    let result = handler.on_item(&task, &permission_event);
    assert!(result.is_err());
}

#[test]
fn get_uid_for_package_error_is_propagated() {
    let (mut handler, task) = setup_handler_and_task(bridge_with(&[(TEST_PACKAGE_NAME, true, None)]));
    let permission_event = create_permission_event(TEST_PACKAGE_NAME, TEST_PERMISSION_NAME, Duration::from_millis(2000));
    let result = handler.on_item(&task, &permission_event);
    assert!(result.is_err());
}

#[test]
fn a11y_event_after_permission_grant_is_ignored() {
    let permission_timestamp = Duration::from_millis(1);
    let a11y_timestamp = Duration::from_millis(2);
    let (mut handler, task) = setup_handler_and_task(bridge_with(&[(TEST_PACKAGE_NAME, true, Some(TEST_UID))]));
    handler.on_item(&task, &create_a11y_event(TEST_UID, TEST_A11Y_CODE, a11y_timestamp)).unwrap();
    handler
        .on_item(&task, &create_permission_event(TEST_PACKAGE_NAME, TEST_PERMISSION_NAME, permission_timestamp))
        .unwrap();
    handler.on_finished().unwrap();

    assert_a11y_event_enqueued(&handler.bridge_service, 0, TEST_UID, a11y_timestamp, TEST_A11Y_CODE);
    assert_permission_grant_enqueued(&handler.bridge_service, 1, TEST_UID, permission_timestamp, TEST_PERMISSION_NAME);
    assert_eq!(handler.writer.written.len(), 1);
    let atom = handler.writer.written[0].clone();
    let expected = UnstructuredAtom {
        atom_id: ATOM_ID_ACCESSIBILITY_RUNTIME_PERMISSION_GRANT,
        fields: vec![
            Field::new_with_annotation(Value::Int32(TEST_UID), FieldAnnotation::IsUid(true)),
            Field::new(Value::String(TEST_PERMISSION_NAME.to_string())),
            Field::new(Value::Int64(permission_timestamp.as_millis().try_into().unwrap())),
            Field::new(Value::Int32Vec(vec![])),
            Field::new(Value::Int64Vec(vec![])),
        ],
    };
    assert_eq!(atom, expected);
}

#[test]
fn a11y_event_outside_window_is_ignored() {
    let a11y_timestamp = Duration::from_nanos(1000);
    let permission_timestamp = A11Y_EVENT_WINDOW + Duration::from_secs(1);
    let (mut handler, task) = setup_handler_and_task(bridge_with(&[(TEST_PACKAGE_NAME, true, Some(TEST_UID))]));
    handler.on_item(&task, &create_a11y_event(TEST_UID, TEST_A11Y_CODE, a11y_timestamp)).unwrap();
    handler
        .on_item(&task, &create_permission_event(TEST_PACKAGE_NAME, TEST_PERMISSION_NAME, permission_timestamp))
        .unwrap();
    handler.on_finished().unwrap();

    assert_a11y_event_enqueued(&handler.bridge_service, 0, TEST_UID, a11y_timestamp, TEST_A11Y_CODE);
    assert_permission_grant_enqueued(&handler.bridge_service, 1, TEST_UID, permission_timestamp, TEST_PERMISSION_NAME);
    assert_eq!(handler.writer.written.len(), 1);
    let atom = handler.writer.written[0].clone();
    let expected = UnstructuredAtom {
        atom_id: ATOM_ID_ACCESSIBILITY_RUNTIME_PERMISSION_GRANT,
        fields: vec![
            Field::new_with_annotation(Value::Int32(TEST_UID), FieldAnnotation::IsUid(true)),
            Field::new(Value::String(TEST_PERMISSION_NAME.to_string())),
            Field::new(Value::Int64(permission_timestamp.as_millis().try_into().unwrap())),
            Field::new(Value::Int32Vec(vec![])),
            Field::new(Value::Int64Vec(vec![])),
        ],
    };
    assert_eq!(atom, expected);
}

#[test]
fn multiple_a11y_events_are_recorded() {
    let a11y_code1 = 456;
    let a11y_code2 = 789;
    let a11y_timestamp1 = Duration::from_millis(10);
    let a11y_timestamp2 = Duration::from_millis(15);
    let permission_timestamp = Duration::from_millis(20);
    let (mut handler, task) = setup_handler_and_task(bridge_with(&[(TEST_PACKAGE_NAME, true, Some(TEST_UID))]));
    handler.on_item(&task, &create_a11y_event(TEST_UID, a11y_code1, a11y_timestamp1)).unwrap();
    handler.on_item(&task, &create_a11y_event(TEST_UID, a11y_code2, a11y_timestamp2)).unwrap();
    handler
        .on_item(&task, &create_permission_event(TEST_PACKAGE_NAME, TEST_PERMISSION_NAME, permission_timestamp))
        .unwrap();
    handler.on_finished().unwrap();

    assert_a11y_event_enqueued(&handler.bridge_service, 0, TEST_UID, a11y_timestamp1, a11y_code1);
    assert_a11y_event_enqueued(&handler.bridge_service, 1, TEST_UID, a11y_timestamp2, a11y_code2);
    assert_permission_grant_enqueued(&handler.bridge_service, 2, TEST_UID, permission_timestamp, TEST_PERMISSION_NAME);
    assert_eq!(handler.writer.written.len(), 1);
    let atom = handler.writer.written[0].clone();
    let expected = UnstructuredAtom {
        atom_id: ATOM_ID_ACCESSIBILITY_RUNTIME_PERMISSION_GRANT,
        fields: vec![
            Field::new_with_annotation(Value::Int32(TEST_UID), FieldAnnotation::IsUid(true)),
            Field::new(Value::String(TEST_PERMISSION_NAME.to_string())),
            Field::new(Value::Int64(permission_timestamp.as_millis().try_into().unwrap())),
            Field::new(Value::Int32Vec(vec![a11y_code2, a11y_code1])),
            Field::new(Value::Int64Vec(vec![
                a11y_timestamp2.as_millis().try_into().unwrap(),
                a11y_timestamp1.as_millis().try_into().unwrap(),
            ])),
        ],
    };
    assert_eq!(atom, expected);
}

#[test]
fn multiple_permission_grants() {
    let package_name_a = "pkg.name.a";
    let permission_name_a = "android.permission.A";
    let package_name_b = "pkg.name.b";
    let permission_name_b = "android.permission.B";
    let a11y_code1 = 456;
    let a11y_code2 = 789;
    let a11y_timestamp1 = Duration::from_millis(10);
    let permission_timestamp_a = Duration::from_millis(20);
    let a11y_timestamp2 = Duration::from_millis(30);
    let permission_timestamp_b = Duration::from_millis(40);
    let (mut handler, task) = setup_handler_and_task(bridge_with(&[
        (package_name_a, true, Some(TEST_UID)),
        (package_name_b, true, Some(TEST_UID)),
    ]));
    handler.on_item(&task, &create_permission_event(package_name_a, permission_name_a, permission_timestamp_a)).unwrap();
    handler.on_item(&task, &create_a11y_event(TEST_UID, a11y_code1, a11y_timestamp1)).unwrap();
    handler.on_item(&task, &create_permission_event(package_name_b, permission_name_b, permission_timestamp_b)).unwrap();
    handler.on_item(&task, &create_a11y_event(TEST_UID, a11y_code2, a11y_timestamp2)).unwrap();
    handler.on_finished().unwrap();

    assert_permission_grant_enqueued(&handler.bridge_service, 0, TEST_UID, permission_timestamp_a, permission_name_a);
    assert_a11y_event_enqueued(&handler.bridge_service, 1, TEST_UID, a11y_timestamp1, a11y_code1);
    assert_permission_grant_enqueued(&handler.bridge_service, 2, TEST_UID, permission_timestamp_b, permission_name_b);
    assert_a11y_event_enqueued(&handler.bridge_service, 3, TEST_UID, a11y_timestamp2, a11y_code2);

    assert_eq!(handler.writer.written.len(), 2);
    let atom_b = handler.writer.written[0].clone();
    let expected_b = UnstructuredAtom {
        atom_id: ATOM_ID_ACCESSIBILITY_RUNTIME_PERMISSION_GRANT,
        fields: vec![
            Field::new_with_annotation(Value::Int32(TEST_UID), FieldAnnotation::IsUid(true)),
            Field::new(Value::String(permission_name_b.to_string())),
            Field::new(Value::Int64(permission_timestamp_b.as_millis().try_into().unwrap())),
            Field::new(Value::Int32Vec(vec![a11y_code2])),
            Field::new(Value::Int64Vec(vec![a11y_timestamp2.as_millis().try_into().unwrap()])),
        ],
    };
    assert_eq!(atom_b, expected_b);
    let atom_a = handler.writer.written[1].clone();
    let expected_a = UnstructuredAtom {
        atom_id: ATOM_ID_ACCESSIBILITY_RUNTIME_PERMISSION_GRANT,
        fields: vec![
            Field::new_with_annotation(Value::Int32(TEST_UID), FieldAnnotation::IsUid(true)),
            Field::new(Value::String(permission_name_a.to_string())),
            Field::new(Value::Int64(permission_timestamp_a.as_millis().try_into().unwrap())),
            Field::new(Value::Int32Vec(vec![a11y_code1])),
            Field::new(Value::Int64Vec(vec![a11y_timestamp1.as_millis().try_into().unwrap()])),
        ],
    };
    assert_eq!(atom_a, expected_a);
}

#[test]
fn no_a11y_events() {
    let permission_timestamp = Duration::from_millis(20);
    let (mut handler, task) = setup_handler_and_task(bridge_with(&[(TEST_PACKAGE_NAME, true, Some(TEST_UID))]));
    handler
        .on_item(&task, &create_permission_event(TEST_PACKAGE_NAME, TEST_PERMISSION_NAME, permission_timestamp))
        .unwrap();
    handler.on_finished().unwrap();

    assert_eq!(handler.bridge_service.events.len(), 1);
    assert_permission_grant_enqueued(&handler.bridge_service, 0, TEST_UID, permission_timestamp, TEST_PERMISSION_NAME);
    assert_eq!(handler.writer.written.len(), 1);
    let atom = handler.writer.written[0].clone();
    let expected = UnstructuredAtom {
        atom_id: ATOM_ID_ACCESSIBILITY_RUNTIME_PERMISSION_GRANT,
        fields: vec![
            Field::new_with_annotation(Value::Int32(TEST_UID), FieldAnnotation::IsUid(true)),
            Field::new(Value::String(TEST_PERMISSION_NAME.to_string())),
            Field::new(Value::Int64(permission_timestamp.as_millis().try_into().unwrap())),
            Field::new(Value::Int32Vec(vec![])),
            Field::new(Value::Int64Vec(vec![])),
        ],
    };
    assert_eq!(atom, expected);
}

#[test]
fn no_permission_grants() {
    let a11y_timestamp = Duration::from_millis(10);
    let (mut handler, task) = setup_handler_and_task(RecordingBridgeService::new());
    handler.on_item(&task, &create_a11y_event(TEST_UID, TEST_A11Y_CODE, a11y_timestamp)).unwrap();
    handler.on_finished().unwrap();
    assert_eq!(handler.bridge_service.events.len(), 1);
    assert_a11y_event_enqueued(&handler.bridge_service, 0, TEST_UID, a11y_timestamp, TEST_A11Y_CODE);
    assert_eq!(handler.writer.written.len(), 0);
}

#[test]
fn invalid_variant_is_an_error() {
    let (mut handler, task) = setup_handler_and_task(RecordingBridgeService::new());
    let result = handler.on_item(
        &task,
        &AccessibilityEvent {
            variant: 99,
            uid: 0,
            code: 0,
            timestamp_ns: 0,
            package_name: vec![0; 128],
            permission_name: vec![0; 128],
        },
    );
    assert!(result.is_err());
}

#[test]
fn multiple_uids() {
    let package_name_a = "pkg.name.a";
    let permission_name_a = "android.permission.A";
    let uid_a = 123;
    let a11y_code_a = 456;
    let a11y_timestamp_a = Duration::from_millis(10);
    let permission_timestamp_a = Duration::from_millis(20);
    let package_name_b = "pkg.name.b";
    let permission_name_b = "android.permission.B";
    let uid_b = 789;
    let a11y_code_b = 101;
    let a11y_timestamp_b = Duration::from_millis(30);
    let permission_timestamp_b = Duration::from_millis(40);
    let (mut handler, task) =
        setup_handler_and_task(bridge_with(&[(package_name_a, true, Some(uid_a)), (package_name_b, true, Some(uid_b))]));

    handler.on_item(&task, &create_a11y_event(uid_a, a11y_code_a, a11y_timestamp_a)).unwrap();
    handler.on_item(&task, &create_permission_event(package_name_a, permission_name_a, permission_timestamp_a)).unwrap();
    handler.on_item(&task, &create_a11y_event(uid_b, a11y_code_b, a11y_timestamp_b)).unwrap();
    handler.on_item(&task, &create_permission_event(package_name_b, permission_name_b, permission_timestamp_b)).unwrap();
    handler.on_finished().unwrap();

    assert_a11y_event_enqueued(&handler.bridge_service, 0, uid_a, a11y_timestamp_a, a11y_code_a);
    assert_permission_grant_enqueued(&handler.bridge_service, 1, uid_a, permission_timestamp_a, permission_name_a);
    assert_a11y_event_enqueued(&handler.bridge_service, 2, uid_b, a11y_timestamp_b, a11y_code_b);
    assert_permission_grant_enqueued(&handler.bridge_service, 3, uid_b, permission_timestamp_b, permission_name_b);

    assert_eq!(handler.writer.written.len(), 2);
    handler.writer.written.sort_by_key(|a| if let Value::Int32(uid) = a.fields[0].value { uid } else { 0 });
    let atom_a = handler.writer.written[0].clone();
    let expected_a = UnstructuredAtom {
        atom_id: ATOM_ID_ACCESSIBILITY_RUNTIME_PERMISSION_GRANT,
        fields: vec![
            Field::new_with_annotation(Value::Int32(uid_a), FieldAnnotation::IsUid(true)),
            Field::new(Value::String(permission_name_a.to_string())),
            Field::new(Value::Int64(permission_timestamp_a.as_millis().try_into().unwrap())),
            Field::new(Value::Int32Vec(vec![a11y_code_a])),
            Field::new(Value::Int64Vec(vec![a11y_timestamp_a.as_millis().try_into().unwrap()])),
        ],
    };
    assert_eq!(atom_a, expected_a);
    let atom_b = handler.writer.written[1].clone();
    let expected_b = UnstructuredAtom {
        atom_id: ATOM_ID_ACCESSIBILITY_RUNTIME_PERMISSION_GRANT,
        fields: vec![
            Field::new_with_annotation(Value::Int32(uid_b), FieldAnnotation::IsUid(true)),
            Field::new(Value::String(permission_name_b.to_string())),
            Field::new(Value::Int64(permission_timestamp_b.as_millis().try_into().unwrap())),
            Field::new(Value::Int32Vec(vec![a11y_code_b])),
            Field::new(Value::Int64Vec(vec![a11y_timestamp_b.as_millis().try_into().unwrap()])),
        ],
    };
    assert_eq!(atom_b, expected_b);
}

#[test]
fn accessibility_event_empty_fields_fail() {
    let (mut handler, task) = setup_handler_and_task(RecordingBridgeService::new());
    let data = create_permission_event("", TEST_PERMISSION_NAME, Duration::from_secs(1));
    assert!(handler.on_item(&task, &data).is_err());
    let data = create_permission_event(TEST_PACKAGE_NAME, "", Duration::from_secs(1));
    assert!(handler.on_item(&task, &data).is_err());
}

// Further cases of the library's own.

#[test]
fn a11y_event_exactly_at_window_edge_is_dropped() {
    let permission_timestamp = Duration::from_secs(20);
    let inside = permission_timestamp - A11Y_EVENT_WINDOW + Duration::from_nanos(1);
    let at_edge = permission_timestamp - A11Y_EVENT_WINDOW;
    let (mut handler, task) = setup_handler_and_task(bridge_with(&[(TEST_PACKAGE_NAME, true, Some(TEST_UID))]));
    handler.on_item(&task, &create_a11y_event(TEST_UID, 1, at_edge)).unwrap();
    handler.on_item(&task, &create_a11y_event(TEST_UID, 2, inside)).unwrap();
    handler
        .on_item(&task, &create_permission_event(TEST_PACKAGE_NAME, TEST_PERMISSION_NAME, permission_timestamp))
        .unwrap();
    handler.on_finished().unwrap();
    assert_eq!(
        handler.writer.written,
        vec![grant_atom(TEST_UID, TEST_PERMISSION_NAME, permission_timestamp, vec![(2, inside)])]
    );
}

#[test]
fn calls_go_to_the_nearest_later_grant() {
    let (mut handler, task) = setup_handler_and_task(bridge_with(&[(TEST_PACKAGE_NAME, true, Some(TEST_UID))]));
    let t = |ms: u64| Duration::from_millis(ms);
    handler.on_item(&task, &create_a11y_event(TEST_UID, 1, t(5))).unwrap();
    handler.on_item(&task, &create_permission_event(TEST_PACKAGE_NAME, "android.permission.X", t(10))).unwrap();
    handler.on_item(&task, &create_a11y_event(TEST_UID, 2, t(12))).unwrap();
    handler.on_item(&task, &create_a11y_event(TEST_UID, 3, t(14))).unwrap();
    handler.on_item(&task, &create_permission_event(TEST_PACKAGE_NAME, "android.permission.Y", t(16))).unwrap();
    handler.on_item(&task, &create_a11y_event(TEST_UID, 4, t(30))).unwrap();
    handler.on_finished().unwrap();
    assert_eq!(
        handler.writer.written,
        vec![
            grant_atom(TEST_UID, "android.permission.Y", t(16), vec![(3, t(14)), (2, t(12))]),
            grant_atom(TEST_UID, "android.permission.X", t(10), vec![(1, t(5))]),
        ]
    );
}

#[test]
fn failed_enqueue_keeps_no_event() {
    let mut bridge = RecordingBridgeService::new();
    bridge.fail_enqueue = true;
    let (mut handler, task) = setup_handler_and_task(bridge);
    assert!(handler.on_item(&task, &create_a11y_event(TEST_UID, 1, Duration::from_millis(1))).is_err());
    handler.on_finished().unwrap();
    assert!(handler.events.is_empty());
    assert!(handler.writer.written.is_empty());
}

#[test]
fn missing_nul_terminator_is_an_error() {
    let (mut handler, task) = setup_handler_and_task(bridge_with(&[(TEST_PACKAGE_NAME, true, Some(TEST_UID))]));
    let mut data = create_permission_event(TEST_PACKAGE_NAME, TEST_PERMISSION_NAME, Duration::from_secs(1));
    data.package_name = vec![b'a'; 128];
    assert!(handler.on_item(&task, &data).is_err());
    assert!(handler.bridge_service.events.is_empty());
}
