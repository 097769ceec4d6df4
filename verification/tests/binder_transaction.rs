use uprobestats::atom::{Field, FieldAnnotation, RecordingAtomWriter, UnstructuredAtom, Value};
use uprobestats::bpf_handler::binder_transaction::{BinderTransaction, BinderTransactionHandler};
use uprobestats::bpf_handler::HandlerError;
use uprobestats::bridge_service::{EntryValue, PayloadId, RecordingBridgeService};
use uprobestats::config::AtomFieldPosition;
use uprobestats::config_resolver::{
    AtomConfig, EventMode, EventServiceConfig, ExecutableMethodFileOffsets, InterfaceConfig, InterfaceFilters,
    MethodConfig, MethodDescriptor, ResolvedProbe, ResolvedProcess, ResolvedTask,
};

const TEST_INTERFACE_NAME: &str = "com.android.internal.os.IBinderTest";
const TEST_CODE: u32 = 1;
const TEST_CALLING_UID: i32 = 1000;
const TEST_TIMESTAMP_NS: u64 = 1_000_000_000;
const NOW_MS: i64 = 1_700_000_000_000;

type Handler = BinderTransactionHandler<RecordingAtomWriter<UnstructuredAtom>, RecordingBridgeService>;

fn setup_handler_and_task(
    bridge: RecordingBridgeService,
    method_configs: Vec<(u64, Option<EventServiceConfig>, Option<AtomConfig>)>,
) -> (Handler, ResolvedTask) {
    let handler = BinderTransactionHandler::new(RecordingAtomWriter::new(), bridge);
    let mut interface_config = InterfaceConfig::default();
    for (method_id, event_service_config, atom_config) in method_configs {
        interface_config.insert_method(method_id, MethodConfig { event_service_config, atom_config }).unwrap();
    }
    let mut binder_transaction_filters = InterfaceFilters::new();
    binder_transaction_filters.insert(TEST_INTERFACE_NAME.to_string(), interface_config).unwrap();
    let task = ResolvedTask {
        id: 1,
        duration_secs: 0,
        resolved_process: ResolvedProcess { pid: 0, uid: TEST_CALLING_UID, name: "test_process".to_string() },
        resolved_probes: vec![ResolvedProbe {
            method_descriptor: MethodDescriptor {
                fully_qualified_class_name: "test_class".to_string(),
                method_name: "test_method".to_string(),
                fully_qualified_parameters: vec![],
            },
            offsets: ExecutableMethodFileOffsets {
                container_path: "test_path".to_string(),
                container_offset: 0,
                method_offset: 0,
            },
            bpf_program_path: "test_bpf".to_string(),
            binder_transaction_filters,
        }],
        bpf_map_paths: vec![],
        statsd_logging_config: None,
    };
    (handler, task)
}

fn assert_binder_transaction_enqueued(
    bridge: &RecordingBridgeService,
    index: usize,
    expected_interface: &str,
    expected_code: u32,
    expected_flush: bool,
) {
    let (event, flush) = &bridge.events[index];
    assert_eq!(*flush, expected_flush);
    assert_eq!(event.uid, TEST_CALLING_UID);
    assert_eq!(event.timestamp_ms, NOW_MS);
    assert_eq!(event.payload_id, PayloadId::BinderTransaction);
    assert!(event.payload.iter().any(|e| e.key == "INTERFACE_NAME"
        && e.value == EntryValue::StringValue(expected_interface.to_string())));
    assert!(event.payload.iter().any(|e| e.key == "CODE" && e.value == EntryValue::IntValue(expected_code as i32)));
}

fn create_binder_transaction(interface_name: &str, code: u32, calling_uid: i32, timestamp_ns: u64) -> BinderTransaction {
    let mut interface_descriptor = vec![0u8; 128];
    interface_descriptor[..interface_name.len()].copy_from_slice(interface_name.as_bytes());
    BinderTransaction { interface_descriptor, code: code as u64, calling_uid, timestamp_ns }
}

fn buffer() -> Option<EventServiceConfig> {
    Some(EventServiceConfig { mode: EventMode::Buffer })
}

#[test]
fn binder_transaction_event_is_reported() {
    let (mut handler, task) =
        setup_handler_and_task(RecordingBridgeService::new(), vec![(TEST_CODE.into(), buffer(), None)]);
    let transaction = create_binder_transaction(TEST_INTERFACE_NAME, TEST_CODE, TEST_CALLING_UID, TEST_TIMESTAMP_NS);
    handler.on_item(&task, &transaction, NOW_MS).unwrap();
    assert_eq!(handler.bridge_service.events.len(), 1);
    assert_binder_transaction_enqueued(&handler.bridge_service, 0, TEST_INTERFACE_NAME, TEST_CODE, false);
}

#[test]
fn binder_transaction_ignored_for_unknown_interface() {
    let (mut handler, task) =
        setup_handler_and_task(RecordingBridgeService::new(), vec![(TEST_CODE.into(), buffer(), None)]);
    let transaction = create_binder_transaction(
        "com.android.internal.os.IOtherInterface",
        TEST_CODE,
        TEST_CALLING_UID,
        TEST_TIMESTAMP_NS,
    );
    let result = handler.on_item(&task, &transaction, NOW_MS);
    assert!(result.is_err());
    assert!(handler.bridge_service.events.is_empty());
}

#[test]
fn binder_transaction_ignored_for_unknown_code() {
    let (mut handler, task) =
        setup_handler_and_task(RecordingBridgeService::new(), vec![(TEST_CODE.into(), buffer(), None)]);
    let transaction = create_binder_transaction(TEST_INTERFACE_NAME, TEST_CODE + 1, TEST_CALLING_UID, TEST_TIMESTAMP_NS);
    let result = handler.on_item(&task, &transaction, NOW_MS);
    assert!(result.is_err());
    assert!(handler.bridge_service.events.is_empty());
}

#[test]
fn binder_transaction_flush_flag_respected() {
    let (mut handler, task) = setup_handler_and_task(
        RecordingBridgeService::new(),
        vec![(TEST_CODE.into(), Some(EventServiceConfig { mode: EventMode::Flush }), None)],
    );
    let transaction = create_binder_transaction(TEST_INTERFACE_NAME, TEST_CODE, TEST_CALLING_UID, TEST_TIMESTAMP_NS);
    handler.on_item(&task, &transaction, NOW_MS).unwrap();
    assert_eq!(handler.bridge_service.events.len(), 1);
    assert_binder_transaction_enqueued(&handler.bridge_service, 0, TEST_INTERFACE_NAME, TEST_CODE, true);
}

fn all_positions() -> Vec<AtomFieldPosition> {
    vec![
        AtomFieldPosition::INTERFACE_NAME,
        AtomFieldPosition::CODE,
        AtomFieldPosition::CALLING_UID,
        AtomFieldPosition::KTIME_NS,
    ]
}

#[test]
fn binder_transaction_atom_is_reported() {
    let atom_id = 100;
    let (mut handler, task) = setup_handler_and_task(
        RecordingBridgeService::new(),
        vec![(TEST_CODE.into(), None, Some(AtomConfig { atom_id, atom_field_positions: all_positions() }))],
    );
    let transaction = create_binder_transaction(TEST_INTERFACE_NAME, TEST_CODE, TEST_CALLING_UID, TEST_TIMESTAMP_NS);
    handler.on_item(&task, &transaction, NOW_MS).unwrap();
    assert_eq!(handler.atom_writer.written.len(), 1);
    let atom = &handler.atom_writer.written[0];
    assert_eq!(atom.atom_id, atom_id);
    assert_eq!(atom.fields[0].value, Value::String(TEST_INTERFACE_NAME.to_string()));
    assert_eq!(atom.fields[1].value, Value::Int32(TEST_CODE as i32));
    assert_eq!(atom.fields[2].value, Value::Int32(TEST_CALLING_UID));
    assert_eq!(atom.fields[3].value, Value::Int64(TEST_TIMESTAMP_NS as i64));
    assert!(handler.bridge_service.events.is_empty());
}

#[test]
fn binder_transaction_reports_both_atom_and_event() {
    let atom_id = 100;
    let (mut handler, task) = setup_handler_and_task(
        RecordingBridgeService::new(),
        vec![(TEST_CODE.into(), buffer(), Some(AtomConfig { atom_id, atom_field_positions: all_positions() }))],
    );
    let transaction = create_binder_transaction(TEST_INTERFACE_NAME, TEST_CODE, TEST_CALLING_UID, TEST_TIMESTAMP_NS);
    handler.on_item(&task, &transaction, NOW_MS).unwrap();
    assert_eq!(handler.atom_writer.written.len(), 1);
    let atom = &handler.atom_writer.written[0];
    assert_eq!(atom.atom_id, atom_id);
    assert_eq!(handler.bridge_service.events.len(), 1);
    assert_binder_transaction_enqueued(&handler.bridge_service, 0, TEST_INTERFACE_NAME, TEST_CODE, false);
}

#[test]
fn binder_transaction_handles_multiple_methods() {
    let (mut handler, task) =
        setup_handler_and_task(RecordingBridgeService::new(), vec![(1, buffer(), None), (2, buffer(), None)]);
    let t1 = create_binder_transaction(TEST_INTERFACE_NAME, 1, TEST_CALLING_UID, TEST_TIMESTAMP_NS);
    handler.on_item(&task, &t1, NOW_MS).unwrap();
    let t2 = create_binder_transaction(TEST_INTERFACE_NAME, 2, TEST_CALLING_UID, TEST_TIMESTAMP_NS);
    handler.on_item(&task, &t2, NOW_MS).unwrap();
    assert_eq!(handler.bridge_service.events.len(), 2);
    assert_binder_transaction_enqueued(&handler.bridge_service, 0, TEST_INTERFACE_NAME, 1, false);
    assert_binder_transaction_enqueued(&handler.bridge_service, 1, TEST_INTERFACE_NAME, 2, false);
}

#[test]
fn binder_transaction_empty_interface_fails() {
    let (mut handler, task) =
        setup_handler_and_task(RecordingBridgeService::new(), vec![(TEST_CODE.into(), buffer(), None)]);
    let transaction = create_binder_transaction("", TEST_CODE, TEST_CALLING_UID, TEST_TIMESTAMP_NS);
    let result = handler.on_item(&task, &transaction, NOW_MS);
    assert!(result.is_err());
}

// Further cases of the library's own.

#[test]
fn binder_transaction_unknown_position_writes_nothing() {
    let (mut handler, task) = setup_handler_and_task(
        RecordingBridgeService::new(),
        vec![(
            TEST_CODE.into(),
            buffer(),
            Some(AtomConfig {
                atom_id: 7,
                atom_field_positions: vec![AtomFieldPosition::CODE, AtomFieldPosition::UNKNOWN],
            }),
        )],
    );
    let transaction = create_binder_transaction(TEST_INTERFACE_NAME, TEST_CODE, TEST_CALLING_UID, TEST_TIMESTAMP_NS);
    assert_eq!(handler.on_item(&task, &transaction, NOW_MS), Err(HandlerError::UnknownAtomFieldPosition));
    assert!(handler.atom_writer.written.is_empty());
    assert!(handler.bridge_service.events.is_empty());
}

#[test]
fn binder_transaction_calling_uid_is_annotated() {
    let (mut handler, task) = setup_handler_and_task(
        RecordingBridgeService::new(),
        vec![(
            TEST_CODE.into(),
            None,
            Some(AtomConfig { atom_id: 5, atom_field_positions: vec![AtomFieldPosition::CALLING_UID] }),
        )],
    );
    let transaction = create_binder_transaction(TEST_INTERFACE_NAME, TEST_CODE, TEST_CALLING_UID, TEST_TIMESTAMP_NS);
    handler.on_item(&task, &transaction, NOW_MS).unwrap();
    assert_eq!(
        handler.atom_writer.written,
        vec![UnstructuredAtom {
            atom_id: 5,
            fields: vec![Field::new_with_annotation(Value::Int32(TEST_CALLING_UID), FieldAnnotation::IsUid(true))],
        }]
    );
}

#[test]
fn binder_transaction_code_out_of_range() {
    let (mut handler, task) =
        setup_handler_and_task(RecordingBridgeService::new(), vec![(1u64 << 40, buffer(), None)]);
    let mut transaction = create_binder_transaction(TEST_INTERFACE_NAME, 0, TEST_CALLING_UID, TEST_TIMESTAMP_NS);
    transaction.code = 1u64 << 40;
    assert_eq!(handler.on_item(&task, &transaction, NOW_MS), Err(HandlerError::OutOfRange));
}

#[test]
fn binder_transaction_failed_send_is_reported() {
    let mut bridge = RecordingBridgeService::new();
    bridge.fail_enqueue = true;
    let (mut handler, task) = setup_handler_and_task(bridge, vec![(TEST_CODE.into(), buffer(), None)]);
    let transaction = create_binder_transaction(TEST_INTERFACE_NAME, TEST_CODE, TEST_CALLING_UID, TEST_TIMESTAMP_NS);
    assert!(matches!(handler.on_item(&task, &transaction, NOW_MS), Err(HandlerError::Bridge(_))));
}
