use uprobestats::atom::{Field, RecordingAtomWriter, UnstructuredAtom, Value};
use uprobestats::bpf_handler::art_test::{string_to_i64_hash, AotHandler, JitHandler, StartActivityAsUser};
use uprobestats::bpf_handler::generic_instrumentation::{
    CallResult, CallResultHandler, CallTimestamp, CallTimestampHandler, JAVA_ARGUMENT_REGISTER_OFFSET,
};
use uprobestats::bpf_handler::process_management::{
    SetUidTempAllowlistStateRecord, SetUidTempAllowlistStateRecordHandler, UpdateDeviceIdleTempAllowlistRecord,
    UpdateDeviceIdleTempAllowlistRecordHandler,
};
use uprobestats::bpf_handler::HandlerError;
use uprobestats::config::StatsdLoggingConfig;
use uprobestats::config_resolver::{
    ExecutableMethodFileOffsets, InterfaceFilters, MethodDescriptor, ResolvedProbe, ResolvedProcess, ResolvedTask,
};
use uprobestats::string::StringError;

fn create_task(statsd_logging_config: Option<StatsdLoggingConfig>) -> ResolvedTask {
    ResolvedTask {
        id: 1,
        duration_secs: 0,
        resolved_process: ResolvedProcess { pid: 0, uid: 0, name: "".to_string() },
        resolved_probes: vec![],
        bpf_map_paths: vec![],
        statsd_logging_config,
    }
}

fn create_task_with_atom_id(atom_id: i32) -> ResolvedTask {
    create_task(Some(StatsdLoggingConfig { atom_id: Some(atom_id), primitive_argument_positions: vec![] }))
}

fn create_task_without_logging_config() -> ResolvedTask {
    create_task(None)
}

fn reason_buffer(reason: &str) -> Vec<u8> {
    let mut bytes = vec![0u8; 256];
    bytes[..reason.len()].copy_from_slice(reason.as_bytes());
    bytes
}

#[test]
fn call_timestamp_handler_writes_atom() {
    let mut handler = CallTimestampHandler::new(RecordingAtomWriter::<UnstructuredAtom>::new());
    let task = create_task_with_atom_id(123);
    let data = CallTimestamp { event: 456, timestamp_ns: 789 };
    handler.on_item(&task, &data).unwrap();
    assert_eq!(handler.writer.written.len(), 1);
    let atom = &handler.writer.written[0];
    assert_eq!(atom.atom_id, 123);
    assert_eq!(atom.fields, vec![Field::new(Value::Int32(456)), Field::new(Value::Int64(789))]);
}

#[test]
fn call_result_handler_writes_atom() {
    let mut handler = CallResultHandler::new(RecordingAtomWriter::<UnstructuredAtom>::new());
    let mut task = create_task_with_atom_id(123);
    task.statsd_logging_config.as_mut().unwrap().primitive_argument_positions.push(1);
    task.statsd_logging_config.as_mut().unwrap().primitive_argument_positions.push(3);
    let mut data = CallResult { pc: 0, regs: [0; 10] };
    data.regs[JAVA_ARGUMENT_REGISTER_OFFSET as usize + 1] = 101;
    data.regs[JAVA_ARGUMENT_REGISTER_OFFSET as usize + 3] = 103;
    handler.on_item(&task, &data).unwrap();
    assert_eq!(handler.writer.written.len(), 1);
    let atom = &handler.writer.written[0];
    assert_eq!(atom.atom_id, 123);
    assert_eq!(atom.fields, vec![Field::new(Value::Int32(101)), Field::new(Value::Int32(103))]);
}

#[test]
fn call_timestamp_handler_no_logging_config_does_not_write_atom() {
    let mut handler = CallTimestampHandler::new(RecordingAtomWriter::<UnstructuredAtom>::new());
    let task = create_task_without_logging_config();
    let data = CallTimestamp { event: 456, timestamp_ns: 789 };
    handler.on_item(&task, &data).unwrap();
    assert!(handler.writer.written.is_empty());
}

#[test]
fn call_result_handler_no_logging_config_does_not_write_atom() {
    let mut handler = CallResultHandler::new(RecordingAtomWriter::<UnstructuredAtom>::new());
    let task = create_task_without_logging_config();
    let data = CallResult { pc: 0, regs: [0; 10] };
    handler.on_item(&task, &data).unwrap();
    assert!(handler.writer.written.is_empty());
}

#[test]
fn set_uid_temp_allowlist_state_record_handler_writes_atom() {
    let mut handler = SetUidTempAllowlistStateRecordHandler::new(RecordingAtomWriter::<UnstructuredAtom>::new());
    let task = create_task_with_atom_id(123);
    let data = SetUidTempAllowlistStateRecord { uid: 456, on_allowlist: true };
    handler.on_item(&task, &data).unwrap();
    assert_eq!(handler.writer.written.len(), 1);
    let atom = &handler.writer.written[0];
    assert_eq!(atom.atom_id, 123);
    assert_eq!(atom.fields, vec![Field::new(Value::Int32(456)), Field::new(Value::Bool(true))]);
}

#[test]
fn set_uid_temp_allowlist_state_record_handler_no_logging_config_does_not_write_atom() {
    let mut handler = SetUidTempAllowlistStateRecordHandler::new(RecordingAtomWriter::<UnstructuredAtom>::new());
    let task = create_task_without_logging_config();
    let data = SetUidTempAllowlistStateRecord { uid: 456, on_allowlist: true };
    handler.on_item(&task, &data).unwrap();
    assert!(handler.writer.written.is_empty());
}

#[test]
fn update_device_idle_temp_allowlist_record_handler_writes_atom() {
    let mut handler = UpdateDeviceIdleTempAllowlistRecordHandler::new(RecordingAtomWriter::<UnstructuredAtom>::new());
    let task = create_task_with_atom_id(123);
    let data = UpdateDeviceIdleTempAllowlistRecord {
        changing_uid: 1001,
        adding: true,
        duration_ms: 5000,
        type_: 1,
        reason_code: 2,
        reason: reason_buffer("test reason"),
        calling_uid: 1002,
        method_identifier: 0,
    };
    handler.on_item(&task, &data).unwrap();
    assert_eq!(handler.writer.written.len(), 1);
    let atom = &handler.writer.written[0];
    assert_eq!(atom.atom_id, 123);
    assert_eq!(
        atom.fields,
        vec![
            Field::new(Value::Int32(1001)),
            Field::new(Value::Bool(true)),
            Field::new(Value::Int64(5000)),
            Field::new(Value::Int32(1)),
            Field::new(Value::Int32(2)),
            Field::new(Value::String("test reason".to_string())),
            Field::new(Value::Int32(1002)),
        ]
    );
}

#[test]
fn update_device_idle_temp_allowlist_record_handler_no_logging_config_does_not_write_atom() {
    let mut handler = UpdateDeviceIdleTempAllowlistRecordHandler::new(RecordingAtomWriter::<UnstructuredAtom>::new());
    let task = create_task_without_logging_config();
    let data = UpdateDeviceIdleTempAllowlistRecord {
        changing_uid: 0,
        adding: false,
        duration_ms: 0,
        type_: 0,
        reason_code: 0,
        reason: vec![0u8; 256],
        calling_uid: 0,
        method_identifier: 0,
    };
    handler.on_item(&task, &data).unwrap();
    assert!(handler.writer.written.is_empty());
}

// Further cases of the library's own.

#[test]
fn logging_config_without_atom_id_is_an_error() {
    let mut handler = CallTimestampHandler::new(RecordingAtomWriter::<UnstructuredAtom>::new());
    let task = create_task(Some(StatsdLoggingConfig { atom_id: None, primitive_argument_positions: vec![] }));
    let data = CallTimestamp { event: 1, timestamp_ns: 2 };
    assert_eq!(handler.on_item(&task, &data), Err(HandlerError::MissingAtomId));
}

#[test]
fn uid_out_of_i32_range_is_an_error() {
    let mut handler = SetUidTempAllowlistStateRecordHandler::new(RecordingAtomWriter::<UnstructuredAtom>::new());
    let task = create_task_with_atom_id(1);
    let data = SetUidTempAllowlistStateRecord { uid: u32::MAX, on_allowlist: false };
    assert_eq!(handler.on_item(&task, &data), Err(HandlerError::OutOfRange));
    assert!(handler.writer.written.is_empty());
}

#[test]
fn unterminated_reason_is_an_error() {
    let mut handler = UpdateDeviceIdleTempAllowlistRecordHandler::new(RecordingAtomWriter::<UnstructuredAtom>::new());
    let task = create_task_with_atom_id(1);
    let data = UpdateDeviceIdleTempAllowlistRecord {
        changing_uid: 0,
        adding: false,
        duration_ms: 0,
        type_: 0,
        reason_code: 0,
        reason: vec![b'x'; 256],
        calling_uid: 0,
        method_identifier: 0,
    };
    assert_eq!(handler.on_item(&task, &data), Err(HandlerError::InvalidString(StringError::MissingNulTerminator)));
}

fn art_task(container_path: &str, container_offset: u64, method_offset: u64, atom_id: Option<i32>) -> ResolvedTask {
    let mut task = create_task(atom_id.map(|id| StatsdLoggingConfig { atom_id: Some(id), primitive_argument_positions: vec![] }));
    task.resolved_probes.push(ResolvedProbe {
        method_descriptor: MethodDescriptor {
            fully_qualified_class_name: "c".to_string(),
            method_name: "m".to_string(),
            fully_qualified_parameters: vec![],
        },
        offsets: ExecutableMethodFileOffsets { container_path: container_path.to_string(), container_offset, method_offset },
        bpf_program_path: "p".to_string(),
        binder_transaction_filters: InterfaceFilters::new(),
    });
    task
}

#[test]
fn jit_handler_writes_hashed_calling_package() {
    let mut handler = JitHandler::new(RecordingAtomWriter::<UnstructuredAtom>::new());
    let task = art_task("/apex/com.android.art/lib64/libart.so", 4096, 16, Some(77));
    let mut calling_package = vec![0u8; 128];
    calling_package[..3].copy_from_slice(b"pkg");
    let item = StartActivityAsUser {
        calling_package,
        method_identifier: 4096,
        request_code: 0,
        start_flags: 0,
        user_id: 10,
        validate_incoming_user: true,
        x0: 0,
    };
    handler.on_item(&task, &item).unwrap();
    assert_eq!(
        handler.writer.written,
        vec![UnstructuredAtom {
            atom_id: 77,
            fields: vec![
                Field::new(Value::Int64(1)),
                Field::new(Value::Int64(10)),
                Field::new(Value::Int64(string_to_i64_hash("pkg"))),
            ],
        }]
    );
}

#[test]
fn aot_handler_without_logging_config_writes_nothing() {
    let mut handler = AotHandler::new(RecordingAtomWriter::<UnstructuredAtom>::new());
    let task = art_task("/system/framework/services.odex", 100, 20, None);
    let item = UpdateDeviceIdleTempAllowlistRecord {
        changing_uid: 0,
        adding: true,
        duration_ms: 0,
        type_: 0,
        reason_code: 3,
        reason: reason_buffer("r"),
        calling_uid: 0,
        method_identifier: 120,
    };
    handler.on_item(&task, &item).unwrap();
    assert!(handler.writer.written.is_empty());
}

#[test]
fn aot_handler_writes_hashed_reason() {
    let mut handler = AotHandler::new(RecordingAtomWriter::<UnstructuredAtom>::new());
    let task = art_task("/system/framework/services.odex", 100, 20, Some(5));
    let item = UpdateDeviceIdleTempAllowlistRecord {
        changing_uid: 0,
        adding: false,
        duration_ms: 0,
        type_: 0,
        reason_code: 3,
        reason: reason_buffer("why"),
        calling_uid: 0,
        method_identifier: 120,
    };
    handler.on_item(&task, &item).unwrap();
    assert_eq!(
        handler.writer.written,
        vec![UnstructuredAtom {
            atom_id: 5,
            fields: vec![
                Field::new(Value::Int64(0)),
                Field::new(Value::Int64(3)),
                Field::new(Value::Int64(string_to_i64_hash("why"))),
            ],
        }]
    );
}

#[test]
fn string_hash_is_deterministic_and_distinguishes() {
    assert_eq!(string_to_i64_hash("abc"), string_to_i64_hash("abc"));
    assert_ne!(string_to_i64_hash("abc"), string_to_i64_hash("abd"));
}

#[test]
fn aot_handler_checks_the_logging_config_before_the_reason() {
    let item = UpdateDeviceIdleTempAllowlistRecord {
        changing_uid: 0,
        adding: true,
        duration_ms: 0,
        type_: 0,
        reason_code: 3,
        reason: vec![0xff, 0xfe, 0],
        calling_uid: 0,
        method_identifier: 120,
    };
    let mut handler = AotHandler::new(RecordingAtomWriter::<UnstructuredAtom>::new());
    let without_config = art_task("/system/framework/services.odex", 100, 20, None);
    assert_eq!(handler.on_item(&without_config, &item), Ok(()));
    let mut without_atom_id = art_task("/system/framework/services.odex", 100, 20, Some(5));
    without_atom_id.statsd_logging_config = Some(StatsdLoggingConfig { atom_id: None, primitive_argument_positions: vec![] });
    assert_eq!(handler.on_item(&without_atom_id, &item), Err(HandlerError::MissingAtomId));
    let with_atom_id = art_task("/system/framework/services.odex", 100, 20, Some(5));
    assert!(matches!(handler.on_item(&with_atom_id, &item), Err(HandlerError::InvalidString(_))));
    assert!(handler.writer.written.is_empty());
}
