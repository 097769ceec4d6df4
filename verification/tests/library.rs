use uprobestats::atom::{AccessibilityRuntimePermissionGrantReported, Field, FieldAnnotation, Value};
use uprobestats::bpf_handler::HandlerError;
use uprobestats::bridge_service::{BridgeEvent, UprobeStatsBridgeService};
use uprobestats::bpf_map::{BinderCodesBpfMapValue, BinderInterfaceBpfMap, BinderInterfaceBpfMapKey, BpfMap};
use uprobestats::config_resolver::{
    ExecutableMethodFileOffsets, InterfaceConfig, InterfaceFilters, MethodConfig, MethodDescriptor, ResolvedProbe,
    ResolvedProcess, ResolvedTask, EventMode, EventServiceConfig,
};
use uprobestats::error::UprobeStatsError;
use uprobestats::offsets_retry::{OffsetsFailure, OffsetsRetry, RetryDecision, RetryError, MAX_RETRIES};
use uprobestats::platform::{is_at_least_cinnamon_bun, is_user_build};
use uprobestats::registry::{handler_for_map, map_path_of, HandlerKind, RegistryFlags};
use uprobestats::string::{append_decimal, append_signed_decimal, bytes_as_nonempty_str, bytes_as_str, contains_str, ends_with, starts_with, str_eq, StringError};
use uprobestats::task::{
    binder_filter_entries, cleanup_polled_bpf_maps, has_binder_probe, update_polled_bpf_maps, ActiveState, TaskError,
};
use uprobestats::telemetry::{
    bpf_map_path_to_enum, bpf_program_path_to_enum, convert_to_snapshot_type_enum, handler_error_report, path_file_name,
    BpfProgram, InternalErrorType, MapPath, SnapshotType,
};
use uprobestats::timer::{remaining_after, Timer};

#[test]
fn c_strings_are_read_up_to_the_first_nul() {
    assert_eq!(bytes_as_str(b"abc\0def"), Ok("abc".to_string()));
    assert_eq!(bytes_as_str(b"\0"), Ok("".to_string()));
    assert_eq!(bytes_as_str(b"abc"), Err(StringError::MissingNulTerminator));
    assert_eq!(bytes_as_str(&[0xff, 0xfe, 0]), Err(StringError::InvalidUtf8));
    assert_eq!(bytes_as_nonempty_str(b"\0abc"), Err(StringError::Empty));
    assert_eq!(bytes_as_nonempty_str("é\0".as_bytes()), Ok("é".to_string()));
}

#[test]
fn string_predicates() {
    assert!(str_eq("abc", "abc"));
    assert!(!str_eq("abc", "abd"));
    assert!(starts_with("android.permission.X", "android.permission"));
    assert!(!starts_with("android", "android.permission"));
    assert!(ends_with("libart.so", "so"));
    assert!(!ends_with("o", "so"));
    assert!(contains_str("prog_Binder_uprobe", "Binder"));
    assert!(!contains_str("prog_Bind", "Binder"));
    let mut s = String::from("n=");
    append_decimal(&mut s, 1234);
    append_signed_decimal(&mut s, -56);
    assert_eq!(s, "n=1234-56");
}

#[test]
fn fields_and_grants() {
    let f = Field::new_with_annotation(Value::Int32(1), FieldAnnotation::IsUid(true));
    assert_eq!(f.annotations, vec![FieldAnnotation::IsUid(true)]);
    assert!(Field::new(Value::Bool(true)).annotations.is_empty());
    let g = AccessibilityRuntimePermissionGrantReported::new(3, 99, "android.permission.CAMERA");
    assert_eq!(g.uid, 3);
    assert_eq!(g.timestamp_ns, 99);
    assert_eq!(g.permission_name, "android.permission.CAMERA");
    assert!(g.preceding_a11y_calls.is_empty());
}

#[test]
fn method_identifier_of_jit_and_aot_code() {
    let jit = ExecutableMethodFileOffsets { container_path: "/a/libart.so".to_string(), container_offset: 10, method_offset: 5 };
    assert_eq!(jit.method_identifier(), 10);
    let aot = ExecutableMethodFileOffsets { container_path: "/a/boot.oat".to_string(), container_offset: 10, method_offset: 5 };
    assert_eq!(aot.method_identifier(), 15);
}

#[test]
fn binder_map_codes_round_trip() {
    let value = BinderInterfaceBpfMap::to_c_value(&vec![3, 4]);
    assert_eq!(value.codes, vec![3, 4, 0, 0, 0, 0, 0, 0, 0, 0]);
    assert_eq!(BinderInterfaceBpfMap::from_c_value(&value), vec![3, 4, 0, 0, 0, 0, 0, 0, 0, 0]);
    let long: Vec<u64> = (1..=12).collect();
    assert_eq!(BinderInterfaceBpfMap::to_c_value(&long).codes, (1..=10).collect::<Vec<u64>>());
    let full: Vec<u64> = (1..=10).collect();
    assert_eq!(BinderInterfaceBpfMap::from_c_value(&BinderInterfaceBpfMap::to_c_value(&full)), full);
    let raw = BinderCodesBpfMapValue { codes: vec![9; 10] };
    assert_eq!(BinderInterfaceBpfMap::from_c_value(&raw), vec![9; 10]);
}

#[test]
fn binder_map_key_round_trip() {
    let key = BinderInterfaceBpfMap::to_c_key(&"android.os.IServiceManager".to_string());
    assert_eq!(key.interface_descriptor.len(), 128);
    assert_eq!(&key.interface_descriptor[..26], b"android.os.IServiceManager");
    assert!(key.interface_descriptor[26..].iter().all(|b| *b == 0));
    assert_eq!(BinderInterfaceBpfMap::from_c_key(&key), "android.os.IServiceManager");
    let unterminated = BinderInterfaceBpfMapKey { interface_descriptor: vec![b'a'; 128] };
    assert_eq!(BinderInterfaceBpfMap::from_c_key(&unterminated), "");
    assert_eq!(BinderInterfaceBpfMap::map_path(), "/sys/fs/bpf/uprobestats/map_Binder_interfaces");
}

#[test]
fn build_type_and_api_level() {
    assert!(is_user_build(Some("user")));
    assert!(!is_user_build(Some("userdebug")));
    assert!(!is_user_build(Some("eng")));
    assert!(is_user_build(None));
    assert!(is_at_least_cinnamon_bun(37));
    assert!(is_at_least_cinnamon_bun(40));
    assert!(!is_at_least_cinnamon_bun(36));
}

#[test]
fn program_and_map_paths_to_enums() {
    assert_eq!(
        bpf_program_path_to_enum("/sys/fs/bpf/uprobestats/prog_Binder_uprobe_exec_transact_internal"),
        BpfProgram::ProgBinderUprobeExecTransactInternal
    );
    assert_eq!(
        bpf_program_path_to_enum("prog_GenericInstrumentation_uprobe_call_timestamp"),
        BpfProgram::ProgGenericInstrumentationUprobeCallTimestamp
    );
    assert_eq!(bpf_program_path_to_enum("/sys/fs/bpf/uprobestats/prog_Other"), BpfProgram::BpfProgramUnspecified);
    assert_eq!(bpf_program_path_to_enum("/x/prog_Binder_uprobe_exec_transact_internal/"), BpfProgram::BpfProgramUnspecified);
    assert_eq!(
        bpf_map_path_to_enum("/sys/fs/bpf/uprobestats/map_Accessibility_output_buf"),
        MapPath::BpfMapPathAccessibilityOutputBuf
    );
    assert_eq!(bpf_map_path_to_enum("/sys/fs/bpf/uprobestats/map_Nope"), MapPath::BpfMapPathUnspecified);
    assert_eq!(path_file_name("/a/b/c"), "c");
    assert_eq!(path_file_name("c"), "c");
    assert_eq!(path_file_name("/a/"), "");
}

#[test]
fn snapshot_types_and_error_reports() {
    assert_eq!(convert_to_snapshot_type_enum(1), SnapshotType::SnapshotTypeMaxAllocationSize);
    assert_eq!(convert_to_snapshot_type_enum(2), SnapshotType::SnapshotTypeRandomSample);
    assert_eq!(convert_to_snapshot_type_enum(0), SnapshotType::SnapshotTypeUnspecified);
    assert_eq!(
        handler_error_report(&HandlerError::Uprobestats(UprobeStatsError::BpfProgramError(4))),
        (InternalErrorType::ErrorTypeBpfProgramError, 4)
    );
    assert_eq!(
        handler_error_report(&HandlerError::Uprobestats(UprobeStatsError::BpfDataInvalid(9))),
        (InternalErrorType::ErrorTypeBpfRingBufferDataInvalid, 9)
    );
    assert_eq!(handler_error_report(&HandlerError::OutOfRange), (InternalErrorType::ErrorTypeTaskExecutionFailed, 0));
}

#[test]
fn registry_selects_handlers_by_flags() {
    let mut flags = RegistryFlags::default();
    let bitmap = map_path_of(HandlerKind::BitmapAllocationV0);
    assert_eq!(handler_for_map(bitmap, &flags), Some(HandlerKind::BitmapAllocationV0));
    flags.enable_bitmap_snapshot = true;
    assert_eq!(handler_for_map(bitmap, &flags), Some(HandlerKind::BitmapAllocationV1));
    let a11y = map_path_of(HandlerKind::Accessibility);
    flags.a11y_runtime_permission = true;
    assert_eq!(handler_for_map(a11y, &flags), None);
    flags.at_least_cinnamon_bun = true;
    assert_eq!(handler_for_map(a11y, &flags), Some(HandlerKind::Accessibility));
    assert_eq!(handler_for_map(map_path_of(HandlerKind::BinderTransaction), &flags), None);
    assert_eq!(handler_for_map("/sys/fs/bpf/uprobestats/map_Unknown", &flags), None);
    assert_eq!(
        handler_for_map("/sys/fs/bpf/uprobestats/map_GenericInstrumentation_call_detail_buf", &flags),
        Some(HandlerKind::CallResult)
    );
}

#[test]
fn offsets_retry_doubles_and_gives_up() {
    let mut retry = OffsetsRetry::new();
    let mut pauses = vec![];
    loop {
        match retry.on_failure(OffsetsFailure::IllegalState) {
            RetryDecision::RetryAfter(ms) => pauses.push(ms),
            RetryDecision::GiveUp(e) => {
                assert_eq!(e, RetryError::Exhausted);
                break;
            },
        }
    }
    assert_eq!(pauses, vec![10, 20, 40, 80, 160]);
    assert_eq!(retry.retries, MAX_RETRIES);
    let mut other = OffsetsRetry::new();
    assert_eq!(other.on_failure(OffsetsFailure::Other), RetryDecision::GiveUp(RetryError::UnexpectedStatus));
    assert_eq!(
        other.on_failure(OffsetsFailure::OtherServiceSpecific(-3)),
        RetryDecision::GiveUp(RetryError::UnexpectedServiceSpecificError(-3))
    );
    assert_eq!(other, OffsetsRetry::new());
}

#[test]
fn timer_remaining() {
    assert_eq!(remaining_after(1000, 300), Some(700));
    assert_eq!(remaining_after(1000, 1000), Some(0));
    assert_eq!(remaining_after(1000, 1001), None);
    let timer = Timer::new(60_000);
    let left = timer.remaining_millis().unwrap();
    assert!(left <= 60_000);
}

fn task_with_maps(maps: &[&str]) -> ResolvedTask {
    ResolvedTask {
        id: 1,
        duration_secs: 1,
        resolved_process: ResolvedProcess { pid: 1, uid: 1, name: "p".to_string() },
        resolved_probes: vec![],
        bpf_map_paths: maps.iter().map(|m| m.to_string()).collect(),
        statsd_logging_config: None,
    }
}

#[test]
fn polled_maps_update_and_cleanup() {
    let mut state: Option<ActiveState> = None;
    let t1 = task_with_maps(&["a", "b"]);
    let t2 = task_with_maps(&["c"]);
    let t3 = task_with_maps(&["b", "d"]);
    update_polled_bpf_maps(&mut state, &t1).unwrap();
    update_polled_bpf_maps(&mut state, &t2).unwrap();
    assert_eq!(update_polled_bpf_maps(&mut state, &t3), Err(TaskError::MapsInUse(vec!["b".to_string()])));
    cleanup_polled_bpf_maps(&mut state, &t1);
    assert!(state.is_some());
    update_polled_bpf_maps(&mut state, &t3).unwrap();
    cleanup_polled_bpf_maps(&mut state, &t3);
    cleanup_polled_bpf_maps(&mut state, &t2);
    assert!(state.is_none());
}

#[test]
fn active_state_new_then_cleanup() {
    let mut state = Some(ActiveState::new(vec!["x".to_string(), "x".to_string()]));
    cleanup_polled_bpf_maps(&mut state, &task_with_maps(&["x"]));
    assert!(state.is_none());
}

fn probe(path: &str, filters: InterfaceFilters) -> ResolvedProbe {
    ResolvedProbe {
        method_descriptor: MethodDescriptor {
            fully_qualified_class_name: "c".to_string(),
            method_name: "m".to_string(),
            fully_qualified_parameters: vec![],
        },
        offsets: ExecutableMethodFileOffsets { container_path: "f".to_string(), container_offset: 0, method_offset: 0 },
        bpf_program_path: path.to_string(),
        binder_transaction_filters: filters,
    }
}

fn method() -> MethodConfig {
    MethodConfig { event_service_config: Some(EventServiceConfig { mode: EventMode::Buffer }), atom_config: None }
}

#[test]
fn binder_filter_entries_of_probes() {
    let mut interface = InterfaceConfig::new();
    interface.insert_method(3, method()).unwrap();
    interface.insert_method(7, method()).unwrap();
    let mut filters = InterfaceFilters::new();
    filters.insert("android.os.IFoo".to_string(), interface).unwrap();
    let binder = probe("/sys/fs/bpf/uprobestats/prog_Binder_uprobe_exec_transact_internal", filters);
    let other = probe("/sys/fs/bpf/uprobestats/prog_Other", InterfaceFilters::new());
    let probes = vec![other, binder];
    assert!(has_binder_probe(&probes));
    assert_eq!(binder_filter_entries(&probes), Ok(vec![("android.os.IFoo".to_string(), vec![3, 7])]));

    let empty = vec![probe("/sys/fs/bpf/uprobestats/prog_Binder_uprobe_exec_transact_internal", InterfaceFilters::new())];
    assert_eq!(binder_filter_entries(&empty), Err(TaskError::MissingBinderFilter));

    let mut no_methods = InterfaceFilters::new();
    no_methods.insert("android.os.IBar".to_string(), InterfaceConfig::new()).unwrap();
    let bare = vec![probe("prog_Binder_uprobe_exec_transact_internal", no_methods)];
    assert_eq!(binder_filter_entries(&bare), Err(TaskError::MissingMethodIds("android.os.IBar".to_string())));
    assert!(!has_binder_probe(&vec![probe("prog_Other", InterfaceFilters::new())]));
}

#[test]
fn recording_bridge_service_answers_from_its_tables() {
    let mut bridge = uprobestats::bridge_service::RecordingBridgeService::new();
    bridge.uids.push(("com.example.a".to_string(), 10001));
    bridge.uids.push(("com.example.a".to_string(), 10002));
    bridge.accessibility_packages.push(("com.example.a".to_string(), true));
    bridge.launcher_activities.push(("com.example.a".to_string(), "Main".to_string(), true));
    assert_eq!(bridge.get_uid_for_package("com.example.a"), Ok(10001));
    assert_eq!(bridge.get_uid_for_package("com.example.b").unwrap_err().message, "unknown package: com.example.b");
    assert_eq!(bridge.package_has_enabled_accessibility_service("com.example.a"), Ok(true));
    assert!(bridge.package_has_enabled_accessibility_service("com.example.b").is_err());
    assert_eq!(bridge.is_launcher_activity("com.example.a", "Main", false), Ok(true));
    assert_eq!(
        bridge.is_launcher_activity("com.example.a", "Other", true).unwrap_err().message,
        "unknown package: com.example.a"
    );
    let event = BridgeEvent {
        uid: 1,
        timestamp_ms: 2,
        payload_id: uprobestats::bridge_service::PayloadId::A11y,
        payload: vec![],
    };
    assert!(bridge.enqueue_event(event.clone(), true).is_ok());
    assert_eq!(bridge.events, vec![(event.clone(), true)]);
    bridge.fail_enqueue = true;
    assert_eq!(bridge.enqueue_event(event, false).unwrap_err().message, "enqueueEvent failed");
    assert_eq!(bridge.events.len(), 1);
}
