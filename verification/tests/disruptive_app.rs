use uprobestats::atom::{CodegenAtom, RecordingAtomWriter};
use uprobestats::bpf_handler::disruptive_app::{
    bind_outcome, component_outcome, uid_package, BindAnswers, BindServiceLocked, BindServiceLockedHandler,
    ComponentEnabledSetting, ComponentEnabledSettingHandler, LauncherAnswers, BIND_ALLOW_BACKGROUND_ACTIVITY_STARTS, COMPONENT_ENABLED_STATE_DISABLED,
};
use uprobestats::bpf_handler::HandlerError;
use uprobestats::bridge_service::{EntryValue, FixedDeviceProperties, PayloadId, RecordingBridgeService};
use uprobestats::config_resolver::{ResolvedProcess, ResolvedTask};
use uprobestats::error::UprobeStatsError;

const NOW_MS: i64 = 1_234_567;

type ComponentHandler =
    ComponentEnabledSettingHandler<RecordingAtomWriter<CodegenAtom>, RecordingBridgeService, FixedDeviceProperties>;
type BindHandler =
    BindServiceLockedHandler<RecordingAtomWriter<CodegenAtom>, RecordingBridgeService, FixedDeviceProperties>;

fn task() -> ResolvedTask {
    ResolvedTask {
        id: 1,
        duration_secs: 0,
        resolved_process: ResolvedProcess { pid: 0, uid: 0, name: "".to_string() },
        resolved_probes: vec![],
        bpf_map_paths: vec![],
        statsd_logging_config: None,
    }
}

fn setup_component_handler(bridge: RecordingBridgeService, is_user_build: bool) -> (ComponentHandler, ResolvedTask) {
    let handler =
        ComponentEnabledSettingHandler::new(RecordingAtomWriter::new(), bridge, FixedDeviceProperties { is_user_build });
    (handler, task())
}

fn setup_bind_service_handler(bridge: RecordingBridgeService, is_user_build: bool) -> (BindHandler, ResolvedTask) {
    let handler =
        BindServiceLockedHandler::new(RecordingAtomWriter::new(), bridge, FixedDeviceProperties { is_user_build });
    (handler, task())
}

fn c_str_arr(s: &str) -> Vec<u8> {
    let mut arr = vec![0u8; 128];
    arr[..s.len()].copy_from_slice(s.as_bytes());
    arr
}

fn create_component_enabled_setting(
    package_name: &str,
    class_name: &str,
    new_state: i32,
    calling_package_name: &str,
) -> ComponentEnabledSetting {
    ComponentEnabledSetting {
        error_code: 0,
        package_name: c_str_arr(package_name),
        class_name: c_str_arr(class_name),
        new_state,
        calling_package_name: c_str_arr(calling_package_name),
    }
}

fn create_bind_service_locked(
    intent_package: &str,
    intent_component_name_package: &str,
    calling_package: &str,
    bind_flags: i64,
    intent_action: Option<&str>,
    intent_component_name_class: Option<&str>,
) -> BindServiceLocked {
    BindServiceLocked {
        error_code: 0,
        intent_package: c_str_arr(intent_package),
        intent_component_name_package: c_str_arr(intent_component_name_package),
        calling_package: c_str_arr(calling_package),
        bind_flags,
        intent_action: c_str_arr(intent_action.unwrap_or("")),
        intent_component_name_class: c_str_arr(intent_component_name_class.unwrap_or("")),
    }
}

fn launcher_bridge(launcher: bool, uids: &[(&str, i32)]) -> RecordingBridgeService {
    let mut bridge = RecordingBridgeService::new();
    bridge.launcher_activities.push(("pkg".to_string(), "cls".to_string(), launcher));
    for (name, uid) in uids {
        bridge.uids.push((name.to_string(), *uid));
    }
    bridge
}

fn uid_bridge(uids: &[(&str, i32)]) -> RecordingBridgeService {
    let mut bridge = RecordingBridgeService::new();
    for (name, uid) in uids {
        bridge.uids.push((name.to_string(), *uid));
    }
    bridge
}

fn assert_disabled_launcher_activity_event(
    bridge: &RecordingBridgeService,
    disabled_uid: i32,
    disabled_pkg: &str,
    class_name: &str,
    calling_pkg: &str,
) {
    assert_eq!(bridge.events.len(), 1);
    let (event, _flush) = &bridge.events[0];
    assert_eq!(event.uid, disabled_uid);
    assert_eq!(event.timestamp_ms, NOW_MS);
    assert_eq!(event.payload_id, PayloadId::DisabledLauncherActivity);
    let has = |key: &str, value: &str| {
        event.payload.iter().any(|e| e.key == key && e.value == EntryValue::StringValue(value.to_string()))
    };
    assert!(has("PACKAGE_NAME", disabled_pkg));
    assert!(has("CLASS_NAME", class_name));
    assert!(has("CALLING_PACKAGE_NAME", calling_pkg));
}

fn assert_bind_service_with_bal_event(
    bridge: &RecordingBridgeService,
    binder_pkg: &str,
    intent_pkg: &str,
    intent_action: &str,
    component_pkg: &str,
    component_class: &str,
) {
    assert_eq!(bridge.events.len(), 1);
    let (event, _flush) = &bridge.events[0];
    assert_eq!(event.uid, 0);
    assert_eq!(event.payload_id, PayloadId::BindAllowBackgroundActivityStarts);
    let has = |key: &str, value: &str| {
        event.payload.iter().any(|e| e.key == key && e.value == EntryValue::StringValue(value.to_string()))
    };
    assert!(has("CALLING_PACKAGE", binder_pkg));
    assert!(has("INTENT_PACKAGE", intent_pkg));
    assert!(has("INTENT_ACTION", intent_action));
    assert!(has("INTENT_COMPONENT_NAME_PACKAGE", component_pkg));
    assert!(has("INTENT_COMPONENT_NAME_CLASS", component_class));
}

#[test]
fn disruptive_app_component_enabled_setting_enabled_is_ignored() {
    let (mut handler, task) = setup_component_handler(RecordingBridgeService::new(), false);
    let data = create_component_enabled_setting("pkg", "cls", 1, "caller");
    handler.on_item(&task, &data, NOW_MS).unwrap();
    assert!(handler.writer.written.is_empty());
}

fn assert_component_enabled_setting_launcher_activity(is_user_build: bool) {
    const CALLING_PKG: &str = "caller";
    const DISABLED_PKG: &str = "pkg";
    const CLASS_NAME: &str = "cls";
    const CALLING_UID: i32 = 123;
    const DISABLED_UID: i32 = 456;

    let bridge = launcher_bridge(true, &[(CALLING_PKG, CALLING_UID), (DISABLED_PKG, DISABLED_UID)]);
    let (mut handler, task) = setup_component_handler(bridge, is_user_build);
    let data = create_component_enabled_setting(DISABLED_PKG, CLASS_NAME, COMPONENT_ENABLED_STATE_DISABLED, CALLING_PKG);
    handler.on_item(&task, &data, NOW_MS).unwrap();

    let expected_len = if is_user_build { 1 } else { 2 };
    assert_eq!(handler.writer.written.len(), expected_len);
    if !is_user_build {
        let atom1 = &handler.writer.written[0];
        if let CodegenAtom::SetComponentEnabledSettingReported {
            package_name,
            class_name,
            new_state,
            calling_package_name,
            is_launcher_activity,
        } = atom1
        {
            assert_eq!(package_name, DISABLED_PKG);
            assert_eq!(class_name, CLASS_NAME);
            assert_eq!(*new_state, COMPONENT_ENABLED_STATE_DISABLED);
            assert_eq!(calling_package_name, CALLING_PKG);
            assert!(*is_launcher_activity);
        } else {
            panic!("Wrong atom written: {:?}", atom1);
        }
    }
    let atom2 = handler.writer.written.last().unwrap();
    if let CodegenAtom::DisabledLauncherActivityUidsReported { calling_uid, disabled_activity_uid } = atom2 {
        assert_eq!(*calling_uid, CALLING_UID);
        assert_eq!(*disabled_activity_uid, DISABLED_UID);
    } else {
        panic!("Wrong atom written: {:?}", atom2);
    }
    assert_disabled_launcher_activity_event(&handler.bridge_service, DISABLED_UID, DISABLED_PKG, CLASS_NAME, CALLING_PKG);
}

#[test]
fn component_enabled_setting_launcher_activity() {
    assert_component_enabled_setting_launcher_activity(true);
    assert_component_enabled_setting_launcher_activity(false);
}

#[test]
fn disruptive_app_component_enabled_setting_non_launcher_activity() {
    let (mut handler, task) = setup_component_handler(launcher_bridge(false, &[]), false);
    let data = create_component_enabled_setting("pkg", "cls", COMPONENT_ENABLED_STATE_DISABLED, "caller");
    handler.on_item(&task, &data, NOW_MS).unwrap();
    assert_eq!(handler.writer.written.len(), 1);
    let atom = &handler.writer.written[0];
    if let CodegenAtom::SetComponentEnabledSettingReported { .. } = atom {
    } else {
        panic!("Wrong atom written: {:?}", atom);
    }
    assert!(handler.bridge_service.events.is_empty());
}

#[test]
fn disruptive_app_component_enabled_setting_shell_caller() {
    const CALLING_UID: i32 = 123;
    const DISABLED_UID: i32 = 456;
    let bridge = launcher_bridge(true, &[("com.android.shell", CALLING_UID), ("pkg", DISABLED_UID)]);
    let (mut handler, task) = setup_component_handler(bridge, true);
    let data = create_component_enabled_setting("pkg", "cls", COMPONENT_ENABLED_STATE_DISABLED, "shell");
    handler.on_item(&task, &data, NOW_MS).unwrap();
    assert_eq!(handler.writer.written.len(), 1);
    let atom = &handler.writer.written[0];
    if let CodegenAtom::DisabledLauncherActivityUidsReported { calling_uid, disabled_activity_uid } = atom {
        assert_eq!(*calling_uid, CALLING_UID);
        assert_eq!(*disabled_activity_uid, DISABLED_UID);
    } else {
        panic!("Wrong atom written: {:?}", atom);
    }
    assert_disabled_launcher_activity_event(&handler.bridge_service, DISABLED_UID, "pkg", "cls", "shell");
}

#[test]
fn disruptive_app_bind_service_locked_no_bal_is_ignored() {
    let (mut handler, task) = setup_bind_service_handler(RecordingBridgeService::new(), false);
    let data = create_bind_service_locked("pkg", "comp_pkg", "caller", 0, None, None);
    handler.on_item(&task, &data, NOW_MS).unwrap();
    assert!(handler.writer.written.is_empty());
    assert!(handler.bridge_service.events.is_empty());
}

fn assert_bind_service_locked_with_bal(is_user_build: bool) {
    const BINDER_PKG: &str = "caller";
    const BINDEE_PKG: &str = "pkg";
    const BINDER_UID: i32 = 123;
    const BINDEE_UID: i32 = 456;
    const INTENT_ACTION: &str = "action";
    const COMPONENT_PACKAGE: &str = "comp_pkg";
    const COMPONENT_CLASS: &str = "comp_cls";

    let bridge = uid_bridge(&[(BINDER_PKG, BINDER_UID), (BINDEE_PKG, BINDEE_UID)]);
    let (mut handler, task) = setup_bind_service_handler(bridge, is_user_build);
    let data = create_bind_service_locked(
        BINDEE_PKG,
        COMPONENT_PACKAGE,
        BINDER_PKG,
        BIND_ALLOW_BACKGROUND_ACTIVITY_STARTS,
        Some(INTENT_ACTION),
        Some(COMPONENT_CLASS),
    );
    handler.on_item(&task, &data, NOW_MS).unwrap();

    let expected_len = if is_user_build { 1 } else { 2 };
    assert_eq!(handler.writer.written.len(), expected_len);
    if !is_user_build {
        let atom1 = &handler.writer.written[0];
        if let CodegenAtom::BindServiceLockedWithBalFlagsReported { .. } = atom1 {
        } else {
            panic!("Wrong atom written: {:?}", atom1);
        }
    }
    let atom2 = handler.writer.written.last().unwrap();
    if let CodegenAtom::BindServiceLockedWithBalFlagsUidsReported { binder_uid, bindee_uid } = atom2 {
        assert_eq!(*binder_uid, BINDER_UID);
        assert_eq!(*bindee_uid, BINDEE_UID);
    } else {
        panic!("Wrong atom written: {:?}", atom2);
    }
    assert_bind_service_with_bal_event(
        &handler.bridge_service,
        BINDER_PKG,
        BINDEE_PKG,
        INTENT_ACTION,
        COMPONENT_PACKAGE,
        COMPONENT_CLASS,
    );
}

#[test]
fn bind_service_locked_with_bal() {
    assert_bind_service_locked_with_bal(true);
    assert_bind_service_locked_with_bal(false);
}

#[test]
fn disruptive_app_bind_service_locked_with_bal_empty_intent_package() {
    const BINDER_PKG: &str = "caller";
    const BINDEE_PKG: &str = "comp_pkg";
    const BINDER_UID: i32 = 123;
    const BINDEE_UID: i32 = 456;
    let bridge = uid_bridge(&[(BINDER_PKG, BINDER_UID), (BINDEE_PKG, BINDEE_UID)]);
    let (mut handler, task) = setup_bind_service_handler(bridge, true);
    let data =
        create_bind_service_locked("", BINDEE_PKG, BINDER_PKG, BIND_ALLOW_BACKGROUND_ACTIVITY_STARTS, None, None);
    handler.on_item(&task, &data, NOW_MS).unwrap();
    assert_eq!(handler.writer.written.len(), 1);
    let atom = &handler.writer.written[0];
    if let CodegenAtom::BindServiceLockedWithBalFlagsUidsReported { binder_uid, bindee_uid } = atom {
        assert_eq!(*binder_uid, BINDER_UID);
        assert_eq!(*bindee_uid, BINDEE_UID);
    } else {
        panic!("Wrong atom written: {:?}", atom);
    }
    assert_bind_service_with_bal_event(&handler.bridge_service, BINDER_PKG, "", "", BINDEE_PKG, "");
}

#[test]
fn component_enabled_setting_empty_fields_fail() {
    let (mut handler, task) = setup_component_handler(launcher_bridge(false, &[]), false);
    let data = create_component_enabled_setting("", "cls", COMPONENT_ENABLED_STATE_DISABLED, "caller");
    assert!(handler.on_item(&task, &data, NOW_MS).is_err());
    let data = create_component_enabled_setting("pkg", "", COMPONENT_ENABLED_STATE_DISABLED, "caller");
    assert!(handler.on_item(&task, &data, NOW_MS).is_err());
    let data = create_component_enabled_setting("pkg", "cls", COMPONENT_ENABLED_STATE_DISABLED, "");
    assert!(handler.on_item(&task, &data, NOW_MS).is_ok());
}

#[test]
fn bind_service_locked_empty_calling_package_no_uid_atom() {
    let (mut handler, task) = setup_bind_service_handler(RecordingBridgeService::new(), false);
    let data = create_bind_service_locked("pkg", "comp_pkg", "", BIND_ALLOW_BACKGROUND_ACTIVITY_STARTS, None, None);
    handler.on_item(&task, &data, NOW_MS).unwrap();
    assert_eq!(handler.writer.written.len(), 1);
    if let CodegenAtom::BindServiceLockedWithBalFlagsReported { .. } = &handler.writer.written[0] {
    } else {
        panic!("Wrong atom written: {:?}", handler.writer.written[0]);
    }
    assert_bind_service_with_bal_event(&handler.bridge_service, "", "pkg", "", "comp_pkg", "");
}

#[test]
fn bind_service_locked_empty_intent_packages_no_uid_atom() {
    let (mut handler, task) = setup_bind_service_handler(RecordingBridgeService::new(), false);
    let data = create_bind_service_locked("", "", "caller", BIND_ALLOW_BACKGROUND_ACTIVITY_STARTS, None, None);
    handler.on_item(&task, &data, NOW_MS).unwrap();
    assert_eq!(handler.writer.written.len(), 1);
    if let CodegenAtom::BindServiceLockedWithBalFlagsReported { .. } = &handler.writer.written[0] {
    } else {
        panic!("Wrong atom written: {:?}", handler.writer.written[0]);
    }
    assert_bind_service_with_bal_event(&handler.bridge_service, "caller", "", "", "", "");
}

#[test]
fn bind_service_locked_all_empty_fails() {
    let (mut handler, task) = setup_bind_service_handler(RecordingBridgeService::new(), false);
    let data = create_bind_service_locked("", "", "", 0, None, None);
    assert!(handler.on_item(&task, &data, NOW_MS).is_err());
}

#[test]
fn component_enabled_setting_with_error_bails() {
    let (mut handler, task) = setup_component_handler(RecordingBridgeService::new(), false);
    let data = ComponentEnabledSetting { error_code: -1, ..create_component_enabled_setting("pkg", "cls", 2, "caller") };
    assert!(handler.on_item(&task, &data, NOW_MS).is_err());
    assert!(handler.writer.written.is_empty());
}

#[test]
fn bind_service_locked_with_error_bails() {
    let (mut handler, task) = setup_bind_service_handler(RecordingBridgeService::new(), false);
    let data = BindServiceLocked {
        error_code: -1,
        ..create_bind_service_locked("pkg", "comp_pkg", "caller", BIND_ALLOW_BACKGROUND_ACTIVITY_STARTS, None, None)
    };
    assert!(handler.on_item(&task, &data, NOW_MS).is_err());
    assert!(handler.writer.written.is_empty());
}

#[test]
fn component_enabled_setting_user_build() {
    const CALLING_UID: i32 = 123;
    const DISABLED_UID: i32 = 456;
    let bridge = launcher_bridge(true, &[("caller", CALLING_UID), ("pkg", DISABLED_UID)]);
    let (mut handler, task) = setup_component_handler(bridge, true);
    let data = create_component_enabled_setting("pkg", "cls", COMPONENT_ENABLED_STATE_DISABLED, "caller");
    handler.on_item(&task, &data, NOW_MS).unwrap();
    assert_eq!(handler.writer.written.len(), 1);
    let atom = &handler.writer.written[0];
    if let CodegenAtom::DisabledLauncherActivityUidsReported { calling_uid, disabled_activity_uid } = atom {
        assert_eq!(*calling_uid, CALLING_UID);
        assert_eq!(*disabled_activity_uid, DISABLED_UID);
    } else {
        panic!("Wrong atom written: {:?}", atom);
    }
}

#[test]
fn component_enabled_setting_non_user_build_launcher_activity() {
    const CALLING_UID: i32 = 123;
    const DISABLED_UID: i32 = 456;
    let bridge = launcher_bridge(true, &[("caller", CALLING_UID), ("pkg", DISABLED_UID)]);
    let (mut handler, task) = setup_component_handler(bridge, false);
    let data = create_component_enabled_setting("pkg", "cls", COMPONENT_ENABLED_STATE_DISABLED, "caller");
    handler.on_item(&task, &data, NOW_MS).unwrap();
    assert_eq!(handler.writer.written.len(), 2);
    let atom1 = &handler.writer.written[0];
    if let CodegenAtom::SetComponentEnabledSettingReported {
        package_name,
        class_name,
        new_state,
        calling_package_name,
        is_launcher_activity,
    } = atom1
    {
        assert_eq!(package_name, "pkg");
        assert_eq!(class_name, "cls");
        assert_eq!(*new_state, COMPONENT_ENABLED_STATE_DISABLED);
        assert_eq!(calling_package_name, "caller");
        assert!(*is_launcher_activity);
    } else {
        panic!("Wrong atom written: {:?}", atom1);
    }
    let atom2 = &handler.writer.written[1];
    if let CodegenAtom::DisabledLauncherActivityUidsReported { calling_uid, disabled_activity_uid } = atom2 {
        assert_eq!(*calling_uid, CALLING_UID);
        assert_eq!(*disabled_activity_uid, DISABLED_UID);
    } else {
        panic!("Wrong atom written: {:?}", atom2);
    }
}

#[test]
fn bind_service_locked_with_bal_user_build() {
    const BINDER_UID: i32 = 123;
    const BINDEE_UID: i32 = 456;
    let bridge = uid_bridge(&[("caller", BINDER_UID), ("pkg", BINDEE_UID)]);
    let (mut handler, task) = setup_bind_service_handler(bridge, true);
    let data = create_bind_service_locked("pkg", "", "caller", BIND_ALLOW_BACKGROUND_ACTIVITY_STARTS, None, None);
    handler.on_item(&task, &data, NOW_MS).unwrap();
    assert_eq!(handler.writer.written.len(), 1);
    let atom = &handler.writer.written[0];
    if let CodegenAtom::BindServiceLockedWithBalFlagsUidsReported { binder_uid, bindee_uid } = atom {
        assert_eq!(*binder_uid, BINDER_UID);
        assert_eq!(*bindee_uid, BINDEE_UID);
    } else {
        panic!("Wrong atom written: {:?}", atom);
    }
}

#[test]
fn bind_service_locked_with_bal_non_user_build() {
    const BINDER_UID: i32 = 123;
    const BINDEE_UID: i32 = 456;
    let bridge = uid_bridge(&[("caller", BINDER_UID), ("pkg", BINDEE_UID)]);
    let (mut handler, task) = setup_bind_service_handler(bridge, false);
    let data = create_bind_service_locked("pkg", "", "caller", BIND_ALLOW_BACKGROUND_ACTIVITY_STARTS, None, None);
    handler.on_item(&task, &data, NOW_MS).unwrap();
    assert_eq!(handler.writer.written.len(), 2);
    let atom1 = &handler.writer.written[0];
    if let CodegenAtom::BindServiceLockedWithBalFlagsReported { .. } = atom1 {
    } else {
        panic!("Wrong atom written: {:?}", atom1);
    }
    let atom2 = &handler.writer.written[1];
    if let CodegenAtom::BindServiceLockedWithBalFlagsUidsReported { binder_uid, bindee_uid } = atom2 {
        assert_eq!(*binder_uid, BINDER_UID);
        assert_eq!(*bindee_uid, BINDEE_UID);
    } else {
        panic!("Wrong atom written: {:?}", atom2);
    }
}

// Further cases of the library's own.

#[test]
fn shell_caller_maps_to_shell_package() {
    assert_eq!(uid_package("shell"), "com.android.shell");
    assert_eq!(uid_package("caller"), "caller");
    assert_eq!(uid_package(""), "");
}

#[test]
fn component_enabled_setting_error_code_is_reported() {
    let (mut handler, task) = setup_component_handler(RecordingBridgeService::new(), false);
    let data = ComponentEnabledSetting { error_code: -7, ..create_component_enabled_setting("pkg", "cls", 2, "caller") };
    assert_eq!(
        handler.on_item(&task, &data, NOW_MS),
        Err(HandlerError::Uprobestats(UprobeStatsError::BpfProgramError(-7)))
    );
}

#[test]
fn component_enabled_setting_unknown_launcher_is_bridge_error() {
    let (mut handler, task) = setup_component_handler(RecordingBridgeService::new(), false);
    let data = create_component_enabled_setting("pkg", "cls", COMPONENT_ENABLED_STATE_DISABLED, "caller");
    assert!(matches!(handler.on_item(&task, &data, NOW_MS), Err(HandlerError::Bridge(_))));
    assert!(handler.writer.written.is_empty());
}

#[test]
fn bind_service_locked_all_empty_error() {
    let (mut handler, task) = setup_bind_service_handler(RecordingBridgeService::new(), false);
    let data = create_bind_service_locked("", "", "", BIND_ALLOW_BACKGROUND_ACTIVITY_STARTS, None, None);
    assert_eq!(handler.on_item(&task, &data, NOW_MS), Err(HandlerError::AllStringsEmpty));
}

#[test]
fn component_outcome_uses_the_given_answers() {
    let data = create_component_enabled_setting("pkg", "cls", 2, "shell");
    let answers = LauncherAnswers { is_launcher: Ok(true), calling_uid: Ok(123), disabled_uid: Ok(456), event_uid: Ok(789) };
    let (atoms, tail) = component_outcome(&data, true, 5, answers);
    assert_eq!(atoms, vec![CodegenAtom::DisabledLauncherActivityUidsReported { calling_uid: 123, disabled_activity_uid: 456 }]);
    let (event, flush) = tail.unwrap().unwrap();
    assert_eq!(event.uid, 789);
    assert_eq!(event.timestamp_ms, 5);
    assert_eq!(event.payload_id, PayloadId::DisabledLauncherActivity);
    assert!(!flush);
    let not_launcher = LauncherAnswers { is_launcher: Ok(false), calling_uid: Ok(1), disabled_uid: Ok(2), event_uid: Ok(3) };
    let (atoms, tail) = component_outcome(&data, false, 5, not_launcher);
    assert_eq!(atoms.len(), 1);
    assert!(matches!(tail, Ok(None)));
}

#[test]
fn bind_outcome_uses_the_given_answers() {
    let data = create_bind_service_locked("pkg", "comp_pkg", "caller", 0x00100000, Some("action"), Some("comp_cls"));
    let answers = BindAnswers { binder_uid: Ok(123), bindee_uid: Ok(456) };
    let (atoms, tail) = bind_outcome(&data, true, 7, answers);
    assert_eq!(atoms, vec![CodegenAtom::BindServiceLockedWithBalFlagsUidsReported { binder_uid: 123, bindee_uid: 456 }]);
    let (event, flush) = tail.unwrap().unwrap();
    assert_eq!(event.timestamp_ms, 7);
    assert_eq!(event.payload_id, PayloadId::BindAllowBackgroundActivityStarts);
    assert!(!flush);
    let failing = BindAnswers {
        binder_uid: Err(uprobestats::bridge_service::BridgeError { message: "no".to_string() }),
        bindee_uid: Ok(456),
    };
    let (atoms, tail) = bind_outcome(&data, true, 7, failing);
    assert!(atoms.is_empty());
    assert!(matches!(tail, Err(HandlerError::Bridge(_))));
}
