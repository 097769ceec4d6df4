use uprobestats::config::{
    AtomConfig as ProtoAtomConfig, AtomFieldPosition, BinderTransactionFilter, EventServiceConfig as ProtoEventServiceConfig,
    MethodConfig as ProtoMethodConfig, ProbeConfig, Task, UprobestatsConfig,
};
use uprobestats::config_resolver::{
    prefix_bpf, resolve_binder_transaction_filters, resolve_config, resolve_probes, resolve_single_task, AtomConfig,
    ConfigError, ConfigGuardrail, EventMode, EventServiceConfig, ExecutableMethodFileOffsets, FeatureFlags,
    InterfaceConfig, MethodConfig, MethodDescriptor, OffsetResolver, ProcessResolver, ResolveError, ResolvedProbe,
    ResolvedProcess, ResolvedTask, BINDER_BPF_PROGRAM_NAME,
};

fn all_flags() -> FeatureFlags {
    FeatureFlags {
        monitor_disruptive_app_activities: true,
        enable_bitmap_snapshot: true,
        enable_bitmap_instrumentation: true,
        enable_binder_transaction: true,
        enable_bitmap_scaled_instrumentation: true,
        a11y_runtime_permission: true,
    }
}

fn no_flags() -> FeatureFlags {
    FeatureFlags {
        monitor_disruptive_app_activities: false,
        enable_bitmap_snapshot: false,
        enable_bitmap_instrumentation: false,
        enable_binder_transaction: false,
        enable_bitmap_scaled_instrumentation: false,
        a11y_runtime_permission: false,
    }
}

fn make_task(duration: i32) -> Task {
    Task { duration_seconds: Some(duration), ..Task::default() }
}

fn make_probe(bpf_name: &str, class: &str, method: &str) -> ProbeConfig {
    ProbeConfig {
        bpf_name: Some(bpf_name.to_string()),
        fully_qualified_class_name: Some(class.to_string()),
        method_name: Some(method.to_string()),
        ..ProbeConfig::default()
    }
}

fn default_probe() -> ProbeConfig {
    make_probe("test.bpf.o", "com.example.Test", "testMethod")
}

fn default_resolved_process() -> ResolvedProcess {
    ResolvedProcess { name: "test_process".to_string(), pid: 123, uid: 456 }
}

fn make_filter(interface: Option<&str>, methods: Vec<(i64, Option<bool>, Option<i32>)>) -> BinderTransactionFilter {
    BinderTransactionFilter {
        interface_name: interface.map(|s| s.to_string()),
        method_configs: methods
            .into_iter()
            .map(|(method_id, flush, atom_id)| ProtoMethodConfig {
                method_id: Some(method_id),
                event_service_config: flush.map(|f| ProtoEventServiceConfig { flush: Some(f) }),
                atom_config: atom_id.map(|id| ProtoAtomConfig { atom_id: Some(id), atom_field_positions: vec![] }),
            })
            .collect(),
    }
}

fn default_filter() -> BinderTransactionFilter {
    make_filter(Some("test.interface"), vec![(1, Some(false), None)])
}

fn assert_err_contains<T: std::fmt::Debug>(result: Result<T, ResolveError>, substring: &str) {
    let err = result.expect_err("Expected error, got Ok");
    assert!(err.message().contains(substring), "Error {:?} did not contain '{}'", err, substring);
}

fn assert_config_err_contains<T: std::fmt::Debug>(result: Result<T, ConfigError>, substring: &str) {
    let err = result.expect_err("Expected error, got Ok");
    assert!(err.message().contains(substring), "Error {:?} did not contain '{}'", err, substring);
}

struct MockProcessResolver {
    result: Result<ResolvedProcess, String>,
}

impl MockProcessResolver {
    fn success() -> Self {
        Self { result: Ok(default_resolved_process()) }
    }
}

impl ProcessResolver for MockProcessResolver {
    fn resolve_process(
        &self,
        _process_name: Option<&str>,
        _target_process_selection: i32,
        _timeout_secs: u64,
    ) -> Result<ResolvedProcess, String> {
        self.result.clone()
    }
}

struct MockOffsetResolver {
    result: Result<Option<ExecutableMethodFileOffsets>, String>,
}

impl MockOffsetResolver {
    fn success() -> Self {
        Self {
            result: Ok(Some(ExecutableMethodFileOffsets {
                container_path: "/path/to/file".to_string(),
                container_offset: 0,
                method_offset: 1234,
            })),
        }
    }

    fn none() -> Self {
        Self { result: Ok(None) }
    }
}

impl OffsetResolver for MockOffsetResolver {
    fn resolve_offsets(
        &self,
        _target_process: &ResolvedProcess,
        _method_descriptor: &MethodDescriptor,
    ) -> Result<Option<ExecutableMethodFileOffsets>, String> {
        self.result.clone()
    }
}

struct AllowAll;

impl ConfigGuardrail for AllowAll {
    fn is_allowed(&self, _config: &UprobestatsConfig, _is_user_build: bool, _offsets_api_enabled: bool) -> Result<bool, String> {
        Ok(true)
    }
}

struct DenyAll;

impl ConfigGuardrail for DenyAll {
    fn is_allowed(&self, _config: &UprobestatsConfig, _is_user_build: bool, _offsets_api_enabled: bool) -> Result<bool, String> {
        Ok(false)
    }
}

fn resolve_task_simple(task: &Task) -> Result<ResolvedTask, ResolveError> {
    resolve_single_task(task, 0, &all_flags(), &MockProcessResolver::success(), &MockOffsetResolver::none())
}

fn resolve_probes_simple(probes: Vec<ProbeConfig>, resolver: &MockOffsetResolver) -> Result<Vec<ResolvedProbe>, ResolveError> {
    resolve_probes(&probes, &default_resolved_process(), resolver, &all_flags())
}

#[test]
fn resolve_single_task_success() {
    let resolved_task = resolve_task_simple(&make_task(10)).unwrap();
    let expected = default_resolved_process();
    assert_eq!(resolved_task.resolved_process.pid, expected.pid);
    assert_eq!(resolved_task.resolved_process.uid, expected.uid);
    assert_eq!(resolved_task.resolved_process.name, expected.name);
}

#[test]
fn resolve_single_task_no_tasks() {
    let config = UprobestatsConfig::default();
    let result = resolve_config(
        &config,
        false,
        &all_flags(),
        &AllowAll,
        &MockProcessResolver::success(),
        &MockOffsetResolver::none(),
    );
    assert_config_err_contains(result, "Config must have exactly one task, got 0");
}

#[test]
fn resolve_single_task_no_duration() {
    assert_err_contains(resolve_task_simple(&Task::default()), "Task duration is required");
}

#[test]
fn resolve_single_task_process_resolver_error() {
    let resolver = MockProcessResolver { result: Err("process not found".to_string()) };
    let task = make_task(10);
    let result = resolve_single_task(&task, 0, &all_flags(), &resolver, &MockOffsetResolver::none());
    assert_err_contains(result, "process not found");
}

#[test]
fn resolve_single_task_multiple_tasks() {
    let config = UprobestatsConfig { tasks: vec![make_task(10), make_task(20)] };
    let result = resolve_config(
        &config,
        false,
        &all_flags(),
        &AllowAll,
        &MockProcessResolver::success(),
        &MockOffsetResolver::none(),
    );
    assert_config_err_contains(result, "Config must have exactly one task, got 2");
}

#[test]
fn resolve_single_task_zero_duration() {
    assert_err_contains(resolve_task_simple(&make_task(0)), "must be greater than 0");
}

#[test]
fn resolve_probes_success() {
    let resolved_probes = resolve_probes_simple(vec![default_probe()], &MockOffsetResolver::success()).unwrap();
    assert_eq!(resolved_probes.len(), 1);
    assert_eq!(resolved_probes[0].offsets.container_path, "/path/to/file");
    assert_eq!(resolved_probes[0].offsets.method_offset, 1234);
}

#[test]
fn resolve_probes_offset_not_found() {
    let result = resolve_probes_simple(vec![default_probe()], &MockOffsetResolver::none());
    assert_err_contains(result, "Failed to get offsets");
}

#[test]
fn resolve_probes_missing_bpf_name() {
    let mut probe = default_probe();
    probe.bpf_name = None;
    assert_err_contains(resolve_probes_simple(vec![probe], &MockOffsetResolver::none()), "bpf_name is required");
}

#[test]
fn resolve_probes_missing_method_name() {
    let mut probe = default_probe();
    probe.method_name = None;
    assert_err_contains(resolve_probes_simple(vec![probe], &MockOffsetResolver::none()), "method_name is required");
}

#[test]
fn resolve_probes_multiple_probes() {
    let probe1 = make_probe("test1.bpf.o", "com.example.Test1", "testMethod1");
    let probe2 = make_probe("test2.bpf.o", "com.example.Test2", "testMethod2");
    let resolved_probes = resolve_probes_simple(vec![probe1, probe2], &MockOffsetResolver::success()).unwrap();
    assert_eq!(resolved_probes.len(), 2);
}

#[test]
fn resolve_probes_missing_class_name() {
    let mut probe = default_probe();
    probe.fully_qualified_class_name = None;
    assert_err_contains(
        resolve_probes_simple(vec![probe], &MockOffsetResolver::none()),
        "fully_qualified_class_name is required",
    );
}

#[test]
fn resolve_probes_offset_resolver_error() {
    let resolver = MockOffsetResolver { result: Err("resolver error".to_string()) };
    assert_err_contains(resolve_probes_simple(vec![default_probe()], &resolver), "resolver error");
}

#[test]
fn resolve_binder_transaction_filters_success() {
    let probe = ProbeConfig {
        binder_transaction_filters: vec![make_filter(
            Some("test.interface"),
            vec![(1, Some(false), None), (2, Some(true), None)],
        )],
        ..ProbeConfig::default()
    };
    let result = resolve_binder_transaction_filters(&probe, BINDER_BPF_PROGRAM_NAME).unwrap();
    assert_eq!(result.len(), 1);
    let interface_config = result.get("test.interface").expect("interface not found");
    assert_eq!(interface_config.len(), 2);
    let method1 = interface_config.get_method(&1).expect("method 1 not found");
    assert_eq!(method1.event_service_config.as_ref().unwrap().mode, EventMode::Buffer);
    let method2 = interface_config.get_method(&2).expect("method 2 not found");
    assert_eq!(method2.event_service_config.as_ref().unwrap().mode, EventMode::Flush);
}

#[test]
fn resolve_binder_transaction_filters_atom_config_success() {
    let probe = ProbeConfig {
        binder_transaction_filters: vec![make_filter(
            Some("test.interface"),
            vec![(1, None, Some(100)), (2, None, Some(200))],
        )],
        ..ProbeConfig::default()
    };
    let result = resolve_binder_transaction_filters(&probe, BINDER_BPF_PROGRAM_NAME).unwrap();
    assert_eq!(result.len(), 1);
    let interface_config = result.get("test.interface").expect("interface not found");
    assert_eq!(interface_config.len(), 2);
    let method1 = interface_config.get_method(&1).expect("method 1 not found");
    assert_eq!(method1.atom_config.as_ref().unwrap().atom_id, 100);
    let method2 = interface_config.get_method(&2).expect("method 2 not found");
    assert_eq!(method2.atom_config.as_ref().unwrap().atom_id, 200);
}

#[test]
fn resolve_binder_transaction_filters_both_configs_success() {
    let probe = ProbeConfig {
        binder_transaction_filters: vec![make_filter(Some("test.interface"), vec![(1, Some(true), Some(100))])],
        ..ProbeConfig::default()
    };
    let result = resolve_binder_transaction_filters(&probe, BINDER_BPF_PROGRAM_NAME).unwrap();
    assert_eq!(result.len(), 1);
    let interface_config = result.get("test.interface").expect("interface not found");
    assert_eq!(interface_config.len(), 1);
    let method1 = interface_config.get_method(&1).expect("method 1 not found");
    assert_eq!(method1.event_service_config.as_ref().unwrap().mode, EventMode::Flush);
    assert_eq!(method1.atom_config.as_ref().unwrap().atom_id, 100);
}

#[test]
fn resolve_binder_transaction_filters_atom_config_invalid_id() {
    let filter = BinderTransactionFilter {
        interface_name: Some("test.interface".to_string()),
        method_configs: vec![ProtoMethodConfig {
            method_id: Some(1),
            event_service_config: None,
            atom_config: Some(ProtoAtomConfig { atom_id: Some(0), atom_field_positions: vec![] }),
        }],
    };
    let probe = ProbeConfig { binder_transaction_filters: vec![filter], ..ProbeConfig::default() };
    let result = resolve_binder_transaction_filters(&probe, BINDER_BPF_PROGRAM_NAME);
    assert_err_contains(result, "atom_config.atom_id must be positive integer");
}

#[test]
fn resolve_binder_transaction_filters_negative_method_id() {
    let probe = ProbeConfig {
        binder_transaction_filters: vec![make_filter(Some("test.interface"), vec![(-1, Some(false), None)])],
        ..ProbeConfig::default()
    };
    let result = resolve_binder_transaction_filters(&probe, BINDER_BPF_PROGRAM_NAME);
    assert_err_contains(
        result,
        "binder_transaction_filter.method_config.method_id is required and must be a positive integer",
    );
}

#[test]
fn resolve_binder_transaction_filters_missing_event_service_config() {
    let probe = ProbeConfig {
        binder_transaction_filters: vec![make_filter(Some("test.interface"), vec![(1, None, None)])],
        ..ProbeConfig::default()
    };
    let result = resolve_binder_transaction_filters(&probe, BINDER_BPF_PROGRAM_NAME);
    assert_err_contains(
        result,
        "either method_config.event_service_config, method_config.atom_config, or both, must be present",
    );
}

#[test]
fn resolve_binder_transaction_filters_empty_filters_for_binder_bpf() {
    let probe = ProbeConfig::default();
    let result = resolve_binder_transaction_filters(&probe, BINDER_BPF_PROGRAM_NAME);
    assert_err_contains(result, "requires at least one binder_transaction_filter");
}

#[test]
fn resolve_binder_transaction_filters_with_filters_for_non_binder_bpf() {
    let probe = ProbeConfig { binder_transaction_filters: vec![default_filter()], ..ProbeConfig::default() };
    let result = resolve_binder_transaction_filters(&probe, "other.bpf.o");
    assert_err_contains(result, "binder_transaction_filters is only supported for");
}

#[test]
fn resolve_binder_transaction_filters_missing_interface_name() {
    let probe = ProbeConfig {
        binder_transaction_filters: vec![make_filter(None, vec![(1, Some(false), None)])],
        ..ProbeConfig::default()
    };
    let result = resolve_binder_transaction_filters(&probe, BINDER_BPF_PROGRAM_NAME);
    assert_err_contains(result, "binder_transaction_filter.interface_name is required");
}

#[test]
fn resolve_binder_transaction_filters_empty_interface_name() {
    let probe = ProbeConfig {
        binder_transaction_filters: vec![make_filter(Some(""), vec![(1, Some(false), None)])],
        ..ProbeConfig::default()
    };
    let result = resolve_binder_transaction_filters(&probe, BINDER_BPF_PROGRAM_NAME);
    assert_err_contains(result, "binder_transaction_filter.interface_name must be non-empty");
}

#[test]
fn resolve_binder_transaction_filters_duplicate_interface_names() {
    let probe = ProbeConfig { binder_transaction_filters: vec![default_filter(), default_filter()], ..ProbeConfig::default() };
    let result = resolve_binder_transaction_filters(&probe, BINDER_BPF_PROGRAM_NAME);
    assert_err_contains(result, "Duplicate interface_name");
}

#[test]
fn resolve_binder_transaction_filters_duplicate_method_ids() {
    let probe = ProbeConfig {
        binder_transaction_filters: vec![make_filter(
            Some("test.interface"),
            vec![(1, Some(false), None), (1, Some(false), None)],
        )],
        ..ProbeConfig::default()
    };
    let result = resolve_binder_transaction_filters(&probe, BINDER_BPF_PROGRAM_NAME);
    assert_err_contains(result, "Duplicate method_id");
}

#[test]
fn resolve_binder_transaction_filters_empty_method_ids() {
    let probe = ProbeConfig {
        binder_transaction_filters: vec![make_filter(Some("test.interface"), vec![])],
        ..ProbeConfig::default()
    };
    let result = resolve_binder_transaction_filters(&probe, BINDER_BPF_PROGRAM_NAME);
    assert_err_contains(result, "binder_transaction_filter.method_configs must be non-empty");
}

#[test]
fn prefix_bpf_test() {
    assert_eq!(prefix_bpf("my_map"), "/sys/fs/bpf/uprobestats/my_map");
}

// Further cases of the library's own.

#[test]
fn resolve_config_disallowed_by_guardrail() {
    let config = UprobestatsConfig { tasks: vec![Task { task_id: Some(7), ..make_task(10) }] };
    let result = resolve_config(
        &config,
        true,
        &all_flags(),
        &DenyAll,
        &MockProcessResolver::success(),
        &MockOffsetResolver::none(),
    );
    let err = result.unwrap_err();
    assert_eq!(err.task_id(), Some(7));
    assert_eq!(err.message(), "Task 7: uprobestats probing config disallowed on this device");
}

#[test]
fn resolve_config_single_task_success() {
    let mut task = Task { task_id: Some(3), ..make_task(10) };
    task.bpf_maps = vec!["map_a".to_string(), "map_a".to_string(), "map_b".to_string()];
    task.probe_configs = vec![default_probe()];
    let config = UprobestatsConfig { tasks: vec![task] };
    let resolved = resolve_config(
        &config,
        false,
        &all_flags(),
        &AllowAll,
        &MockProcessResolver::success(),
        &MockOffsetResolver::success(),
    )
    .unwrap();
    assert_eq!(resolved.id, 3);
    assert_eq!(resolved.duration_secs, 10);
    assert_eq!(
        resolved.bpf_map_paths,
        vec!["/sys/fs/bpf/uprobestats/map_a".to_string(), "/sys/fs/bpf/uprobestats/map_b".to_string()]
    );
    assert_eq!(resolved.resolved_probes.len(), 1);
    assert_eq!(resolved.resolved_probes[0].bpf_program_path, "/sys/fs/bpf/uprobestats/test.bpf.o");
}

#[test]
fn resolve_single_task_map_disabled_by_flag() {
    let mut task = make_task(10);
    task.bpf_maps = vec!["map_Binder_output_buf".to_string()];
    let result = resolve_single_task(&task, 0, &no_flags(), &MockProcessResolver::success(), &MockOffsetResolver::none());
    assert_eq!(result.unwrap_err().message(), "map_Binder_output_buf is disabled by flag");
}

#[test]
fn resolve_probes_offsets_not_found_message() {
    let mut probe = default_probe();
    probe.fully_qualified_parameters = vec!["int".to_string(), "java.lang.String".to_string()];
    let err = resolve_probes_simple(vec![probe], &MockOffsetResolver::none()).unwrap_err();
    assert_eq!(
        err.message(),
        "Failed to get offsets for class: com.example.Test, method: testMethod, params: [\"int\", \"java.lang.String\"]"
    );
}

#[test]
fn duplicate_method_id_message_names_the_id() {
    let mut config = InterfaceConfig::new();
    let method = MethodConfig { event_service_config: Some(EventServiceConfig { mode: EventMode::Buffer }), atom_config: None };
    assert!(config.insert_method(42, method.clone()).is_ok());
    let replacement = MethodConfig {
        event_service_config: None,
        atom_config: Some(AtomConfig { atom_id: 5, atom_field_positions: vec![AtomFieldPosition::CODE] }),
    };
    let err = config.insert_method(42, replacement).unwrap_err();
    assert_eq!(err.message(), "Duplicate method_id 42");
    assert_eq!(config.len(), 1);
    assert_eq!(config.get_method(&42).unwrap().atom_config.as_ref().unwrap().atom_id, 5);
    assert_eq!(config.method_ids(), vec![42]);
}

#[test]
fn insert_then_get_method() {
    let mut config = InterfaceConfig::default();
    let method = MethodConfig { event_service_config: Some(EventServiceConfig { mode: EventMode::Flush }), atom_config: None };
    config.insert_method(7, method).unwrap();
    assert_eq!(config.get_method(&7).unwrap().event_service_config.unwrap().mode, EventMode::Flush);
    assert!(config.get_method(&8).is_none());
}

#[test]
fn event_service_config_from_wire() {
    assert_eq!(EventServiceConfig::from(ProtoEventServiceConfig { flush: Some(true) }).mode, EventMode::Flush);
    assert_eq!(EventServiceConfig::from(ProtoEventServiceConfig { flush: Some(false) }).mode, EventMode::Buffer);
    assert_eq!(EventServiceConfig::from(ProtoEventServiceConfig { flush: None }).mode, EventMode::Buffer);
}

#[test]
fn atom_config_from_wire() {
    let ok = AtomConfig::try_from(ProtoAtomConfig { atom_id: Some(9), atom_field_positions: vec![AtomFieldPosition::KTIME_NS] })
        .unwrap();
    assert_eq!(ok.atom_id, 9);
    assert_eq!(ok.atom_field_positions, vec![AtomFieldPosition::KTIME_NS]);
    let missing = AtomConfig::try_from(ProtoAtomConfig { atom_id: None, atom_field_positions: vec![] }).unwrap_err();
    assert_eq!(missing.message(), "atom_config.atom_id is required");
    let negative = AtomConfig::try_from(ProtoAtomConfig { atom_id: Some(-4), atom_field_positions: vec![] }).unwrap_err();
    assert_eq!(negative.message(), "atom_config.atom_id must be positive integer");
}

#[test]
fn config_error_task_id() {
    let e = ConfigError::TaskValidation { task_id: 12, error: ResolveError::MissingDuration };
    assert_eq!(e.task_id(), Some(12));
    assert_eq!(e.message(), "Task 12: Task duration is required");
    let o = ConfigError::Other(ResolveError::WrongTaskCount(3));
    assert_eq!(o.task_id(), Some(-1));
}
