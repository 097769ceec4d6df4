//! Which handler polls a BPF map: the registry of handlers, keyed by their map's path, as
//! the device's flags and API level enable them.
use crate::bpf_handler::accessibility::ACCESSIBILITY_MAP_PATH;
use crate::bpf_handler::art_test::{AOT_MAP_PATH, JIT_MAP_PATH};
use crate::bpf_handler::binder_transaction::BINDER_TRANSACTION_MAP_PATH;
use crate::bpf_handler::bitmap_allocation::BITMAP_ALLOCATION_MAP_PATH;
use crate::bpf_handler::disruptive_app::{BIND_SERVICE_LOCKED_MAP_PATH, COMPONENT_ENABLED_SETTING_MAP_PATH};
use crate::bpf_handler::generic_instrumentation::{CALL_RESULT_MAP_PATH, CALL_TIMESTAMP_MAP_PATH};
use crate::bpf_handler::process_management::{
    SET_UID_TEMP_ALLOWLIST_STATE_MAP_PATH, UPDATE_DEVICE_IDLE_TEMP_ALLOWLIST_MAP_PATH,
};
use crate::string::str_eq;
use vstd::prelude::*;

verus! {

/// The flags and device facts that decide which handlers are registered.
#[derive(Debug, Clone, Copy, PartialEq, Eq, Default)]
pub struct RegistryFlags {
    /// Bitmap allocations are tracked with snapshots (the V1 handler).
    pub enable_bitmap_snapshot: bool,
    /// Binder transactions are reported.
    pub enable_binder_transaction: bool,
    /// Runtime permission grants to accessibility apps are reported.
    pub a11y_runtime_permission: bool,
    /// Disruptive app activities are monitored.
    pub monitor_disruptive_app_activities: bool,
    /// The ART test handlers are built in.
    pub art_test: bool,
    /// The device runs at least Cinnamon Bun.
    pub at_least_cinnamon_bun: bool,
}

/// The handlers that can poll a map.
#[derive(Debug, Clone, Copy, PartialEq, Eq)]
pub enum HandlerKind {
    /// Bitmap allocations, without snapshots.
    BitmapAllocationV0,
    /// Bitmap allocations, scaling and snapshots.
    BitmapAllocationV1,
    /// Timestamps of instrumented calls.
    CallTimestamp,
    /// Results of instrumented calls.
    CallResult,
    /// Temporary allowlist state changes.
    SetUidTempAllowlistState,
    /// Device idle temporary allowlist updates.
    UpdateDeviceIdleTempAllowlist,
    /// Binder transactions.
    BinderTransaction,
    /// Accessibility calls and permission grants.
    Accessibility,
    /// Service bindings that allow background activity starts.
    BindServiceLocked,
    /// Component enabled setting changes.
    ComponentEnabledSetting,
    /// The JIT test.
    Jit,
    /// The AOT test.
    Aot,
}

/// The map a handler polls.
pub open spec fn spec_map_path_of(kind: HandlerKind) -> Seq<char> {
    match kind {
        HandlerKind::BitmapAllocationV0 => BITMAP_ALLOCATION_MAP_PATH@,
        HandlerKind::BitmapAllocationV1 => BITMAP_ALLOCATION_MAP_PATH@,
        HandlerKind::CallTimestamp => CALL_TIMESTAMP_MAP_PATH@,
        HandlerKind::CallResult => CALL_RESULT_MAP_PATH@,
        HandlerKind::SetUidTempAllowlistState => SET_UID_TEMP_ALLOWLIST_STATE_MAP_PATH@,
        HandlerKind::UpdateDeviceIdleTempAllowlist => UPDATE_DEVICE_IDLE_TEMP_ALLOWLIST_MAP_PATH@,
        HandlerKind::BinderTransaction => BINDER_TRANSACTION_MAP_PATH@,
        HandlerKind::Accessibility => ACCESSIBILITY_MAP_PATH@,
        HandlerKind::BindServiceLocked => BIND_SERVICE_LOCKED_MAP_PATH@,
        HandlerKind::ComponentEnabledSetting => COMPONENT_ENABLED_SETTING_MAP_PATH@,
        HandlerKind::Jit => JIT_MAP_PATH@,
        HandlerKind::Aot => AOT_MAP_PATH@,
    }
}

/// The map a handler polls.
pub fn map_path_of(kind: HandlerKind) -> (r: &'static str)
    ensures
        r@ == spec_map_path_of(kind),
{
    match kind {
        HandlerKind::BitmapAllocationV0 => BITMAP_ALLOCATION_MAP_PATH,
        HandlerKind::BitmapAllocationV1 => BITMAP_ALLOCATION_MAP_PATH,
        HandlerKind::CallTimestamp => CALL_TIMESTAMP_MAP_PATH,
        HandlerKind::CallResult => CALL_RESULT_MAP_PATH,
        HandlerKind::SetUidTempAllowlistState => SET_UID_TEMP_ALLOWLIST_STATE_MAP_PATH,
        HandlerKind::UpdateDeviceIdleTempAllowlist => UPDATE_DEVICE_IDLE_TEMP_ALLOWLIST_MAP_PATH,
        HandlerKind::BinderTransaction => BINDER_TRANSACTION_MAP_PATH,
        HandlerKind::Accessibility => ACCESSIBILITY_MAP_PATH,
        HandlerKind::BindServiceLocked => BIND_SERVICE_LOCKED_MAP_PATH,
        HandlerKind::ComponentEnabledSetting => COMPONENT_ENABLED_SETTING_MAP_PATH,
        HandlerKind::Jit => JIT_MAP_PATH,
        HandlerKind::Aot => AOT_MAP_PATH,
    }
}

/// Whether the flags register the handler: one of the two bitmap handlers as the snapshot
/// flag says, the generic and process management handlers always, the binder handler with
/// its flag, the accessibility and disruptive app handlers from Cinnamon Bun on with their
/// flags, and the test handlers when built in.
pub open spec fn registered(kind: HandlerKind, flags: RegistryFlags) -> bool {
    match kind {
        HandlerKind::BitmapAllocationV0 => !flags.enable_bitmap_snapshot,
        HandlerKind::BitmapAllocationV1 => flags.enable_bitmap_snapshot,
        HandlerKind::CallTimestamp => true,
        HandlerKind::CallResult => true,
        HandlerKind::SetUidTempAllowlistState => true,
        HandlerKind::UpdateDeviceIdleTempAllowlist => true,
        HandlerKind::BinderTransaction => flags.enable_binder_transaction,
        HandlerKind::Accessibility => flags.at_least_cinnamon_bun && flags.a11y_runtime_permission,
        HandlerKind::BindServiceLocked => flags.at_least_cinnamon_bun && flags.monitor_disruptive_app_activities,
        HandlerKind::ComponentEnabledSetting => flags.at_least_cinnamon_bun && flags.monitor_disruptive_app_activities,
        HandlerKind::Jit => flags.art_test,
        HandlerKind::Aot => flags.art_test,
    }
}

/// The registered handler that polls the map at `map_path`, if any.
pub open spec fn spec_handler_for_map(map_path: Seq<char>, flags: RegistryFlags) -> Option<HandlerKind> {
    if map_path == BITMAP_ALLOCATION_MAP_PATH@ {
        if flags.enable_bitmap_snapshot {
            Some(HandlerKind::BitmapAllocationV1)
        } else {
            Some(HandlerKind::BitmapAllocationV0)
        }
    } else if map_path == CALL_TIMESTAMP_MAP_PATH@ {
        Some(HandlerKind::CallTimestamp)
    } else if map_path == CALL_RESULT_MAP_PATH@ {
        Some(HandlerKind::CallResult)
    } else if map_path == SET_UID_TEMP_ALLOWLIST_STATE_MAP_PATH@ {
        Some(HandlerKind::SetUidTempAllowlistState)
    } else if map_path == UPDATE_DEVICE_IDLE_TEMP_ALLOWLIST_MAP_PATH@ {
        Some(HandlerKind::UpdateDeviceIdleTempAllowlist)
    } else if map_path == BINDER_TRANSACTION_MAP_PATH@ && registered(HandlerKind::BinderTransaction, flags) {
        Some(HandlerKind::BinderTransaction)
    } else if map_path == ACCESSIBILITY_MAP_PATH@ && registered(HandlerKind::Accessibility, flags) {
        Some(HandlerKind::Accessibility)
    } else if map_path == BIND_SERVICE_LOCKED_MAP_PATH@ && registered(HandlerKind::BindServiceLocked, flags) {
        Some(HandlerKind::BindServiceLocked)
    } else if map_path == COMPONENT_ENABLED_SETTING_MAP_PATH@ && registered(
        HandlerKind::ComponentEnabledSetting,
        flags,
    ) {
        Some(HandlerKind::ComponentEnabledSetting)
    } else if map_path == JIT_MAP_PATH@ && registered(HandlerKind::Jit, flags) {
        Some(HandlerKind::Jit)
    } else if map_path == AOT_MAP_PATH@ && registered(HandlerKind::Aot, flags) {
        Some(HandlerKind::Aot)
    } else {
        None
    }
}

/// The registered handler that polls the map at `map_path`; `None` for an unsupported map.
pub fn handler_for_map(map_path: &str, flags: &RegistryFlags) -> (r: Option<HandlerKind>)
    ensures
        r == spec_handler_for_map(map_path@, *flags),
{
    if str_eq(map_path, BITMAP_ALLOCATION_MAP_PATH) {
        if flags.enable_bitmap_snapshot {
            Some(HandlerKind::BitmapAllocationV1)
        } else {
            Some(HandlerKind::BitmapAllocationV0)
        }
    } else if str_eq(map_path, CALL_TIMESTAMP_MAP_PATH) {
        Some(HandlerKind::CallTimestamp)
    } else if str_eq(map_path, CALL_RESULT_MAP_PATH) {
        Some(HandlerKind::CallResult)
    } else if str_eq(map_path, SET_UID_TEMP_ALLOWLIST_STATE_MAP_PATH) {
        Some(HandlerKind::SetUidTempAllowlistState)
    } else if str_eq(map_path, UPDATE_DEVICE_IDLE_TEMP_ALLOWLIST_MAP_PATH) {
        Some(HandlerKind::UpdateDeviceIdleTempAllowlist)
    } else if str_eq(map_path, BINDER_TRANSACTION_MAP_PATH) && flags.enable_binder_transaction {
        Some(HandlerKind::BinderTransaction)
    } else if str_eq(map_path, ACCESSIBILITY_MAP_PATH) && flags.at_least_cinnamon_bun
        && flags.a11y_runtime_permission {
        Some(HandlerKind::Accessibility)
    } else if str_eq(map_path, BIND_SERVICE_LOCKED_MAP_PATH) && flags.at_least_cinnamon_bun
        && flags.monitor_disruptive_app_activities {
        Some(HandlerKind::BindServiceLocked)
    } else if str_eq(map_path, COMPONENT_ENABLED_SETTING_MAP_PATH) && flags.at_least_cinnamon_bun
        && flags.monitor_disruptive_app_activities {
        Some(HandlerKind::ComponentEnabledSetting)
    } else if str_eq(map_path, JIT_MAP_PATH) && flags.art_test {
        Some(HandlerKind::Jit)
    } else if str_eq(map_path, AOT_MAP_PATH) && flags.art_test {
        Some(HandlerKind::Aot)
    } else {
        None
    }
}

/// Every handler the registry yields is registered and polls the map it is asked for.
pub proof fn lemma_registry_sound(map_path: Seq<char>, flags: RegistryFlags)
    ensures
        spec_handler_for_map(map_path, flags) matches Some(kind) ==> registered(kind, flags) && spec_map_path_of(kind)
            == map_path,
{
}

/// Every registered handler is found under the path of the map it polls.
pub proof fn lemma_registry_complete(kind: HandlerKind, flags: RegistryFlags)
    requires
        registered(kind, flags),
    ensures
        spec_handler_for_map(spec_map_path_of(kind), flags) == Some(kind),
{
    reveal_strlit("/sys/fs/bpf/uprobestats/map_BitmapAllocation_output");
    reveal_strlit("/sys/fs/bpf/uprobestats/map_GenericInstrumentation_call_timestamp_buf");
    reveal_strlit("/sys/fs/bpf/uprobestats/map_GenericInstrumentation_call_detail_buf");
    reveal_strlit("/sys/fs/bpf/uprobestats/map_ProcessManagement_output_buf");
    reveal_strlit("/sys/fs/bpf/uprobestats/map_ProcessManagement_update_device_idle_temp_allowlist_records");
    reveal_strlit("/sys/fs/bpf/uprobestats/map_Binder_output_buf");
    reveal_strlit("/sys/fs/bpf/uprobestats/map_Accessibility_output_buf");
    reveal_strlit("/sys/fs/bpf/uprobestats/map_DisruptiveApp_BindServiceLocked_output_buf");
    reveal_strlit("/sys/fs/bpf/uprobestats/map_DisruptiveApp_ComponentEnabledSetting_output_buf");
    reveal_strlit("/sys/fs/bpf/uprobestats/map_ArtTest_output_buf_jit");
    reveal_strlit("/sys/fs/bpf/uprobestats/map_ArtTest_output_buf_aot");
    // The map paths are told apart by their lengths; the two ART test paths, equally long,
    // by one character.
    let paths = seq![
        BITMAP_ALLOCATION_MAP_PATH@,
        CALL_TIMESTAMP_MAP_PATH@,
        CALL_RESULT_MAP_PATH@,
        SET_UID_TEMP_ALLOWLIST_STATE_MAP_PATH@,
        UPDATE_DEVICE_IDLE_TEMP_ALLOWLIST_MAP_PATH@,
        BINDER_TRANSACTION_MAP_PATH@,
        ACCESSIBILITY_MAP_PATH@,
        BIND_SERVICE_LOCKED_MAP_PATH@,
        COMPONENT_ENABLED_SETTING_MAP_PATH@,
        JIT_MAP_PATH@,
    ];
    let lens = seq![51int, 69, 66, 56, 87, 45, 52, 70, 76, 50];
    assert forall|i: int| 0 <= i < 10 implies #[trigger] paths[i].len() == lens[i] by {}
    assert(JIT_MAP_PATH@[47] != AOT_MAP_PATH@[47]);
    assert(AOT_MAP_PATH@.len() == 50);
    let p = spec_map_path_of(kind);
    match kind {
        HandlerKind::BitmapAllocationV0 => {},
        HandlerKind::BitmapAllocationV1 => {},
        HandlerKind::CallTimestamp => {
            assert(p.len() == 69);
        },
        HandlerKind::CallResult => {
            assert(p.len() == 66);
        },
        HandlerKind::SetUidTempAllowlistState => {
            assert(p.len() == 56);
        },
        HandlerKind::UpdateDeviceIdleTempAllowlist => {
            assert(p.len() == 87);
        },
        HandlerKind::BinderTransaction => {
            assert(p.len() == 45);
        },
        HandlerKind::Accessibility => {
            assert(p.len() == 52);
        },
        HandlerKind::BindServiceLocked => {
            assert(p.len() == 70);
        },
        HandlerKind::ComponentEnabledSetting => {
            assert(p.len() == 76);
        },
        HandlerKind::Jit => {
            assert(p.len() == 50);
        },
        HandlerKind::Aot => {
            assert(p.len() == 50);
            assert(p != JIT_MAP_PATH@);
        },
    }
}

} // verus!
