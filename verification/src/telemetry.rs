//! The values that uprobestats reports about itself: which BPF program was attached, which
//! map was polled, what kind of snapshot was taken, and which internal error happened.
use crate::bpf_handler::HandlerError;
use crate::error::UprobeStatsError;
use crate::string::str_eq;
use vstd::prelude::*;

verus! {

/// The part of a path after its last '/' (the whole path when it has none).
pub open spec fn file_name(path: Seq<char>) -> Seq<char>
    decreases path.len(),
{
    if path.len() == 0 {
        path
    } else if path.last() == '/' {
        Seq::empty()
    } else {
        file_name(path.drop_last()).push(path.last())
    }
}

proof fn lemma_file_name(path: Seq<char>, j: int)
    requires
        0 <= j <= path.len(),
        forall|k: int| j <= k < path.len() ==> path[k] != '/',
        j == 0 || path[j - 1] == '/',
    ensures
        file_name(path) == path.subrange(j, path.len() as int),
    decreases path.len(),
{
    if path.len() == 0 {
        assert(path.subrange(0, 0) =~= path);
    } else if path.len() == j {
        assert(path.subrange(j, j) =~= Seq::<char>::empty());
    } else {
        let rest = path.drop_last();
        lemma_file_name(rest, j);
        assert(path.subrange(j, path.len() as int) =~= rest.subrange(j, rest.len() as int).push(path.last()));
    }
}

/// The part of `path` after its last '/'.
pub fn path_file_name(path: &str) -> (r: &str)
    ensures
        r@ == file_name(path@),
{
    let n = path.unicode_len();
    let mut j = n;
    while j > 0 && path.get_char(j - 1) != '/'
        invariant
            j <= n,
            n == path@.len(),
            forall|k: int| j <= k < n ==> path@[k] != '/',
        decreases j,
    {
        j = j - 1;
    }
    proof {
        lemma_file_name(path@, j as int);
    }
    path.substring_char(j, n)
}

/// The BPF programs that uprobestats reports as attached.
#[allow(missing_docs)]
#[derive(Debug, Clone, Copy, PartialEq, Eq)]
pub enum BpfProgram {
    BpfProgramUnspecified,
    ProgAccessibilityUprobeAccessibilityServiceConnection,
    ProgAccessibilityUprobeGrantRuntimePermission,
    ProgBinderUprobeExecTransactInternal,
    ProgBitmapAllocationUprobeActivityPerformStart,
    ProgBitmapAllocationUprobeApplyFreeFunction,
    ProgBitmapAllocationUprobeBitmapCreationForSnapshot,
    ProgBitmapAllocationUprobeCreateScaledBitmap,
    ProgDisruptiveAppUprobeBindServiceLocked,
    ProgDisruptiveAppUprobeSetComponentEnabledSetting,
    ProgGenericInstrumentationUprobeCallDetail,
    ProgGenericInstrumentationUprobeCallTimestamp,
}

/// The program that a BPF program file name stands for.
pub open spec fn spec_bpf_program(name: Seq<char>) -> BpfProgram {
    if name == "prog_Accessibility_uprobe_accessibility_service_connection"@ {
        BpfProgram::ProgAccessibilityUprobeAccessibilityServiceConnection
    } else if name == "prog_Accessibility_uprobe_grant_runtime_permission"@ {
        BpfProgram::ProgAccessibilityUprobeGrantRuntimePermission
    } else if name == "prog_Binder_uprobe_exec_transact_internal"@ {
        BpfProgram::ProgBinderUprobeExecTransactInternal
    } else if name == "prog_BitmapAllocation_uprobe_activity_perform_start"@ {
        BpfProgram::ProgBitmapAllocationUprobeActivityPerformStart
    } else if name == "prog_BitmapAllocation_uprobe_apply_free_function"@ {
        BpfProgram::ProgBitmapAllocationUprobeApplyFreeFunction
    } else if name == "prog_BitmapAllocation_uprobe_bitmap_creation_for_snapshot"@ {
        BpfProgram::ProgBitmapAllocationUprobeBitmapCreationForSnapshot
    } else if name == "prog_BitmapAllocation_uprobe_create_scaled_bitmap"@ {
        BpfProgram::ProgBitmapAllocationUprobeCreateScaledBitmap
    } else if name == "prog_DisruptiveApp_uprobe_bind_service_locked"@ {
        BpfProgram::ProgDisruptiveAppUprobeBindServiceLocked
    } else if name == "prog_DisruptiveApp_uprobe_set_component_enabled_setting"@ {
        BpfProgram::ProgDisruptiveAppUprobeSetComponentEnabledSetting
    } else if name == "prog_GenericInstrumentation_uprobe_call_detail"@ {
        BpfProgram::ProgGenericInstrumentationUprobeCallDetail
    } else if name == "prog_GenericInstrumentation_uprobe_call_timestamp"@ {
        BpfProgram::ProgGenericInstrumentationUprobeCallTimestamp
    } else {
        BpfProgram::BpfProgramUnspecified
    }
}

/// The program that the file name of a BPF program path stands for (unspecified for any
/// other name).
pub fn bpf_program_path_to_enum(path: &str) -> (r: BpfProgram)
    ensures
        r == spec_bpf_program(file_name(path@)),
{
    let name = path_file_name(path);
    if str_eq(name, "prog_Accessibility_uprobe_accessibility_service_connection") {
        BpfProgram::ProgAccessibilityUprobeAccessibilityServiceConnection
    } else if str_eq(name, "prog_Accessibility_uprobe_grant_runtime_permission") {
        BpfProgram::ProgAccessibilityUprobeGrantRuntimePermission
    } else if str_eq(name, "prog_Binder_uprobe_exec_transact_internal") {
        BpfProgram::ProgBinderUprobeExecTransactInternal
    } else if str_eq(name, "prog_BitmapAllocation_uprobe_activity_perform_start") {
        BpfProgram::ProgBitmapAllocationUprobeActivityPerformStart
    } else if str_eq(name, "prog_BitmapAllocation_uprobe_apply_free_function") {
        BpfProgram::ProgBitmapAllocationUprobeApplyFreeFunction
    } else if str_eq(name, "prog_BitmapAllocation_uprobe_bitmap_creation_for_snapshot") {
        BpfProgram::ProgBitmapAllocationUprobeBitmapCreationForSnapshot
    } else if str_eq(name, "prog_BitmapAllocation_uprobe_create_scaled_bitmap") {
        BpfProgram::ProgBitmapAllocationUprobeCreateScaledBitmap
    } else if str_eq(name, "prog_DisruptiveApp_uprobe_bind_service_locked") {
        BpfProgram::ProgDisruptiveAppUprobeBindServiceLocked
    } else if str_eq(name, "prog_DisruptiveApp_uprobe_set_component_enabled_setting") {
        BpfProgram::ProgDisruptiveAppUprobeSetComponentEnabledSetting
    } else if str_eq(name, "prog_GenericInstrumentation_uprobe_call_detail") {
        BpfProgram::ProgGenericInstrumentationUprobeCallDetail
    } else if str_eq(name, "prog_GenericInstrumentation_uprobe_call_timestamp") {
        BpfProgram::ProgGenericInstrumentationUprobeCallTimestamp
    } else {
        BpfProgram::BpfProgramUnspecified
    }
}

/// The BPF maps that uprobestats reports as polled.
#[allow(missing_docs)]
#[derive(Debug, Clone, Copy, PartialEq, Eq)]
pub enum MapPath {
    BpfMapPathUnspecified,
    BpfMapPathAccessibilityOutputBuf,
    BpfMapPathBinderOutputBuf,
    BpfMapPathBitmapAllocationOutput,
    BpfMapPathDisruptiveAppBindServiceLockedOutputBuf,
    BpfMapPathDisruptiveAppComponentEnabledSettingOutputBuf,
    BpfMapPathGenericInstrumentationCallDetailBuf,
    BpfMapPathGenericInstrumentationCallTimestampBuf,
}

/// The map that a BPF map file name stands for.
pub open spec fn spec_map_path(name: Seq<char>) -> MapPath {
    if name == "map_Accessibility_output_buf"@ {
        MapPath::BpfMapPathAccessibilityOutputBuf
    } else if name == "map_Binder_output_buf"@ {
        MapPath::BpfMapPathBinderOutputBuf
    } else if name == "map_BitmapAllocation_output"@ {
        MapPath::BpfMapPathBitmapAllocationOutput
    } else if name == "map_DisruptiveApp_BindServiceLocked_output_buf"@ {
        MapPath::BpfMapPathDisruptiveAppBindServiceLockedOutputBuf
    } else if name == "map_DisruptiveApp_ComponentEnabledSetting_output_buf"@ {
        MapPath::BpfMapPathDisruptiveAppComponentEnabledSettingOutputBuf
    } else if name == "map_GenericInstrumentation_call_detail_buf"@ {
        MapPath::BpfMapPathGenericInstrumentationCallDetailBuf
    } else if name == "map_GenericInstrumentation_call_timestamp_buf"@ {
        MapPath::BpfMapPathGenericInstrumentationCallTimestampBuf
    } else {
        MapPath::BpfMapPathUnspecified
    }
}

/// The map that the file name of a BPF map path stands for (unspecified for any other
/// name).
pub fn bpf_map_path_to_enum(map_path: &str) -> (r: MapPath)
    ensures
        r == spec_map_path(file_name(map_path@)),
{
    let name = path_file_name(map_path);
    if str_eq(name, "map_Accessibility_output_buf") {
        MapPath::BpfMapPathAccessibilityOutputBuf
    } else if str_eq(name, "map_Binder_output_buf") {
        MapPath::BpfMapPathBinderOutputBuf
    } else if str_eq(name, "map_BitmapAllocation_output") {
        MapPath::BpfMapPathBitmapAllocationOutput
    } else if str_eq(name, "map_DisruptiveApp_BindServiceLocked_output_buf") {
        MapPath::BpfMapPathDisruptiveAppBindServiceLockedOutputBuf
    } else if str_eq(name, "map_DisruptiveApp_ComponentEnabledSetting_output_buf") {
        MapPath::BpfMapPathDisruptiveAppComponentEnabledSettingOutputBuf
    } else if str_eq(name, "map_GenericInstrumentation_call_detail_buf") {
        MapPath::BpfMapPathGenericInstrumentationCallDetailBuf
    } else if str_eq(name, "map_GenericInstrumentation_call_timestamp_buf") {
        MapPath::BpfMapPathGenericInstrumentationCallTimestampBuf
    } else {
        MapPath::BpfMapPathUnspecified
    }
}

/// What a bitmap allocation snapshot shows.
#[derive(Debug, Clone, Copy, PartialEq, Eq)]
pub enum SnapshotType {
    /// Not one of the known kinds.
    SnapshotTypeUnspecified,
    /// The bitmaps alive when their total size was largest.
    SnapshotTypeMaxAllocationSize,
    /// The bitmaps alive at the end.
    SnapshotTypeRandomSample,
}

/// The snapshot kind that a raw snapshot type stands for.
pub open spec fn spec_snapshot_type(raw: i32) -> SnapshotType {
    if raw == 1 {
        SnapshotType::SnapshotTypeMaxAllocationSize
    } else if raw == 2 {
        SnapshotType::SnapshotTypeRandomSample
    } else {
        SnapshotType::SnapshotTypeUnspecified
    }
}

/// The snapshot kind that a raw snapshot type stands for (unspecified for any value but 1
/// and 2).
pub fn convert_to_snapshot_type_enum(snapshot_type: i32) -> (r: SnapshotType)
    ensures
        r == spec_snapshot_type(snapshot_type),
{
    match snapshot_type {
        1 => SnapshotType::SnapshotTypeMaxAllocationSize,
        2 => SnapshotType::SnapshotTypeRandomSample,
        _ => SnapshotType::SnapshotTypeUnspecified,
    }
}

/// The kinds of internal error that uprobestats reports.
#[allow(missing_docs)]
#[derive(Debug, Clone, Copy, PartialEq, Eq)]
pub enum InternalErrorType {
    ErrorTypeBpfRingBufferCreateFailed,
    ErrorTypeBpfRingBufferPollFailed,
    ErrorTypeBpfProgramError,
    ErrorTypeBpfRingBufferDataInvalid,
    ErrorTypeTaskExecutionFailed,
}

/// The internal error that a handler's failure is reported as, with its failure point.
pub open spec fn spec_handler_error_report(e: HandlerError) -> (InternalErrorType, i64) {
    match e {
        HandlerError::Uprobestats(UprobeStatsError::BpfProgramError(point)) => (
            InternalErrorType::ErrorTypeBpfProgramError,
            point,
        ),
        HandlerError::Uprobestats(UprobeStatsError::BpfDataInvalid(point)) => (
            InternalErrorType::ErrorTypeBpfRingBufferDataInvalid,
            point,
        ),
        _ => (InternalErrorType::ErrorTypeTaskExecutionFailed, 0),
    }
}

/// The internal error that a handler's failure is reported as: errors the BPF program or its
/// data reported keep their failure point; any other failure is a failed task execution.
pub fn handler_error_report(e: &HandlerError) -> (r: (InternalErrorType, i64))
    ensures
        r == spec_handler_error_report(*e),
{
    match e {
        HandlerError::Uprobestats(UprobeStatsError::BpfProgramError(point)) => (
            InternalErrorType::ErrorTypeBpfProgramError,
            *point,
        ),
        HandlerError::Uprobestats(UprobeStatsError::BpfDataInvalid(point)) => (
            InternalErrorType::ErrorTypeBpfRingBufferDataInvalid,
            *point,
        ),
        _ => (InternalErrorType::ErrorTypeTaskExecutionFailed, 0),
    }
}

} // verus!
