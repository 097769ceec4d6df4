//! The probing configuration (`UprobestatsConfig`) as it arrives from statsd, held as plain
//! values. Every field that the wire format leaves optional is an `Option`.
use vstd::prelude::*;

verus! {

/// Where a piece of binder transaction data goes in a logged atom.
#[allow(non_camel_case_types)]
#[derive(Debug, Clone, Copy, PartialEq, Eq)]
pub enum AtomFieldPosition {
    /// Not a known position (also what an unrecognised wire value decodes to).
    UNKNOWN,
    /// The uid of the calling process.
    CALLING_UID,
    /// The binder interface descriptor.
    INTERFACE_NAME,
    /// The transaction code.
    CODE,
    /// The kernel timestamp of the transaction, in nanoseconds.
    KTIME_NS,
}

/// How a binder transaction is forwarded to the event service.
#[derive(Debug, Clone, Copy, Default, PartialEq)]
pub struct EventServiceConfig {
    /// Whether the event is flushed immediately.
    pub flush: Option<bool>,
}

/// How a binder transaction is logged to statsd.
#[derive(Debug, Clone, Default, PartialEq)]
pub struct AtomConfig {
    /// The atom to log.
    pub atom_id: Option<i32>,
    /// Where each piece of data goes in the atom.
    pub atom_field_positions: Vec<AtomFieldPosition>,
}

impl AtomConfig {
    /// A copy of this configuration.
    pub fn duplicate(&self) -> (r: Self)
        ensures
            r.atom_id == self.atom_id,
            r.atom_field_positions@ == self.atom_field_positions@,
    {
        let mut positions = Vec::new();
        let mut i: usize = 0;
        while i < self.atom_field_positions.len()
            invariant
                i <= self.atom_field_positions@.len(),
                positions@ == self.atom_field_positions@.take(i as int),
            decreases self.atom_field_positions@.len() - i,
        {
            positions.push(self.atom_field_positions[i]);
            i = i + 1;
            assert(positions@ =~= self.atom_field_positions@.take(i as int));
        }
        assert(positions@ =~= self.atom_field_positions@);
        AtomConfig { atom_id: self.atom_id, atom_field_positions: positions }
    }
}

/// What to do when a binder method is invoked.
#[derive(Debug, Clone, Default, PartialEq)]
pub struct MethodConfig {
    /// The binder transaction code of the method.
    pub method_id: Option<i64>,
    /// Forwarding to the event service, if any.
    pub event_service_config: Option<EventServiceConfig>,
    /// Logging to statsd, if any.
    pub atom_config: Option<AtomConfig>,
}

/// The binder methods of one interface that a binder probe reports.
#[derive(Debug, Clone, Default, PartialEq)]
pub struct BinderTransactionFilter {
    /// The interface descriptor.
    pub interface_name: Option<String>,
    /// The methods of the interface.
    pub method_configs: Vec<MethodConfig>,
}

/// One uprobe to attach.
#[derive(Debug, Clone, Default, PartialEq)]
pub struct ProbeConfig {
    /// File name of the BPF program to attach.
    pub bpf_name: Option<String>,
    /// Class of the method to probe.
    pub fully_qualified_class_name: Option<String>,
    /// Name of the method to probe.
    pub method_name: Option<String>,
    /// Parameter types of the method to probe.
    pub fully_qualified_parameters: Vec<String>,
    /// Binder transaction filters (binder probes only).
    pub binder_transaction_filters: Vec<BinderTransactionFilter>,
}

/// Statsd logging of generic instrumentation events.
#[derive(Debug, Clone, Default, PartialEq)]
pub struct StatsdLoggingConfig {
    /// The atom to log.
    pub atom_id: Option<i32>,
    /// Positions of the Java arguments to copy into the atom.
    pub primitive_argument_positions: Vec<i32>,
}

/// One probing task.
#[derive(Debug, Clone, Default, PartialEq)]
pub struct Task {
    /// Identifier of the task.
    pub task_id: Option<i64>,
    /// File names of the BPF maps to poll.
    pub bpf_maps: Vec<String>,
    /// How long the task runs, in seconds.
    pub duration_seconds: Option<i32>,
    /// Statsd logging of generic events, if any.
    pub statsd_logging_config: Option<StatsdLoggingConfig>,
    /// Wire value of the target process selection.
    pub target_process_selection: Option<i32>,
    /// Name of the target process.
    pub target_process_name: Option<String>,
    /// The probes to attach.
    pub probe_configs: Vec<ProbeConfig>,
}

/// A whole probing configuration.
#[derive(Debug, Clone, Default, PartialEq)]
pub struct UprobestatsConfig {
    /// The tasks of the configuration.
    pub tasks: Vec<Task>,
}

} // verus!
