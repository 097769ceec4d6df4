//! Deals with process management events from BPF.
use crate::atom::{plain_field, AtomView, AtomWriter, Field, UnstructuredAtom, Value, ValueView};
use crate::bpf_handler::{
    handled_as, lemma_no_write, lemma_single_write, logging_atom_id, spec_logging_atom_id, write_atom, HandlerError,
};
use crate::config;
use crate::config_resolver::ResolvedTask;
use crate::string::{bytes_as_str, spec_bytes_as_str};
use vstd::prelude::*;

verus! {

/// The ring buffer of temporary allowlist state changes.
pub const SET_UID_TEMP_ALLOWLIST_STATE_MAP_PATH: &'static str = "/sys/fs/bpf/uprobestats/map_ProcessManagement_output_buf";

/// The ring buffer of device idle temporary allowlist updates.
pub const UPDATE_DEVICE_IDLE_TEMP_ALLOWLIST_MAP_PATH: &'static str = "/sys/fs/bpf/uprobestats/map_ProcessManagement_update_device_idle_temp_allowlist_records";

/// A change of a uid's temporary allowlist state.
#[derive(Debug, Clone, Copy, PartialEq, Eq)]
pub struct SetUidTempAllowlistStateRecord {
    /// The uid.
    pub uid: u32,
    /// Whether the uid is now on the allowlist.
    pub on_allowlist: bool,
}

/// An update of the device idle temporary allowlist.
#[derive(Debug, Clone, PartialEq, Eq)]
#[allow(missing_docs)]
pub struct UpdateDeviceIdleTempAllowlistRecord {
    pub changing_uid: i32,
    pub adding: bool,
    pub duration_ms: i64,
    pub type_: i32,
    pub reason_code: i32,
    /// The reason, a NUL-terminated C string.
    pub reason: Vec<u8>,
    pub calling_uid: i32,
    pub method_identifier: u64,
}

/// The atoms that a temporary allowlist state change makes the handler write, or its error.
pub open spec fn spec_set_uid_temp_allowlist_atoms(
    c: Option<config::StatsdLoggingConfig>,
    data: SetUidTempAllowlistStateRecord,
) -> Result<Seq<AtomView>, HandlerError> {
    match spec_logging_atom_id(c) {
        Err(e) => Err(e),
        Ok(None) => Ok(Seq::empty()),
        Ok(Some(atom_id)) => if data.uid > i32::MAX {
            Err(HandlerError::OutOfRange)
        } else {
            Ok(seq![AtomView {
                atom_id,
                fields: seq![plain_field(ValueView::Int32(data.uid as i32)), plain_field(ValueView::Bool(data.on_allowlist))],
            }])
        },
    }
}

/// Emits an atom when a UID's temporary allowlist state changes.
pub struct SetUidTempAllowlistStateRecordHandler<A> {
    /// Where the atoms go.
    pub writer: A,
}

impl<A: AtomWriter<UnstructuredAtom>> SetUidTempAllowlistStateRecordHandler<A> {
    /// A handler writing to `writer`.
    pub fn new(writer: A) -> (r: Self)
        ensures
            r.writer == writer,
    {
        SetUidTempAllowlistStateRecordHandler { writer }
    }

    /// Logs the state change when the task asks for statsd logging.
    pub fn on_item(&mut self, task: &ResolvedTask, data: &SetUidTempAllowlistStateRecord) -> (r: Result<(), HandlerError>)
        ensures
            handled_as(
                spec_set_uid_temp_allowlist_atoms(task.statsd_logging_config, *data),
                old(self).writer.written(),
                final(self).writer.written(),
                r,
                old(self).writer.reliable(),
            ),
    {
        let atom_id = match logging_atom_id(&task.statsd_logging_config)? {
            Some(id) => id,
            None => {
                proof { lemma_no_write(self.writer.written()); }
                return Ok(());
            },
        };
        if data.uid > i32::MAX as u32 {
            return Err(HandlerError::OutOfRange);
        }
        let mut fields = Vec::new();
        fields.push(Field::new(Value::Int32(data.uid as i32)));
        fields.push(Field::new(Value::Bool(data.on_allowlist)));
        let atom = UnstructuredAtom { atom_id, fields };
        assert(atom@.fields =~= seq![
            plain_field(ValueView::Int32(data.uid as i32)),
            plain_field(ValueView::Bool(data.on_allowlist)),
        ]);
        let ghost before = self.writer.written();
        let ghost view = atom@;
        let r = write_atom(&mut self.writer, atom);
        proof { lemma_single_write(before, self.writer.written(), view, r is Ok); }
        r
    }
}

/// The atoms that a device idle temporary allowlist update makes the handler write, or its
/// error.
pub open spec fn spec_update_device_idle_temp_allowlist_atoms(
    c: Option<config::StatsdLoggingConfig>,
    data: UpdateDeviceIdleTempAllowlistRecord,
) -> Result<Seq<AtomView>, HandlerError> {
    match spec_logging_atom_id(c) {
        Err(e) => Err(e),
        Ok(None) => Ok(Seq::empty()),
        Ok(Some(atom_id)) => match spec_bytes_as_str(data.reason@) {
            Err(e) => Err(HandlerError::InvalidString(e)),
            Ok(reason) => Ok(seq![AtomView {
                atom_id,
                fields: seq![
                    plain_field(ValueView::Int32(data.changing_uid)),
                    plain_field(ValueView::Bool(data.adding)),
                    plain_field(ValueView::Int64(data.duration_ms)),
                    plain_field(ValueView::Int32(data.type_)),
                    plain_field(ValueView::Int32(data.reason_code)),
                    plain_field(ValueView::String(reason)),
                    plain_field(ValueView::Int32(data.calling_uid)),
                ],
            }]),
        },
    }
}

/// Emits an atom when the device idle temporary allowlist is updated.
pub struct UpdateDeviceIdleTempAllowlistRecordHandler<A> {
    /// Where the atoms go.
    pub writer: A,
}

impl<A: AtomWriter<UnstructuredAtom>> UpdateDeviceIdleTempAllowlistRecordHandler<A> {
    /// A handler writing to `writer`.
    pub fn new(writer: A) -> (r: Self)
        ensures
            r.writer == writer,
    {
        UpdateDeviceIdleTempAllowlistRecordHandler { writer }
    }

    /// Logs the update when the task asks for statsd logging.
    pub fn on_item(&mut self, task: &ResolvedTask, data: &UpdateDeviceIdleTempAllowlistRecord) -> (r: Result<(), HandlerError>)
        ensures
            handled_as(
                spec_update_device_idle_temp_allowlist_atoms(task.statsd_logging_config, *data),
                old(self).writer.written(),
                final(self).writer.written(),
                r,
                old(self).writer.reliable(),
            ),
    {
        let atom_id = match logging_atom_id(&task.statsd_logging_config)? {
            Some(id) => id,
            None => {
                proof { lemma_no_write(self.writer.written()); }
                return Ok(());
            },
        };
        let reason = match bytes_as_str(data.reason.as_slice()) {
            Ok(s) => s,
            Err(e) => {
                return Err(HandlerError::InvalidString(e));
            },
        };
        let mut fields = Vec::new();
        fields.push(Field::new(Value::Int32(data.changing_uid)));
        fields.push(Field::new(Value::Bool(data.adding)));
        fields.push(Field::new(Value::Int64(data.duration_ms)));
        fields.push(Field::new(Value::Int32(data.type_)));
        fields.push(Field::new(Value::Int32(data.reason_code)));
        let ghost reason_view = reason@;
        fields.push(Field::new(Value::String(reason)));
        fields.push(Field::new(Value::Int32(data.calling_uid)));
        let atom = UnstructuredAtom { atom_id, fields };
        assert(atom@.fields =~= seq![
            plain_field(ValueView::Int32(data.changing_uid)),
            plain_field(ValueView::Bool(data.adding)),
            plain_field(ValueView::Int64(data.duration_ms)),
            plain_field(ValueView::Int32(data.type_)),
            plain_field(ValueView::Int32(data.reason_code)),
            plain_field(ValueView::String(reason_view)),
            plain_field(ValueView::Int32(data.calling_uid)),
        ]);
        let ghost before = self.writer.written();
        let ghost view = atom@;
        let r = write_atom(&mut self.writer, atom);
        proof { lemma_single_write(before, self.writer.written(), view, r is Ok); }
        r
    }
}

/// A logged allowlist state change names the record's uid and its new state: a uid leaving
/// the allowlist is logged as off it, one joining as on it, under the configured atom id;
/// without a logging config nothing is logged.
pub proof fn lemma_allowlist_state_logged(c: Option<config::StatsdLoggingConfig>, data: SetUidTempAllowlistStateRecord)
    ensures
        c is None ==> spec_set_uid_temp_allowlist_atoms(c, data) == Ok::<Seq<AtomView>, HandlerError>(Seq::empty()),
        match spec_set_uid_temp_allowlist_atoms(c, data) {
            Err(_) => true,
            Ok(atoms) => atoms.len() > 0 ==> {
            &&& atoms.len() == 1
            &&& c matches Some(cfg) && cfg.atom_id matches Some(id) && atoms[0].atom_id == id
            &&& atoms[0].fields.len() == 2
            &&& atoms[0].fields[0].value == ValueView::Int32(data.uid as i32)
            &&& atoms[0].fields[1].value == ValueView::Bool(data.on_allowlist)
            &&& (atoms[0].fields[1].value == ValueView::Bool(true) <==> data.on_allowlist)
            },
        },
{
}

/// A logged idle allowlist update carries the record's values in order: the changing uid,
/// whether it is added, the duration, the type, the reason code, the reason text and the
/// calling uid.
pub proof fn lemma_idle_allowlist_update_logged(
    c: Option<config::StatsdLoggingConfig>,
    data: UpdateDeviceIdleTempAllowlistRecord,
)
    ensures
        c is None ==> spec_update_device_idle_temp_allowlist_atoms(c, data) == Ok::<Seq<AtomView>, HandlerError>(
            Seq::empty(),
        ),
        match spec_update_device_idle_temp_allowlist_atoms(c, data) {
            Err(_) => true,
            Ok(atoms) => atoms.len() > 0 ==> {
            &&& atoms.len() == 1
            &&& c matches Some(cfg) && cfg.atom_id matches Some(id) && atoms[0].atom_id == id
            &&& atoms[0].fields.len() == 7
            &&& atoms[0].fields[0].value == ValueView::Int32(data.changing_uid)
            &&& atoms[0].fields[1].value == ValueView::Bool(data.adding)
            &&& atoms[0].fields[2].value == ValueView::Int64(data.duration_ms)
            &&& atoms[0].fields[3].value == ValueView::Int32(data.type_)
            &&& atoms[0].fields[4].value == ValueView::Int32(data.reason_code)
            &&& spec_bytes_as_str(data.reason@) matches Ok(reason) && atoms[0].fields[5].value == ValueView::String(reason)
            &&& atoms[0].fields[6].value == ValueView::Int32(data.calling_uid)
            },
        },
{
}

} // verus!
