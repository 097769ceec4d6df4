//! Reports the binder transactions that a task's binder transaction filters select, to statsd
//! and to the dynamic instrumentation event service.
use crate::atom::{
    annotated_field, plain_field, views, AtomView, AtomWriter, Field, FieldAnnotation, FieldView, UnstructuredAtom,
    Value, ValueView,
};
use crate::bpf_handler::HandlerError;
use crate::bridge_service::{
    int_entry, string_entry, BridgeEvent, BridgeEventView, EntryValueView, PayloadId, UprobeStatsBridgeService,
};
use crate::config::AtomFieldPosition;
use crate::config_resolver::{
    lookup_interface, lookup_method, AtomConfig, EventMode, MethodConfig, MethodConfigView, ResolvedProbe,
    ResolvedProbeView, ResolvedTask,
};
use crate::string::{bytes_as_nonempty_str, spec_bytes_as_nonempty_str};
use vstd::prelude::*;

verus! {

/// The ring buffer the binder BPF program writes to.
pub const BINDER_TRANSACTION_MAP_PATH: &'static str = "/sys/fs/bpf/uprobestats/map_Binder_output_buf";

/// A binder transaction as the BPF program reports it.
#[derive(Debug, Clone, PartialEq, Eq)]
pub struct BinderTransaction {
    /// The interface descriptor, a NUL-terminated C string.
    pub interface_descriptor: Vec<u8>,
    /// The transaction code.
    pub code: u64,
    /// The uid of the caller.
    pub calling_uid: i32,
    /// The kernel time of the transaction, in nanoseconds.
    pub timestamp_ns: u64,
}

/// The configuration of the transaction's method: that of the first probe, in order, whose
/// filters hold both the interface and the method.
pub open spec fn find_method(probes: Seq<ResolvedProbeView>, name: Seq<char>, code: u64) -> Option<MethodConfigView>
    decreases probes.len(),
{
    if probes.len() == 0 {
        None
    } else {
        let here = match lookup_interface(probes[0].binder_transaction_filters, name) {
            Some(methods) => lookup_method(methods, code),
            None => None,
        };
        match here {
            Some(m) => Some(m),
            None => find_method(probes.drop_first(), name, code),
        }
    }
}

/// The field that a position stands for.
pub open spec fn spec_position_field(
    position: AtomFieldPosition,
    uid: i32,
    name: Seq<char>,
    code: i32,
    timestamp_ns: i64,
) -> FieldView {
    match position {
        AtomFieldPosition::CALLING_UID => annotated_field(ValueView::Int32(uid), FieldAnnotation::IsUid(true)),
        AtomFieldPosition::INTERFACE_NAME => plain_field(ValueView::String(name)),
        AtomFieldPosition::CODE => plain_field(ValueView::Int32(code)),
        _ => plain_field(ValueView::Int64(timestamp_ns)),
    }
}

/// The fields of the atom, one per position in order; an error when a position is unknown.
pub open spec fn spec_atom_fields(
    positions: Seq<AtomFieldPosition>,
    uid: i32,
    name: Seq<char>,
    code: i32,
    timestamp_ns: i64,
) -> Result<Seq<FieldView>, HandlerError> {
    if positions.contains(AtomFieldPosition::UNKNOWN) {
        Err(HandlerError::UnknownAtomFieldPosition)
    } else {
        Ok(positions.map_values(|p: AtomFieldPosition| spec_position_field(p, uid, name, code, timestamp_ns)))
    }
}

/// The event telling the event service of a transaction: the interface and the code.
pub open spec fn spec_transaction_event(uid: i32, timestamp_ms: i64, name: Seq<char>, code: i32) -> BridgeEventView {
    BridgeEventView {
        uid,
        timestamp_ms,
        payload_id: PayloadId::BinderTransaction,
        payload: seq![
            ("INTERFACE_NAME"@, EntryValueView::StringValue(name)),
            ("CODE"@, EntryValueView::IntValue(code)),
        ],
    }
}

/// What the handler does with a transaction: the atom it writes and the event (with its
/// flush flag) it sends, or why it refuses the transaction. `now_ms` is the time the event
/// carries.
pub open spec fn spec_transaction_plan(
    probes: Seq<ResolvedProbeView>,
    item: BinderTransaction,
    now_ms: i64,
) -> Result<(Option<AtomView>, Option<(BridgeEventView, bool)>), HandlerError> {
    match spec_bytes_as_nonempty_str(item.interface_descriptor@) {
        Err(e) => Err(HandlerError::InvalidString(e)),
        Ok(name) => match find_method(probes, name, item.code) {
            None => Err(HandlerError::NoBinderConfig),
            Some(mc) => if item.code > i32::MAX {
                Err(HandlerError::OutOfRange)
            } else {
                let code = item.code as i32;
                let atom = match mc.atom_config {
                    None => Ok(None),
                    Some(ac) => if item.timestamp_ns > i64::MAX {
                        Err(HandlerError::OutOfRange)
                    } else {
                        match spec_atom_fields(
                            ac.atom_field_positions,
                            item.calling_uid,
                            name,
                            code,
                            item.timestamp_ns as i64,
                        ) {
                            Err(e) => Err(e),
                            Ok(fields) => Ok(Some(AtomView { atom_id: ac.atom_id, fields })),
                        }
                    },
                };
                match atom {
                    Err(e) => Err(e),
                    Ok(atom) => Ok(
                        (
                            atom,
                            match mc.event_service_config {
                                None => None,
                                Some(esc) => Some(
                                    (
                                        spec_transaction_event(item.calling_uid, now_ms, name, code),
                                        esc.mode == EventMode::Flush,
                                    ),
                                ),
                            },
                        ),
                    ),
                }
            },
        },
    }
}

/// What `on_item` did with its `planned` atom and event: the atom is written first, and
/// nothing is sent when that fails; `written` and `enqueued` are the writer's atoms and the
/// bridge's accepted events around the call.
pub open spec fn transaction_handled_as(
    planned: Result<(Option<AtomView>, Option<(BridgeEventView, bool)>), HandlerError>,
    written_before: Seq<AtomView>,
    written_after: Seq<AtomView>,
    enqueued_before: Seq<(BridgeEventView, bool)>,
    enqueued_after: Seq<(BridgeEventView, bool)>,
    r: Result<(), HandlerError>,
    reliable: bool,
) -> bool {
    match planned {
        Err(e) => r == Err::<(), HandlerError>(e) && written_after == written_before && enqueued_after == enqueued_before,
        Ok((atom, event)) => {
            ||| {
                &&& atom is Some
                &&& !reliable
                &&& r matches Err(HandlerError::Write(_))
                &&& written_after == written_before
                &&& enqueued_after == enqueued_before
            }
            ||| {
                &&& written_after == match atom {
                    Some(a) => written_before.push(a),
                    None => written_before,
                }
                &&& match event {
                    None => r is Ok && enqueued_after == enqueued_before,
                    Some(ev) => if r is Ok {
                        enqueued_after == enqueued_before.push(ev)
                    } else {
                        r matches Err(HandlerError::Bridge(_)) && enqueued_after == enqueued_before
                    },
                }
            }
        },
    }
}

/// The configuration of the transaction's method (`find_method`).
fn find_method_config<'a>(probes: &'a Vec<ResolvedProbe>, name: &str, code: u64) -> (r: Option<&'a MethodConfig>)
    ensures
        match r {
            Some(m) => find_method(views(probes@), name@, code) == Some(m@),
            None => find_method(views(probes@), name@, code) is None,
        },
{
    let ghost ps = views(probes@);
    let mut i: usize = 0;
    assert(ps.skip(0) =~= ps);
    while i < probes.len()
        invariant
            i <= probes@.len(),
            ps == views(probes@),
            find_method(ps, name@, code) == find_method(ps.skip(i as int), name@, code),
        decreases probes@.len() - i,
    {
        assert(ps.skip(i as int).drop_first() =~= ps.skip(i + 1));
        assert(ps.skip(i as int)[0] == probes@[i as int]@);
        if let Some(interface) = probes[i].binder_transaction_filters.get(name) {
            if let Some(m) = interface.get_method(&code) {
                return Some(m);
            }
        }
        i = i + 1;
    }
    None
}

/// The fields of the atom (`spec_atom_fields`).
fn atom_fields(
    positions: &Vec<AtomFieldPosition>,
    uid: i32,
    name: &str,
    code: i32,
    timestamp_ns: i64,
) -> (r: Result<Vec<Field>, HandlerError>)
    ensures
        match r {
            Ok(fields) => spec_atom_fields(positions@, uid, name@, code, timestamp_ns)
                == Ok::<Seq<FieldView>, HandlerError>(views(fields@)),
            Err(e) => spec_atom_fields(positions@, uid, name@, code, timestamp_ns) == Err::<Seq<FieldView>, HandlerError>(e),
        },
{
    let ghost f = |p: AtomFieldPosition| spec_position_field(p, uid, name@, code, timestamp_ns);
    let mut fields: Vec<Field> = Vec::new();
    let mut i: usize = 0;
    while i < positions.len()
        invariant
            i <= positions@.len(),
            forall|k: int| 0 <= k < i ==> positions@[k] != AtomFieldPosition::UNKNOWN,
            views(fields@) == positions@.take(i as int).map_values(f),
            f == (|p: AtomFieldPosition| spec_position_field(p, uid, name@, code, timestamp_ns)),
        decreases positions@.len() - i,
    {
        let field = match positions[i] {
            AtomFieldPosition::CALLING_UID => Field::new_with_annotation(Value::Int32(uid), FieldAnnotation::IsUid(true)),
            AtomFieldPosition::INTERFACE_NAME => Field::new(Value::String(String::from_str(name))),
            AtomFieldPosition::CODE => Field::new(Value::Int32(code)),
            AtomFieldPosition::KTIME_NS => Field::new(Value::Int64(timestamp_ns)),
            AtomFieldPosition::UNKNOWN => {
                assert(positions@[i as int] == AtomFieldPosition::UNKNOWN);
                assert(positions@.contains(AtomFieldPosition::UNKNOWN));
                return Err(HandlerError::UnknownAtomFieldPosition);
            },
        };
        assert(field@ == f(positions@[i as int]));
        let ghost before = fields@;
        fields.push(field);
        assert(views(fields@) =~= views(before).push(field@));
        assert(views(fields@) =~= positions@.take(i + 1).map_values(f));
        i = i + 1;
    }
    assert(positions@.take(i as int) =~= positions@);
    assert(!positions@.contains(AtomFieldPosition::UNKNOWN));
    Ok(fields)
}

/// The event telling the event service of a transaction.
fn transaction_event(uid: i32, timestamp_ms: i64, name: &str, code: i32) -> (r: BridgeEvent)
    ensures
        r@ == spec_transaction_event(uid, timestamp_ms, name@, code),
{
    let mut payload = Vec::new();
    payload.push(string_entry("INTERFACE_NAME", name));
    payload.push(int_entry("CODE", code));
    let r = BridgeEvent { uid, timestamp_ms, payload_id: PayloadId::BinderTransaction, payload };
    assert(r@.payload =~= spec_transaction_event(uid, timestamp_ms, name@, code).payload);
    r
}

/// Reports binder transactions as the task's binder transaction filters ask.
pub struct BinderTransactionHandler<A, B> {
    /// Where the atoms go.
    pub atom_writer: A,
    /// The bridge service that is told of the transactions.
    pub bridge_service: B,
}

impl<A: AtomWriter<UnstructuredAtom>, B: UprobeStatsBridgeService> BinderTransactionHandler<A, B> {
    /// A handler writing to `atom_writer` and sending to `bridge_service`.
    pub fn new(atom_writer: A, bridge_service: B) -> (r: Self)
        ensures
            r.atom_writer == atom_writer,
            r.bridge_service == bridge_service,
    {
        BinderTransactionHandler { atom_writer, bridge_service }
    }

    /// Reports a transaction: writes the atom of its method's atom config and sends the
    /// event of its event service config (with `now_ms` as its time). A transaction of an
    /// interface or method that no filter of the task holds is an error.
    pub fn on_item(&mut self, task: &ResolvedTask, item: &BinderTransaction, now_ms: i64) -> (r: Result<(), HandlerError>)
        ensures
            transaction_handled_as(
                spec_transaction_plan(views(task.resolved_probes@), *item, now_ms),
                old(self).atom_writer.written(),
                final(self).atom_writer.written(),
                old(self).bridge_service.enqueued(),
                final(self).bridge_service.enqueued(),
                r,
                old(self).atom_writer.reliable(),
            ),
            final(self).atom_writer.reliable() == old(self).atom_writer.reliable(),
    {
        let ghost planned = spec_transaction_plan(views(task.resolved_probes@), *item, now_ms);
        let name = match bytes_as_nonempty_str(item.interface_descriptor.as_slice()) {
            Ok(s) => s,
            Err(e) => {
                return Err(HandlerError::InvalidString(e));
            },
        };
        let method_config = match find_method_config(&task.resolved_probes, name.as_str(), item.code) {
            Some(m) => m,
            None => {
                return Err(HandlerError::NoBinderConfig);
            },
        };
        if item.code > i32::MAX as u64 {
            return Err(HandlerError::OutOfRange);
        }
        let code = item.code as i32;
        if let Some(atom_config) = &method_config.atom_config {
            if item.timestamp_ns > i64::MAX as u64 {
                return Err(HandlerError::OutOfRange);
            }
            let fields = atom_fields(
                &atom_config.atom_field_positions,
                item.calling_uid,
                name.as_str(),
                code,
                item.timestamp_ns as i64,
            )?;
            let atom = UnstructuredAtom { atom_id: atom_config.atom_id, fields };
            let ghost view = atom@;
            assert(view.fields =~= views(fields@));
            match self.atom_writer.write(atom) {
                Ok(()) => {},
                Err(e) => {
                    return Err(HandlerError::Write(e));
                },
            }
        }
        if let Some(esc) = &method_config.event_service_config {
            let flush = match esc.mode {
                EventMode::Flush => true,
                EventMode::Buffer => false,
            };
            let event = transaction_event(item.calling_uid, now_ms, name.as_str(), code);
            match self.bridge_service.enqueue_event(event, flush) {
                Ok(()) => {},
                Err(e) => {
                    return Err(HandlerError::Bridge(e));
                },
            }
        }
        Ok(())
    }
}

/// What a transaction reports follows the item and its method's configuration: an atom only
/// when the method has an atom config, under its atom id, with one field per configured
/// position (the caller's uid marked as a uid, the interface, the code or the kernel time);
/// an event only when the method has an event config, with the caller's uid, the given
/// time, the interface and the code, flushed exactly in flush mode.
pub proof fn lemma_transaction_reports_item(probes: Seq<ResolvedProbeView>, item: BinderTransaction, now_ms: i64)
    ensures
        spec_transaction_plan(probes, item, now_ms) matches Ok((atom, event)) ==> {
            &&& spec_bytes_as_nonempty_str(item.interface_descriptor@) matches Ok(name) && find_method(
                probes,
                name,
                item.code,
            ) matches Some(mc) && {
                &&& (atom is Some <==> mc.atom_config is Some)
                &&& (event is Some <==> mc.event_service_config is Some)
                &&& atom matches Some(a) ==> {
                    &&& a.atom_id == mc.atom_config->0.atom_id
                    &&& a.fields.len() == mc.atom_config->0.atom_field_positions.len()
                    &&& forall|k: int|
                        0 <= k < a.fields.len() ==> match mc.atom_config->0.atom_field_positions[k] {
                            AtomFieldPosition::CALLING_UID => #[trigger] a.fields[k] == annotated_field(
                                ValueView::Int32(item.calling_uid),
                                FieldAnnotation::IsUid(true),
                            ),
                            AtomFieldPosition::INTERFACE_NAME => a.fields[k] == plain_field(ValueView::String(name)),
                            AtomFieldPosition::CODE => a.fields[k].value matches ValueView::Int32(c) && c == item.code
                                && a.fields[k].annotations.len() == 0,
                            AtomFieldPosition::KTIME_NS => a.fields[k].value matches ValueView::Int64(t) && t
                                == item.timestamp_ns && a.fields[k].annotations.len() == 0,
                            AtomFieldPosition::UNKNOWN => false,
                        }
                }
                &&& event matches Some((ev, flush)) ==> {
                    &&& ev.uid == item.calling_uid
                    &&& ev.timestamp_ms == now_ms
                    &&& ev.payload_id == PayloadId::BinderTransaction
                    &&& ev.payload.len() == 2
                    &&& ev.payload[0] == ("INTERFACE_NAME"@, EntryValueView::StringValue(name))
                    &&& ev.payload[1].0 == "CODE"@
                    &&& ev.payload[1].1 matches EntryValueView::IntValue(c) && c == item.code
                    &&& flush == (mc.event_service_config->0.mode == EventMode::Flush)
                }
            }
        },
{
    if let Ok((atom, event)) = spec_transaction_plan(probes, item, now_ms) {
        let name = spec_bytes_as_nonempty_str(item.interface_descriptor@)->Ok_0;
        let mc = find_method(probes, name, item.code)->Some_0;
        if let Some(a) = atom {
            let positions = mc.atom_config->0.atom_field_positions;
            assert forall|k: int| 0 <= k < a.fields.len() implies match positions[k] {
                AtomFieldPosition::CALLING_UID => #[trigger] a.fields[k] == annotated_field(
                    ValueView::Int32(item.calling_uid),
                    FieldAnnotation::IsUid(true),
                ),
                AtomFieldPosition::INTERFACE_NAME => a.fields[k] == plain_field(ValueView::String(name)),
                AtomFieldPosition::CODE => a.fields[k].value matches ValueView::Int32(c) && c == item.code
                    && a.fields[k].annotations.len() == 0,
                AtomFieldPosition::KTIME_NS => a.fields[k].value matches ValueView::Int64(t) && t == item.timestamp_ns
                    && a.fields[k].annotations.len() == 0,
                AtomFieldPosition::UNKNOWN => false,
            } by {
                if positions[k] == AtomFieldPosition::UNKNOWN {
                    assert(positions.contains(positions[k]));
                }
            }
        }
    }
}

} // verus!
