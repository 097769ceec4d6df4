//! Handlers for the generic instrumentation programs: call timestamps and call results.
use crate::atom::{plain_field, AtomView, AtomWriter, Field, UnstructuredAtom, Value, ValueView};
use crate::bpf_handler::{
    handled_as, lemma_no_write, lemma_single_write, logging_atom_id, spec_logging_atom_id, write_atom, HandlerError,
};
use crate::config;
use crate::config_resolver::ResolvedTask;
use vstd::prelude::*;

verus! {

/// Java arguments start at this register in the call result.
pub const JAVA_ARGUMENT_REGISTER_OFFSET: i32 = 2;

/// The ring buffer of call timestamp events.
pub const CALL_TIMESTAMP_MAP_PATH: &'static str = "/sys/fs/bpf/uprobestats/map_GenericInstrumentation_call_timestamp_buf";

/// The program that emits call timestamp events.
pub const CALL_TIMESTAMP_PROG_PATH: &'static str = "/sys/fs/bpf/uprobestats/prog_GenericInstrumentation_uprobe_call_timestamp";

/// The ring buffer of call result events.
pub const CALL_RESULT_MAP_PATH: &'static str = "/sys/fs/bpf/uprobestats/map_GenericInstrumentation_call_detail_buf";

/// The program that emits call result events.
pub const CALL_RESULT_PROG_PATH: &'static str = "/sys/fs/bpf/uprobestats/prog_GenericInstrumentation_uprobe_call_detail";

/// A call timestamp event.
#[derive(Debug, Clone, Copy, PartialEq, Eq)]
pub struct CallTimestamp {
    /// Which event of the call.
    pub event: u32,
    /// When it happened, in nanoseconds.
    pub timestamp_ns: u64,
}

/// A call result event: the registers at the probed instruction.
#[derive(Debug, Clone, Copy, PartialEq, Eq)]
pub struct CallResult {
    /// The program counter.
    pub pc: u64,
    /// The first registers.
    pub regs: [u64; 10],
}

/// The atoms that a call timestamp event makes the handler write, or its error.
pub open spec fn spec_call_timestamp_atoms(c: Option<config::StatsdLoggingConfig>, data: CallTimestamp) -> Result<Seq<AtomView>, HandlerError> {
    match spec_logging_atom_id(c) {
        Err(e) => Err(e),
        Ok(None) => Ok(Seq::empty()),
        Ok(Some(atom_id)) => if data.event > i32::MAX {
            Err(HandlerError::OutOfRange)
        } else if data.timestamp_ns > i64::MAX {
            Err(HandlerError::OutOfRange)
        } else {
            Ok(seq![AtomView {
                atom_id,
                fields: seq![
                    plain_field(ValueView::Int32(data.event as i32)),
                    plain_field(ValueView::Int64(data.timestamp_ns as i64)),
                ],
            }])
        },
    }
}

/// Handler for generic timestamp events.
pub struct CallTimestampHandler<A> {
    /// Where the atoms go.
    pub writer: A,
}

impl<A: AtomWriter<UnstructuredAtom>> CallTimestampHandler<A> {
    /// A handler writing to `writer`.
    pub fn new(writer: A) -> (r: Self)
        ensures
            r.writer == writer,
    {
        CallTimestampHandler { writer }
    }

    /// Logs the event when the task asks for statsd logging.
    pub fn on_item(&mut self, task: &ResolvedTask, data: &CallTimestamp) -> (r: Result<(), HandlerError>)
        ensures
            handled_as(
                spec_call_timestamp_atoms(task.statsd_logging_config, *data),
                old(self).writer.written(),
                final(self).writer.written(),
                r,
                old(self).writer.reliable(),
            ),
    {
        let atom_id = match logging_atom_id(&task.statsd_logging_config)? {
            Some(id) => id,
            None => {
                proof { lemma_no_write(self.writer.written()); }
                return Ok(());
            },
        };
        if data.event > i32::MAX as u32 {
            return Err(HandlerError::OutOfRange);
        }
        if data.timestamp_ns > i64::MAX as u64 {
            return Err(HandlerError::OutOfRange);
        }
        let mut fields = Vec::new();
        fields.push(Field::new(Value::Int32(data.event as i32)));
        fields.push(Field::new(Value::Int64(data.timestamp_ns as i64)));
        let atom = UnstructuredAtom { atom_id, fields };
        assert(atom@.fields =~= seq![
            plain_field(ValueView::Int32(data.event as i32)),
            plain_field(ValueView::Int64(data.timestamp_ns as i64)),
        ]);
        let ghost before = self.writer.written();
        let ghost view = atom@;
        let r = write_atom(&mut self.writer, atom);
        proof { lemma_single_write(before, self.writer.written(), view, r is Ok); }
        r
    }
}

/// The register that a Java argument position selects: `None` when it is negative.
pub open spec fn argument_register(position: i32) -> Option<int> {
    if JAVA_ARGUMENT_REGISTER_OFFSET + position < 0 {
        None
    } else {
        Some(JAVA_ARGUMENT_REGISTER_OFFSET + position)
    }
}

/// The atom fields for the argument positions `positions`, read from `regs`, or the error of
/// the first position that cannot be read (negative, or a register value out of `i32` range).
pub open spec fn spec_argument_fields(positions: Seq<i32>, regs: Seq<u64>) -> Result<Seq<crate::atom::FieldView>, HandlerError>
    decreases positions.len(),
{
    if positions.len() == 0 {
        Ok(Seq::empty())
    } else {
        match spec_argument_fields(positions.drop_last(), regs) {
            Err(e) => Err(e),
            Ok(fields) => match argument_register(positions.last()) {
                None => Err(HandlerError::OutOfRange),
                Some(i) => if regs[i] > i32::MAX {
                    Err(HandlerError::OutOfRange)
                } else {
                    Ok(fields.push(plain_field(ValueView::Int32(regs[i] as i32))))
                },
            },
        }
    }
}

/// Every argument position reads a register that exists, up to the first negative one (after
/// which the handler stops with an error).
pub open spec fn argument_positions_in_range(positions: Seq<i32>) -> bool {
    forall|i: int|
        0 <= i < positions.len() && JAVA_ARGUMENT_REGISTER_OFFSET + positions[i] >= 10 ==> exists|j: int|
            0 <= j < i && #[trigger] argument_register(positions[j]) is None
}

/// The atoms that a call result event makes the handler write, or its error.
pub open spec fn spec_call_result_atoms(c: Option<config::StatsdLoggingConfig>, data: CallResult) -> Result<Seq<AtomView>, HandlerError> {
    match spec_logging_atom_id(c) {
        Err(e) => Err(e),
        Ok(None) => Ok(Seq::empty()),
        Ok(Some(atom_id)) => match spec_argument_fields(c->0.primitive_argument_positions@, data.regs@) {
            Err(e) => Err(e),
            Ok(fields) => Ok(seq![AtomView { atom_id, fields }]),
        },
    }
}

/// Handler for generic call result events, capturing register values.
pub struct CallResultHandler<A> {
    /// Where the atoms go.
    pub writer: A,
}

impl<A: AtomWriter<UnstructuredAtom>> CallResultHandler<A> {
    /// A handler writing to `writer`.
    pub fn new(writer: A) -> (r: Self)
        ensures
            r.writer == writer,
    {
        CallResultHandler { writer }
    }

    /// Logs the configured Java arguments of the call when the task asks for statsd logging.
    pub fn on_item(&mut self, task: &ResolvedTask, data: &CallResult) -> (r: Result<(), HandlerError>)
        requires
            task.statsd_logging_config matches Some(c) ==> argument_positions_in_range(c.primitive_argument_positions@),
        ensures
            handled_as(
                spec_call_result_atoms(task.statsd_logging_config, *data),
                old(self).writer.written(),
                final(self).writer.written(),
                r,
                old(self).writer.reliable(),
            ),
    {
        let atom_id = match logging_atom_id(&task.statsd_logging_config)? {
            Some(id) => id,
            None => {
                proof { lemma_no_write(self.writer.written()); }
                return Ok(());
            },
        };
        let config = match &task.statsd_logging_config {
            Some(c) => c,
            None => {
                return Ok(());
            },
        };
        let ghost writer_before = self.writer.written();
        let ghost positions = config.primitive_argument_positions@;
        let mut fields: Vec<Field> = Vec::new();
        let mut i: usize = 0;
        assert(positions.take(0) =~= Seq::<i32>::empty());
        assert(fields@.map_values(|f: Field| f@) =~= Seq::<crate::atom::FieldView>::empty());
        while i < config.primitive_argument_positions.len()
            invariant
                positions == config.primitive_argument_positions@,
                task.statsd_logging_config == Some(*config),
                spec_logging_atom_id(task.statsd_logging_config) == Ok::<Option<u32>, HandlerError>(Some(atom_id)),
                self.writer.written() == writer_before,
                writer_before == old(self).writer.written(),
                i <= positions.len(),
                argument_positions_in_range(positions),
                spec_argument_fields(positions.take(i as int), data.regs@) == Ok::<Seq<crate::atom::FieldView>, HandlerError>(
                    fields@.map_values(|f: Field| f@),
                ),
                forall|j: int| 0 <= j < i ==> #[trigger] argument_register(positions[j]) is Some,
            decreases positions.len() - i,
        {
            let position = config.primitive_argument_positions[i];
            assert(positions.take(i + 1).drop_last() =~= positions.take(i as int));
            assert(positions.take(i + 1).last() == position);
            if position < -JAVA_ARGUMENT_REGISTER_OFFSET {
                proof { lemma_argument_error_persists(positions, data.regs@, i + 1); }
                return Err(HandlerError::OutOfRange);
            }
            let register_index = (JAVA_ARGUMENT_REGISTER_OFFSET + position) as usize;
            if data.regs[register_index] > i32::MAX as u64 {
                proof { lemma_argument_error_persists(positions, data.regs@, i + 1); }
                return Err(HandlerError::OutOfRange);
            }
            let ghost before = fields@.map_values(|f: Field| f@);
            let field = Field::new(Value::Int32(data.regs[register_index] as i32));
            fields.push(field);
            assert(fields@.map_values(|f: Field| f@) =~= before.push(field@));
            i = i + 1;
        }
        assert(positions.take(i as int) =~= positions);
        let atom = UnstructuredAtom { atom_id, fields };
        let ghost before = self.writer.written();
        let ghost view = atom@;
        let r = write_atom(&mut self.writer, atom);
        proof { lemma_single_write(before, self.writer.written(), view, r is Ok); }
        r
    }
}

proof fn lemma_argument_error_persists(positions: Seq<i32>, regs: Seq<u64>, k: int)
    requires
        0 <= k <= positions.len(),
        spec_argument_fields(positions.take(k), regs) is Err,
    ensures
        spec_argument_fields(positions, regs) == spec_argument_fields(positions.take(k), regs),
    decreases positions.len() - k,
{
    if k < positions.len() {
        let t = positions.drop_last();
        assert(t.take(k) =~= positions.take(k));
        lemma_argument_error_persists(t, regs, k);
    } else {
        assert(positions.take(k) =~= positions);
    }
}

/// A logged call timestamp carries the event's number and its time, unchanged, under the
/// configured atom id; without a logging config nothing is logged.
pub proof fn lemma_call_timestamp_logged(c: Option<config::StatsdLoggingConfig>, data: CallTimestamp)
    ensures
        c is None ==> spec_call_timestamp_atoms(c, data) == Ok::<Seq<AtomView>, HandlerError>(Seq::empty()),
        match spec_call_timestamp_atoms(c, data) {
            Err(_) => true,
            Ok(atoms) => atoms.len() > 0 ==> {
                &&& atoms.len() == 1
                &&& c matches Some(cfg) && cfg.atom_id matches Some(id) && atoms[0].atom_id == id
                &&& atoms[0].fields.len() == 2
                &&& atoms[0].fields[0].value matches ValueView::Int32(ev) && ev == data.event
                &&& atoms[0].fields[1].value matches ValueView::Int64(ts) && ts == data.timestamp_ns
            },
        },
{
}

/// The fields read for some argument positions: one per position, each the register that
/// the position selects.
proof fn lemma_argument_fields_read(positions: Seq<i32>, regs: Seq<u64>)
    ensures
        match spec_argument_fields(positions, regs) {
            Err(_) => true,
            Ok(fields) => fields.len() == positions.len() && forall|k: int|
                0 <= k < positions.len() ==> ((#[trigger] fields[k]).value matches ValueView::Int32(v) && v
                    == regs[JAVA_ARGUMENT_REGISTER_OFFSET + positions[k]] && fields[k].annotations.len() == 0),
        },
    decreases positions.len(),
{
    if positions.len() > 0 {
        lemma_argument_fields_read(positions.drop_last(), regs);
        if let Ok(fields) = spec_argument_fields(positions, regs) {
            let prev = spec_argument_fields(positions.drop_last(), regs)->Ok_0;
            assert(fields == prev.push(fields.last()));
            assert forall|k: int| 0 <= k < positions.len() implies ((#[trigger] fields[k]).value matches ValueView::Int32(v)
                && v == regs[JAVA_ARGUMENT_REGISTER_OFFSET + positions[k]] && fields[k].annotations.len() == 0) by {
                if k < positions.len() - 1 {
                    assert(fields[k] == prev[k]);
                    assert(positions.drop_last()[k] == positions[k]);
                }
            }
        }
    }
}

/// A logged call result carries one field per configured argument position, in order, each
/// the value of the register that the position selects (Java arguments start at register
/// `JAVA_ARGUMENT_REGISTER_OFFSET`), under the configured atom id.
pub proof fn lemma_call_result_logged(c: Option<config::StatsdLoggingConfig>, data: CallResult)
    ensures
        c is None ==> spec_call_result_atoms(c, data) == Ok::<Seq<AtomView>, HandlerError>(Seq::empty()),
        match spec_call_result_atoms(c, data) {
            Err(_) => true,
            Ok(atoms) => atoms.len() > 0 ==> {
                &&& atoms.len() == 1
                &&& c matches Some(cfg) && cfg.atom_id matches Some(id) && atoms[0].atom_id == id
                &&& atoms[0].fields.len() == c->0.primitive_argument_positions@.len()
                &&& forall|k: int|
                    0 <= k < atoms[0].fields.len() ==> ((#[trigger] atoms[0].fields[k]).value matches ValueView::Int32(v)
                        && v == data.regs@[JAVA_ARGUMENT_REGISTER_OFFSET + c->0.primitive_argument_positions@[k]])
            },
        },
{
    if let Some(cfg) = c {
        lemma_argument_fields_read(cfg.primitive_argument_positions@, data.regs@);
    }
}

} // verus!
