//! Handles the data emitted from eBPF programs via their associated maps.
use crate::atom::{views, AtomWriteError, AtomWriter};
use crate::bridge_service::BridgeError;
use crate::config;
use crate::error::UprobeStatsError;
use crate::string::StringError;
use vstd::prelude::*;

pub mod accessibility;
pub mod binder_transaction;
pub mod bitmap_allocation;
pub mod disruptive_app;
pub mod generic_instrumentation;
pub mod process_management;

verus! {

/// Why a handler could not handle an item.
#[derive(Debug, Clone, PartialEq)]
pub enum HandlerError {
    /// A string in the item could not be read.
    InvalidString(StringError),
    /// The bridge service failed.
    Bridge(BridgeError),
    /// An atom could not be written.
    Write(AtomWriteError),
    /// The item is of an unknown variant.
    InvalidVariant(i32),
    /// A value does not fit the type that the atom or event needs.
    OutOfRange,
    /// The task has a statsd logging config without an atom id.
    MissingAtomId,
    /// No binder transaction filter of the task covers the transaction.
    NoBinderConfig,
    /// An atom configuration holds an unknown field position.
    UnknownAtomFieldPosition,
    /// The BPF program reported an error code.
    Uprobestats(UprobeStatsError),
    /// Every string of the item is empty.
    AllStringsEmpty,
}

/// The atoms that reached the destination when a handler meant to write `atoms` after
/// `before`: all of them when every write succeeded, else the ones before the failed write.
pub open spec fn write_outcome<V>(before: Seq<V>, after: Seq<V>, atoms: Seq<V>, all_written: bool) -> bool {
    if all_written {
        after == before + atoms
    } else {
        exists|k: int| #![trigger atoms.take(k)] 0 <= k < atoms.len() && after == before + atoms.take(k)
    }
}

/// What a handler did with the atoms it `planned` to write (or the error it planned to
/// report before writing anything): `before` and `after` are the writer's atoms around
/// the call, `r` its result, `reliable` whether the writer never fails.
pub open spec fn handled_as<V>(
    planned: Result<Seq<V>, HandlerError>,
    before: Seq<V>,
    after: Seq<V>,
    r: Result<(), HandlerError>,
    reliable: bool,
) -> bool {
    match planned {
        Err(e) => r == Err::<(), HandlerError>(e) && after == before,
        Ok(atoms) => {
            &&& write_outcome(before, after, atoms, r is Ok)
            &&& (r matches Err(e) ==> e is Write)
            &&& (reliable ==> r is Ok)
        },
    }
}

/// A single write is described by `write_outcome`.
pub proof fn lemma_single_write<V>(before: Seq<V>, after: Seq<V>, atom: V, ok: bool)
    requires
        ok ==> after == before.push(atom),
        !ok ==> after == before,
    ensures
        write_outcome(before, after, seq![atom], ok),
{
    if ok {
        assert(before + seq![atom] =~= before.push(atom));
    } else {
        assert(seq![atom].take(0) =~= Seq::<V>::empty());
        assert(before + seq![atom].take(0) =~= before);
    }
}

/// No write is described by `write_outcome`.
pub proof fn lemma_no_write<V>(before: Seq<V>)
    ensures
        write_outcome(before, before, Seq::<V>::empty(), true),
{
    assert(before + Seq::<V>::empty() =~= before);
}

/// The atom id that a task's statsd logging config asks for: none without a config, an
/// error when the config has no id or a negative one.
pub open spec fn spec_logging_atom_id(c: Option<config::StatsdLoggingConfig>) -> Result<Option<u32>, HandlerError> {
    match c {
        None => Ok(None),
        Some(c) => match c.atom_id {
            None => Err(HandlerError::MissingAtomId),
            Some(id) => if id < 0 {
                Err(HandlerError::OutOfRange)
            } else {
                Ok(Some(id as u32))
            },
        },
    }
}

/// The atom id that a task's statsd logging config asks for.
pub fn logging_atom_id(c: &Option<config::StatsdLoggingConfig>) -> (r: Result<Option<u32>, HandlerError>)
    ensures
        r == spec_logging_atom_id(*c),
{
    match c {
        None => Ok(None),
        Some(c) => match c.atom_id {
            None => Err(HandlerError::MissingAtomId),
            Some(id) => if id < 0 {
                Err(HandlerError::OutOfRange)
            } else {
                Ok(Some(id as u32))
            },
        },
    }
}

/// Writes one atom, reporting a failed write as a handler error.
pub fn write_atom<A: View, W: AtomWriter<A>>(writer: &mut W, atom: A) -> (r: Result<(), HandlerError>)
    ensures
        final(writer).reliable() == old(writer).reliable(),
        old(writer).reliable() ==> r is Ok,
        r is Ok ==> final(writer).written() == old(writer).written().push(atom@),
        r is Err ==> final(writer).written() == old(writer).written() && r->Err_0 is Write,
{
    match writer.write(atom) {
        Ok(()) => Ok(()),
        Err(e) => Err(HandlerError::Write(e)),
    }
}

/// Writes the atoms in order, stopping at the first failed write.
pub fn write_atoms<A: View, W: AtomWriter<A>>(writer: &mut W, atoms: Vec<A>) -> (r: Result<(), HandlerError>)
    ensures
        final(writer).reliable() == old(writer).reliable(),
        old(writer).reliable() ==> r is Ok,
        write_outcome(old(writer).written(), final(writer).written(), views(atoms@), r is Ok),
        r is Err ==> r->Err_0 is Write,
{
    let ghost all = views(atoms@);
    let n0 = atoms.len();
    let ghost n = atoms@.len();
    let mut remaining = atoms;
    let mut k: usize = 0;
    assert(all.take(0) =~= Seq::<A::V>::empty());
    assert(old(writer).written() + all.take(0) =~= old(writer).written());
    while remaining.len() > 0
        invariant
            k + remaining@.len() == n,
            n == all.len(),
            n == n0,
            all == views(atoms@),
            forall|j: int| 0 <= j < remaining@.len() ==> #[trigger] remaining@[j]@ == all[k + j],
            writer.written() == old(writer).written() + all.take(k as int),
            writer.reliable() == old(writer).reliable(),
        decreases remaining@.len(),
    {
        let atom = remaining.remove(0);
        let ghost before = writer.written();
        match writer.write(atom) {
            Ok(()) => {},
            Err(e) => {
                assert(0 <= k < all.len() && writer.written() == old(writer).written() + all.take(k as int));
                assert(write_outcome(old(writer).written(), writer.written(), all, false));
                return Err(HandlerError::Write(e));
            },
        }
        assert(all.take(k + 1) =~= all.take(k as int).push(all[k as int]));
        assert(writer.written() =~= old(writer).written() + all.take(k + 1));
        k = k + 1;
    }
    assert(all.take(k as int) =~= all);
    Ok(())
}

/// What a handler did with the atoms it `planned` to write in order and what it planned
/// after them (an error to report, nothing, or an event to send with its flush flag):
/// `written` and `enqueued` are the writer's atoms and the bridge's accepted events around
/// the call. A failed write stops the handler; a failed send is reported.
pub open spec fn plan_handled_as<V, E>(
    planned: (Seq<V>, Result<Option<(E, bool)>, HandlerError>),
    written_before: Seq<V>,
    written_after: Seq<V>,
    enqueued_before: Seq<(E, bool)>,
    enqueued_after: Seq<(E, bool)>,
    r: Result<(), HandlerError>,
    reliable: bool,
) -> bool {
    let (atoms, tail) = planned;
    ||| {
        &&& !reliable
        &&& r matches Err(HandlerError::Write(_))
        &&& write_outcome(written_before, written_after, atoms, false)
        &&& enqueued_after == enqueued_before
    }
    ||| {
        &&& written_after == written_before + atoms
        &&& match tail {
            Err(e) => r == Err::<(), HandlerError>(e) && enqueued_after == enqueued_before,
            Ok(None) => r is Ok && enqueued_after == enqueued_before,
            Ok(Some(ev)) => if r is Ok {
                enqueued_after == enqueued_before.push(ev)
            } else {
                r matches Err(HandlerError::Bridge(_)) && enqueued_after == enqueued_before
            },
        }
    }
}

} // verus!
