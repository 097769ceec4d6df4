//! Deals with bitmap allocation events from BPF.
use crate::atom::{AtomWriter, CodegenAtom, CodegenAtomView};
use crate::bpf_handler::{write_outcome, HandlerError};
use crate::config_resolver::ResolvedTask;
use crate::string::{bytes_as_str, spec_bytes_as_str};
use vstd::prelude::*;

verus! {

/// The ring buffer the bitmap allocation BPF program writes to.
pub const BITMAP_ALLOCATION_MAP_PATH: &'static str = "/sys/fs/bpf/uprobestats/map_BitmapAllocation_output";

/// The snapshot type of the bitmaps alive when their total size was largest.
pub const SNAPSHOT_TYPE_MAX_ALLOCATION_SIZE: i32 = 1;

/// The snapshot type of the bitmaps alive when the handler finished.
pub const SNAPSHOT_TYPE_RANDOM_SAMPLE: i32 = 2;

/// What a bitmap event reports.
#[derive(Debug, Clone, Copy, PartialEq, Eq)]
pub enum BitmapEventType {
    /// A bitmap was allocated.
    Allocation,
    /// A bitmap was freed.
    Deallocation,
    /// An activity started; later bitmaps are attributed to it.
    ActivityStart,
    /// A bitmap was scaled.
    BitmapScaled,
    /// Any other event type; ignored.
    Unknown,
}

/// An item of the bitmap allocation ring buffer.
#[derive(Debug, Clone, PartialEq, Eq)]
pub struct BitmapEvent {
    /// What the event reports.
    pub type_: BitmapEventType,
    /// The address of the native bitmap, which identifies it while it is alive.
    pub native_ptr: u64,
    /// The size of the bitmap in bytes.
    pub bitmap_size: u64,
    /// Width in pixels.
    pub width: u64,
    /// Height in pixels.
    pub height: u64,
    /// Width in pixels after scaling.
    pub scaled_width: u64,
    /// Height in pixels after scaling.
    pub scaled_height: u64,
    /// How the pixels are stored.
    pub pixel_storage_type: u64,
    /// The name of the started activity, a NUL-terminated C string.
    pub activity_name: Vec<u8>,
}

/// How the pixels of a bitmap are stored, as the bitmap atoms name it.
#[derive(Debug, Clone, Copy, PartialEq, Eq)]
pub enum PixelStorageType {
    /// Not one of the known kinds.
    Unspecified,
    /// A wrapped pixel reference.
    WrappedPixelRef,
    /// On the heap.
    Heap,
    /// In ashmem.
    Ashmem,
    /// In graphics memory.
    Hardware,
}

/// The storage kind that a raw pixel storage type stands for.
pub open spec fn spec_pixel_storage_type(raw: i32) -> PixelStorageType {
    if raw == 0 {
        PixelStorageType::WrappedPixelRef
    } else if raw == 1 {
        PixelStorageType::Heap
    } else if raw == 2 {
        PixelStorageType::Ashmem
    } else if raw == 3 {
        PixelStorageType::Hardware
    } else {
        PixelStorageType::Unspecified
    }
}

impl PixelStorageType {
    /// The storage kind that a raw pixel storage type stands for (`Unspecified` for any value
    /// but 0 to 3).
    pub fn from_raw(raw: i32) -> (r: Self)
        ensures
            r == spec_pixel_storage_type(raw),
    {
        match raw {
            0 => PixelStorageType::WrappedPixelRef,
            1 => PixelStorageType::Heap,
            2 => PixelStorageType::Ashmem,
            3 => PixelStorageType::Hardware,
            _ => PixelStorageType::Unspecified,
        }
    }
}

/// The abstract content of a `BitmapMetadata`.
pub struct BitmapMetadataView {
    /// UID of the process that allocated the bitmap.
    pub uid: i32,
    /// Width of the bitmap in pixels.
    pub width: i32,
    /// Height of the bitmap in pixels.
    pub height: i32,
    /// Pixel storage type of the bitmap.
    pub pixel_storage_type: i32,
    /// Name of the activity that was active when the bitmap was allocated.
    pub activity_name: Seq<char>,
}

/// Metadata for a bitmap.
#[derive(Debug, Clone, PartialEq)]
pub struct BitmapMetadata {
    /// UID of the process that allocated the bitmap.
    pub uid: i32,
    /// Width of the bitmap in pixels.
    pub width: i32,
    /// Height of the bitmap in pixels.
    pub height: i32,
    /// Pixel storage type of the bitmap.
    pub pixel_storage_type: i32,
    /// Name of the activity that was active when the bitmap was allocated.
    pub activity_name: String,
}

impl View for BitmapMetadata {
    type V = BitmapMetadataView;

    open spec fn view(&self) -> BitmapMetadataView {
        BitmapMetadataView {
            uid: self.uid,
            width: self.width,
            height: self.height,
            pixel_storage_type: self.pixel_storage_type,
            activity_name: self.activity_name@,
        }
    }
}

impl BitmapMetadata {
    /// An equal copy of the metadata.
    pub fn duplicate(&self) -> (r: Self)
        ensures
            r@ == self@,
    {
        BitmapMetadata {
            uid: self.uid,
            width: self.width,
            height: self.height,
            pixel_storage_type: self.pixel_storage_type,
            activity_name: self.activity_name.clone(),
        }
    }
}

/// The number, if it fits in an `i32`.
fn to_i32(v: u64) -> (r: Result<i32, HandlerError>)
    ensures
        v <= i32::MAX ==> r == Ok::<i32, HandlerError>(v as i32),
        v > i32::MAX ==> r == Err::<i32, HandlerError>(HandlerError::OutOfRange),
{
    if v > i32::MAX as u64 {
        Err(HandlerError::OutOfRange)
    } else {
        Ok(v as i32)
    }
}

/// V0 of the bitmap allocation handler. Only reports bitmap allocations.
pub struct BitmapAllocationHandlerV0<C> {
    /// Where the atoms go.
    pub writer: C,
}

/// The atom that the V0 handler writes for an event, or its error.
pub open spec fn spec_v0_atom(uid: i32, data: BitmapEvent) -> Result<CodegenAtomView, HandlerError> {
    if data.width > i32::MAX || data.height > i32::MAX {
        Err(HandlerError::OutOfRange)
    } else {
        Ok(CodegenAtomView::AndroidGraphicsBitmapAllocated { uid, width: data.width as i32, height: data.height as i32 })
    }
}

impl<C: AtomWriter<CodegenAtom>> BitmapAllocationHandlerV0<C> {
    /// A handler writing to `writer`.
    pub fn new(writer: C) -> (r: Self)
        ensures
            r.writer == writer,
    {
        BitmapAllocationHandlerV0 { writer }
    }

    /// Logs every event as an allocation of a bitmap of its size by the task's process.
    pub fn on_item(&mut self, task: &ResolvedTask, data: &BitmapEvent) -> (r: Result<(), HandlerError>)
        ensures
            final(self).writer.reliable() == old(self).writer.reliable(),
            match spec_v0_atom(task.resolved_process.uid, *data) {
                Err(e) => r == Err::<(), HandlerError>(e) && final(self).writer.written() == old(self).writer.written(),
                Ok(atom) => write_outcome(old(self).writer.written(), final(self).writer.written(), seq![atom], r is Ok)
                    && (old(self).writer.reliable() ==> r is Ok) && (r matches Err(e) ==> e is Write),
            },
    {
        let width = to_i32(data.width)?;
        let height = to_i32(data.height)?;
        let atom = CodegenAtom::AndroidGraphicsBitmapAllocated { uid: task.resolved_process.uid, width, height };
        let ghost before = self.writer.written();
        let ghost view = atom@;
        let r = match self.writer.write(atom) {
            Ok(()) => Ok(()),
            Err(e) => Err(HandlerError::Write(e)),
        };
        proof { crate::bpf_handler::lemma_single_write(before, self.writer.written(), view, r is Ok); }
        r
    }
}

/// The abstract state of the V1 handler.
pub struct BitmapStateView {
    /// The live bitmaps, by native address, in the order they were first allocated.
    pub bitmaps: Seq<(u64, BitmapMetadataView)>,
    /// The largest total size of live bitmaps seen so far.
    pub max_total_bitmap_size: i64,
    /// The total size of the live bitmaps.
    pub current_total_bitmap_size: i64,
    /// The live bitmaps when their total size was largest.
    pub bitmap_snapshot_at_max_size: Seq<BitmapMetadataView>,
    /// The name of the last activity started.
    pub activity_name: Seq<char>,
}

/// No native address occurs twice among the bitmaps.
pub open spec fn keys_distinct(bitmaps: Seq<(u64, BitmapMetadataView)>) -> bool {
    forall|i: int, j: int| 0 <= i < j < bitmaps.len() ==> bitmaps[i].0 != bitmaps[j].0
}

/// Where the bitmap at `ptr` is, or -1.
pub open spec fn key_index(bitmaps: Seq<(u64, BitmapMetadataView)>, ptr: u64) -> int {
    if exists|i: int| 0 <= i < bitmaps.len() && bitmaps[i].0 == ptr {
        choose|i: int| 0 <= i < bitmaps.len() && bitmaps[i].0 == ptr
    } else {
        -1
    }
}

/// The bitmaps with `ptr` now holding `md`: in place when it was there, else last.
pub open spec fn map_insert(bitmaps: Seq<(u64, BitmapMetadataView)>, ptr: u64, md: BitmapMetadataView) -> Seq<(u64, BitmapMetadataView)> {
    let i = key_index(bitmaps, ptr);
    if i >= 0 {
        bitmaps.update(i, (ptr, md))
    } else {
        bitmaps.push((ptr, md))
    }
}

/// The bitmaps without the one at `ptr`.
pub open spec fn map_remove(bitmaps: Seq<(u64, BitmapMetadataView)>, ptr: u64) -> Seq<(u64, BitmapMetadataView)> {
    let i = key_index(bitmaps, ptr);
    if i >= 0 {
        bitmaps.remove(i)
    } else {
        bitmaps
    }
}

/// The metadata of the bitmaps, in order.
pub open spec fn metadata_values(bitmaps: Seq<(u64, BitmapMetadataView)>) -> Seq<BitmapMetadataView> {
    bitmaps.map_values(|e: (u64, BitmapMetadataView)| e.1)
}

/// The totals of the bitmap sizes stay within `i64` when the event is applied.
pub open spec fn sizes_fit(st: BitmapStateView, data: BitmapEvent) -> bool {
    data.bitmap_size <= i64::MAX ==> match data.type_ {
        BitmapEventType::Allocation => st.current_total_bitmap_size + data.bitmap_size <= i64::MAX,
        BitmapEventType::Deallocation => st.current_total_bitmap_size - data.bitmap_size >= i64::MIN,
        _ => true,
    }
}

/// What the V1 handler does with an event: the atom it writes (if any), the state it moves
/// to once the atom is written, and its result then; or the error it reports before doing
/// anything. The size of an allocated or freed bitmap is checked after the bitmap is
/// recorded or dropped.
pub open spec fn spec_v1_plan(st: BitmapStateView, uid: i32, data: BitmapEvent) -> Result<
    (Option<CodegenAtomView>, BitmapStateView, Result<(), HandlerError>),
    HandlerError,
> {
    match data.type_ {
        BitmapEventType::Allocation => if data.width > i32::MAX || data.height > i32::MAX || data.pixel_storage_type
            > i32::MAX {
            Err(HandlerError::OutOfRange)
        } else {
            let md = BitmapMetadataView {
                uid,
                width: data.width as i32,
                height: data.height as i32,
                pixel_storage_type: data.pixel_storage_type as i32,
                activity_name: st.activity_name,
            };
            let atom = CodegenAtomView::AndroidGraphicsBitmapAllocated { uid, width: md.width, height: md.height };
            let bitmaps = map_insert(st.bitmaps, data.native_ptr, md);
            if data.bitmap_size > i64::MAX {
                Ok((Some(atom), BitmapStateView { bitmaps, ..st }, Err(HandlerError::OutOfRange)))
            } else {
                let current = (st.current_total_bitmap_size + data.bitmap_size) as i64;
                if current > st.max_total_bitmap_size {
                    Ok(
                        (
                            Some(atom),
                            BitmapStateView {
                                bitmaps,
                                current_total_bitmap_size: current,
                                max_total_bitmap_size: current,
                                bitmap_snapshot_at_max_size: metadata_values(bitmaps),
                                ..st
                            },
                            Ok(()),
                        ),
                    )
                } else {
                    Ok((Some(atom), BitmapStateView { bitmaps, current_total_bitmap_size: current, ..st }, Ok(())))
                }
            }
        },
        BitmapEventType::Deallocation => {
            let bitmaps = map_remove(st.bitmaps, data.native_ptr);
            if data.bitmap_size > i64::MAX {
                Ok((None, BitmapStateView { bitmaps, ..st }, Err(HandlerError::OutOfRange)))
            } else {
                Ok(
                    (
                        None,
                        BitmapStateView {
                            bitmaps,
                            current_total_bitmap_size: (st.current_total_bitmap_size - data.bitmap_size) as i64,
                            ..st
                        },
                        Ok(()),
                    ),
                )
            }
        },
        BitmapEventType::ActivityStart => match spec_bytes_as_str(data.activity_name@) {
            Err(e) => Err(HandlerError::InvalidString(e)),
            Ok(name) => Ok((None, BitmapStateView { activity_name: name, ..st }, Ok(()))),
        },
        BitmapEventType::BitmapScaled => if data.width > i32::MAX || data.height > i32::MAX || data.scaled_width
            > i32::MAX || data.scaled_height > i32::MAX || data.pixel_storage_type > i32::MAX {
            Err(HandlerError::OutOfRange)
        } else {
            Ok(
                (
                    Some(
                        CodegenAtomView::AndroidGraphicsBitmapScaled {
                            uid,
                            width: data.width as i32,
                            height: data.height as i32,
                            scaled_width: data.scaled_width as i32,
                            scaled_height: data.scaled_height as i32,
                            pixel_storage_type: data.pixel_storage_type as i32,
                            activity_name: st.activity_name,
                        },
                    ),
                    st,
                    Ok(()),
                ),
            )
        },
        BitmapEventType::Unknown => Ok((None, st, Ok(()))),
    }
}

/// What `on_item` did with its plan: `st`, `written` are the state and the writer's atoms
/// around the call. When the atom cannot be written nothing changes.
pub open spec fn v1_handled_as(
    planned: Result<(Option<CodegenAtomView>, BitmapStateView, Result<(), HandlerError>), HandlerError>,
    st_before: BitmapStateView,
    st_after: BitmapStateView,
    written_before: Seq<CodegenAtomView>,
    written_after: Seq<CodegenAtomView>,
    r: Result<(), HandlerError>,
    reliable: bool,
) -> bool {
    match planned {
        Err(e) => r == Err::<(), HandlerError>(e) && st_after == st_before && written_after == written_before,
        Ok((atom, st, res)) => {
            ||| {
                &&& atom is Some
                &&& !reliable
                &&& r matches Err(HandlerError::Write(_))
                &&& st_after == st_before
                &&& written_after == written_before
            }
            ||| {
                &&& r == res
                &&& st_after == st
                &&& written_after == match atom {
                    Some(a) => written_before.push(a),
                    None => written_before,
                }
            }
        },
    }
}

/// The snapshot atom of a bitmap.
pub open spec fn snapshot_atom(md: BitmapMetadataView, snapshot_id: i64, snapshot_type: i32) -> CodegenAtomView {
    CodegenAtomView::AndroidGraphicsBitmapAllocationSnapshot {
        uid: md.uid,
        width: md.width,
        height: md.height,
        pixel_storage_type: md.pixel_storage_type,
        snapshot_id,
        snapshot_type,
        activity_name: md.activity_name,
    }
}

/// The atoms of the two snapshots: the bitmaps alive at the largest total size, under
/// `max_id`, then those alive now, under `sample_id`.
pub open spec fn snapshot_atoms(st: BitmapStateView, max_id: i64, sample_id: i64) -> Seq<CodegenAtomView> {
    st.bitmap_snapshot_at_max_size.map_values(
        |md: BitmapMetadataView| snapshot_atom(md, max_id, SNAPSHOT_TYPE_MAX_ALLOCATION_SIZE),
    ) + metadata_values(st.bitmaps).map_values(
        |md: BitmapMetadataView| snapshot_atom(md, sample_id, SNAPSHOT_TYPE_RANDOM_SAMPLE),
    )
}

/// A random snapshot id.
///
/// Calls `rand::random::<i64>()`, which draws from the thread-local generator. Nothing is
/// claimed of the value.
#[verifier::external_body]
fn random_snapshot_id() -> i64 {
    rand::random::<i64>()
}

/// V1 of the bitmap allocation handler. Reports bitmap allocations, scaling, and snapshots.
pub struct BitmapAllocationHandlerV1<C> {
    codegen_writer: C,
    bitmaps: Vec<(u64, BitmapMetadata)>,
    max_total_bitmap_size: i64,
    current_total_bitmap_size: i64,
    bitmap_snapshot_at_max_size: Vec<BitmapMetadata>,
    activity_name: String,
}

/// The views of the metadata, in order.
pub open spec fn metadata_views(v: Seq<BitmapMetadata>) -> Seq<BitmapMetadataView> {
    v.map_values(|m: BitmapMetadata| m@)
}

/// The views of the bitmap entries, in order.
pub open spec fn entry_views(v: Seq<(u64, BitmapMetadata)>) -> Seq<(u64, BitmapMetadataView)> {
    v.map_values(|e: (u64, BitmapMetadata)| (e.0, e.1@))
}

impl<C: AtomWriter<CodegenAtom>> BitmapAllocationHandlerV1<C> {
    /// The handler's state.
    pub closed spec fn state(&self) -> BitmapStateView {
        BitmapStateView {
            bitmaps: entry_views(self.bitmaps@),
            max_total_bitmap_size: self.max_total_bitmap_size,
            current_total_bitmap_size: self.current_total_bitmap_size,
            bitmap_snapshot_at_max_size: metadata_views(self.bitmap_snapshot_at_max_size@),
            activity_name: self.activity_name@,
        }
    }

    /// The state is consistent: no bitmap is recorded twice, and the largest total size seen
    /// is at least the current one.
    pub open spec fn wf(&self) -> bool {
        &&& keys_distinct(self.state().bitmaps)
        &&& self.state().current_total_bitmap_size <= self.state().max_total_bitmap_size
    }

    /// Where the atoms go.
    pub closed spec fn writer(&self) -> C {
        self.codegen_writer
    }

    /// Where the atoms go.
    pub fn codegen_writer(&self) -> (r: &C)
        ensures
            *r == self.writer(),
    {
        &self.codegen_writer
    }

    /// Where the atoms go, to be changed; the rest of the handler stays as it is.
    pub fn codegen_writer_mut(&mut self) -> (r: &mut C)
        ensures
            *r == old(self).writer(),
            final(self).writer() == *final(r),
            final(self).state() == old(self).state(),
    {
        &mut self.codegen_writer
    }

    /// A handler with no bitmap, totals of zero, no snapshot and an empty activity name.
    pub fn new(codegen_writer: C) -> (r: Self)
        ensures
            r.wf(),
            r.writer() == codegen_writer,
            r.state() == v1_initial_state(),
    {
        let r = BitmapAllocationHandlerV1 {
            codegen_writer,
            bitmaps: Vec::new(),
            max_total_bitmap_size: 0,
            current_total_bitmap_size: 0,
            bitmap_snapshot_at_max_size: Vec::new(),
            activity_name: String::new(),
        };
        assert(r.state().bitmaps =~= Seq::<(u64, BitmapMetadataView)>::empty());
        assert(r.state().bitmap_snapshot_at_max_size =~= Seq::<BitmapMetadataView>::empty());
        r
    }

    /// The total size of the live bitmaps.
    pub fn current_total_bitmap_size(&self) -> (r: i64)
        ensures
            r == self.state().current_total_bitmap_size,
    {
        self.current_total_bitmap_size
    }

    /// Records `md` as the metadata of the bitmap at `ptr`.
    fn insert_bitmap(&mut self, ptr: u64, md: BitmapMetadata)
        requires
            old(self).wf(),
        ensures
            final(self).wf(),
            final(self).state() == (BitmapStateView { bitmaps: map_insert(old(self).state().bitmaps, ptr, md@), ..old(self).state() }),
            final(self).writer() == old(self).writer(),
    {
        let ghost bs = self.state().bitmaps;
        let ghost mdv = md@;
        match self.find_bitmap(ptr) {
            Some(i) => {
                self.bitmaps.set(i, (ptr, md));
                assert(self.state().bitmaps =~= bs.update(i as int, (ptr, mdv)));
                assert forall|a: int, b: int| 0 <= a < b < self.state().bitmaps.len() implies self.state().bitmaps[a].0
                    != self.state().bitmaps[b].0 by {
                    assert(bs[a].0 != bs[b].0);
                }
            },
            None => {
                self.bitmaps.push((ptr, md));
                assert(self.state().bitmaps =~= bs.push((ptr, mdv)));
                assert forall|a: int, b: int| 0 <= a < b < self.state().bitmaps.len() implies self.state().bitmaps[a].0
                    != self.state().bitmaps[b].0 by {
                    if b < bs.len() {
                        assert(bs[a].0 != bs[b].0);
                    } else {
                        assert(!(0 <= a < bs.len() && bs[a].0 == ptr));
                    }
                }
            },
        }
    }

    /// Forgets the bitmap at `ptr`, if it is recorded.
    fn remove_bitmap(&mut self, ptr: u64)
        requires
            old(self).wf(),
        ensures
            final(self).wf(),
            final(self).state() == (BitmapStateView { bitmaps: map_remove(old(self).state().bitmaps, ptr), ..old(self).state() }),
            final(self).writer() == old(self).writer(),
    {
        let ghost bs = self.state().bitmaps;
        match self.find_bitmap(ptr) {
            Some(i) => {
                let _ = self.bitmaps.remove(i);
                assert(self.state().bitmaps =~= bs.remove(i as int));
                assert forall|a: int, b: int| 0 <= a < b < self.state().bitmaps.len() implies self.state().bitmaps[a].0
                    != self.state().bitmaps[b].0 by {
                    if b < i {
                        assert(bs[a].0 != bs[b].0);
                    } else if a < i {
                        assert(bs[a].0 != bs[b + 1].0);
                    } else {
                        assert(bs[a + 1].0 != bs[b + 1].0);
                    }
                }
            },
            None => {},
        }
    }

    /// Applies an event: records allocations and frees, tracks the total size and the
    /// snapshot at its largest, remembers the started activity, and logs allocations and
    /// scalings.
    pub fn on_item(&mut self, task: &ResolvedTask, data: &BitmapEvent) -> (r: Result<(), HandlerError>)
        requires
            old(self).wf(),
            sizes_fit(old(self).state(), *data),
        ensures
            final(self).wf(),
            final(self).writer().reliable() == old(self).writer().reliable(),
            v1_handled_as(
                spec_v1_plan(old(self).state(), task.resolved_process.uid, *data),
                old(self).state(),
                final(self).state(),
                old(self).writer().written(),
                final(self).writer().written(),
                r,
                old(self).writer().reliable(),
            ),
    {
        let uid = task.resolved_process.uid;
        let ghost st = self.state();
        match data.type_ {
            BitmapEventType::Allocation => {
                let width = to_i32(data.width)?;
                let height = to_i32(data.height)?;
                let pixel_storage_type = to_i32(data.pixel_storage_type)?;
                let md = BitmapMetadata { uid, width, height, pixel_storage_type, activity_name: self.activity_name.clone() };
                match self.codegen_writer.write(CodegenAtom::AndroidGraphicsBitmapAllocated { uid, width, height }) {
                    Ok(()) => {},
                    Err(e) => {
                        return Err(HandlerError::Write(e));
                    },
                }
                self.insert_bitmap(data.native_ptr, md);
                if data.bitmap_size > i64::MAX as u64 {
                    return Err(HandlerError::OutOfRange);
                }
                self.current_total_bitmap_size = self.current_total_bitmap_size + data.bitmap_size as i64;
                if self.current_total_bitmap_size > self.max_total_bitmap_size {
                    self.max_total_bitmap_size = self.current_total_bitmap_size;
                    self.bitmap_snapshot_at_max_size = self.live_metadata();
                }
                Ok(())
            },
            BitmapEventType::Deallocation => {
                self.remove_bitmap(data.native_ptr);
                if data.bitmap_size > i64::MAX as u64 {
                    return Err(HandlerError::OutOfRange);
                }
                self.current_total_bitmap_size = self.current_total_bitmap_size - data.bitmap_size as i64;
                Ok(())
            },
            BitmapEventType::ActivityStart => {
                let name = match bytes_as_str(data.activity_name.as_slice()) {
                    Ok(s) => s,
                    Err(e) => {
                        return Err(HandlerError::InvalidString(e));
                    },
                };
                self.activity_name = name;
                Ok(())
            },
            BitmapEventType::BitmapScaled => {
                let width = to_i32(data.width)?;
                let height = to_i32(data.height)?;
                let scaled_width = to_i32(data.scaled_width)?;
                let scaled_height = to_i32(data.scaled_height)?;
                let pixel_storage_type = to_i32(data.pixel_storage_type)?;
                let atom = CodegenAtom::AndroidGraphicsBitmapScaled {
                    uid,
                    width,
                    height,
                    scaled_width,
                    scaled_height,
                    pixel_storage_type,
                    activity_name: self.activity_name.clone(),
                };
                match self.codegen_writer.write(atom) {
                    Ok(()) => Ok(()),
                    Err(e) => Err(HandlerError::Write(e)),
                }
            },
            BitmapEventType::Unknown => Ok(()),
        }
    }

    /// Writes the snapshot atoms (`snapshot_atoms`), stopping at the first failed write.
    pub fn write_snapshots(&mut self, max_id: i64, sample_id: i64) -> (r: Result<(), HandlerError>)
        ensures
            final(self).state() == old(self).state(),
            final(self).writer().reliable() == old(self).writer().reliable(),
            old(self).writer().reliable() ==> r is Ok,
            write_outcome(
                old(self).writer().written(),
                final(self).writer().written(),
                snapshot_atoms(old(self).state(), max_id, sample_id),
                r is Ok,
            ),
            r is Err ==> r->Err_0 is Write,
    {
        let ghost st = self.state();
        let mut atoms: Vec<CodegenAtom> = Vec::new();
        let mut i: usize = 0;
        let ghost first = st.bitmap_snapshot_at_max_size.map_values(
            |md: BitmapMetadataView| snapshot_atom(md, max_id, SNAPSHOT_TYPE_MAX_ALLOCATION_SIZE),
        );
        let ghost second = metadata_values(st.bitmaps).map_values(
            |md: BitmapMetadataView| snapshot_atom(md, sample_id, SNAPSHOT_TYPE_RANDOM_SAMPLE),
        );
        while i < self.bitmap_snapshot_at_max_size.len()
            invariant
                i <= self.bitmap_snapshot_at_max_size@.len(),
                st == self.state(),
                first.len() == self.bitmap_snapshot_at_max_size@.len(),
                first == st.bitmap_snapshot_at_max_size.map_values(
                    |md: BitmapMetadataView| snapshot_atom(md, max_id, SNAPSHOT_TYPE_MAX_ALLOCATION_SIZE),
                ),
                crate::atom::views(atoms@) == first.take(i as int),
            decreases self.bitmap_snapshot_at_max_size@.len() - i,
        {
            let md = &self.bitmap_snapshot_at_max_size[i];
            let atom = CodegenAtom::AndroidGraphicsBitmapAllocationSnapshot {
                uid: md.uid,
                width: md.width,
                height: md.height,
                pixel_storage_type: md.pixel_storage_type,
                snapshot_id: max_id,
                snapshot_type: SNAPSHOT_TYPE_MAX_ALLOCATION_SIZE,
                activity_name: md.activity_name.clone(),
            };
            let ghost before = atoms@;
            atoms.push(atom);
            assert(crate::atom::views(atoms@) =~= crate::atom::views(before).push(first[i as int]));
            assert(crate::atom::views(atoms@) =~= first.take(i + 1));
            i = i + 1;
        }
        assert(first.take(i as int) =~= first);
        let mut j: usize = 0;
        while j < self.bitmaps.len()
            invariant
                j <= self.bitmaps@.len(),
                st == self.state(),
                second.len() == self.bitmaps@.len(),
                second == metadata_values(st.bitmaps).map_values(
                    |md: BitmapMetadataView| snapshot_atom(md, sample_id, SNAPSHOT_TYPE_RANDOM_SAMPLE),
                ),
                crate::atom::views(atoms@) == first + second.take(j as int),
            decreases self.bitmaps@.len() - j,
        {
            let md = &self.bitmaps[j].1;
            let atom = CodegenAtom::AndroidGraphicsBitmapAllocationSnapshot {
                uid: md.uid,
                width: md.width,
                height: md.height,
                pixel_storage_type: md.pixel_storage_type,
                snapshot_id: sample_id,
                snapshot_type: SNAPSHOT_TYPE_RANDOM_SAMPLE,
                activity_name: md.activity_name.clone(),
            };
            let ghost before = atoms@;
            atoms.push(atom);
            assert(crate::atom::views(atoms@) =~= crate::atom::views(before).push(second[j as int]));
            assert(crate::atom::views(atoms@) =~= first + second.take(j + 1));
            j = j + 1;
        }
        assert(second.take(j as int) =~= second);
        crate::bpf_handler::write_atoms(&mut self.codegen_writer, atoms)
    }

    /// Writes the two snapshots, each under a fresh random id.
    pub fn on_finished(&mut self) -> (r: Result<(), HandlerError>)
        ensures
            final(self).state() == old(self).state(),
            final(self).writer().reliable() == old(self).writer().reliable(),
            old(self).writer().reliable() ==> r is Ok,
            exists|max_id: i64, sample_id: i64|
                write_outcome(
                    old(self).writer().written(),
                    final(self).writer().written(),
                    #[trigger] snapshot_atoms(old(self).state(), max_id, sample_id),
                    r is Ok,
                ),
            r is Err ==> r->Err_0 is Write,
    {
        let max_id = random_snapshot_id();
        let sample_id = random_snapshot_id();
        self.write_snapshots(max_id, sample_id)
    }

    /// Where the bitmap at `ptr` is among the live bitmaps.
    fn find_bitmap(&self, ptr: u64) -> (r: Option<usize>)
        requires
            self.wf(),
        ensures
            match r {
                Some(i) => key_index(self.state().bitmaps, ptr) == i && i < self.bitmaps@.len(),
                None => key_index(self.state().bitmaps, ptr) == -1,
            },
    {
        let ghost bs = self.state().bitmaps;
        let mut i: usize = 0;
        while i < self.bitmaps.len()
            invariant
                i <= self.bitmaps@.len(),
                bs == self.state().bitmaps,
                bs.len() == self.bitmaps@.len(),
                keys_distinct(bs),
                forall|k: int| 0 <= k < i ==> bs[k].0 != ptr,
            decreases self.bitmaps@.len() - i,
        {
            if self.bitmaps[i].0 == ptr {
                assert(bs[i as int].0 == ptr);
                let ghost j = key_index(bs, ptr);
                assert(0 <= j < bs.len() && bs[j].0 == ptr);
                assert(j == i) by {
                    if j < i {
                        assert(bs[j].0 != ptr);
                    } else if j > i {
                        assert(bs[i as int].0 != bs[j].0);
                    }
                }
                return Some(i);
            }
            i = i + 1;
        }
        None
    }

    /// The metadata of the live bitmaps, in order.
    fn live_metadata(&self) -> (r: Vec<BitmapMetadata>)
        ensures
            metadata_views(r@) == metadata_values(self.state().bitmaps),
    {
        let mut r: Vec<BitmapMetadata> = Vec::new();
        let mut i: usize = 0;
        while i < self.bitmaps.len()
            invariant
                i <= self.bitmaps@.len(),
                metadata_views(r@) == metadata_values(self.state().bitmaps).take(i as int),
            decreases self.bitmaps@.len() - i,
        {
            let ghost before = r@;
            r.push(self.bitmaps[i].1.duplicate());
            assert(metadata_views(r@) =~= metadata_views(before).push(self.bitmaps@[i as int].1@));
            assert(metadata_views(r@) =~= metadata_values(self.state().bitmaps).take(i + 1));
            i = i + 1;
        }
        assert(metadata_values(self.state().bitmaps).take(i as int) =~= metadata_values(self.state().bitmaps));
        r
    }
}

/// How an event changes the total size of the live bitmaps: an allocation adds its size, a
/// deallocation takes it away, anything else leaves it.
pub open spec fn size_delta(data: BitmapEvent) -> int {
    match data.type_ {
        BitmapEventType::Allocation => data.bitmap_size as int,
        BitmapEventType::Deallocation => -(data.bitmap_size as int),
        _ => 0,
    }
}

/// The sizes allocated minus the sizes freed by the events.
pub open spec fn net_size(events: Seq<BitmapEvent>) -> int
    decreases events.len(),
{
    if events.len() == 0 {
        0
    } else {
        net_size(events.drop_last()) + size_delta(events.last())
    }
}

/// The largest of `max` and of the totals reached from `current` after each event.
pub open spec fn max_reached(max: int, current: int, events: Seq<BitmapEvent>) -> int
    decreases events.len(),
{
    if events.len() == 0 {
        max
    } else {
        let m = max_reached(max, current, events.drop_last());
        let c = current + net_size(events);
        if c > m {
            c
        } else {
            m
        }
    }
}

/// The state the V1 handler reaches from `st` by handling the events in turn for `uid`, when
/// every event is accepted (its sizes fit and it is handled without error).
pub open spec fn v1_run(st: BitmapStateView, uid: i32, events: Seq<BitmapEvent>) -> Option<BitmapStateView>
    decreases events.len(),
{
    if events.len() == 0 {
        Some(st)
    } else {
        match v1_run(st, uid, events.drop_last()) {
            None => None,
            Some(s) => if !sizes_fit(s, events.last()) {
                None
            } else {
                match spec_v1_plan(s, uid, events.last()) {
                    Ok((_, next, Ok(()))) => Some(next),
                    _ => None,
                }
            },
        }
    }
}

/// The totals follow from the events handled: after events that are all accepted, the
/// current total is the starting one plus the sizes allocated minus the sizes freed, and the
/// largest total is the largest of the starting one and of the totals after each event.
pub proof fn lemma_v1_totals(st: BitmapStateView, uid: i32, events: Seq<BitmapEvent>)
    requires
        st.current_total_bitmap_size <= st.max_total_bitmap_size,
    ensures
        v1_run(st, uid, events) matches Some(end) ==> {
            &&& end.current_total_bitmap_size == st.current_total_bitmap_size + net_size(events)
            &&& end.max_total_bitmap_size == max_reached(
                st.max_total_bitmap_size as int,
                st.current_total_bitmap_size as int,
                events,
            )
            &&& end.current_total_bitmap_size <= end.max_total_bitmap_size
        },
    decreases events.len(),
{
    if events.len() > 0 {
        lemma_v1_totals(st, uid, events.drop_last());
    }
}

/// The native addresses of the bitmaps.
pub open spec fn key_set(bitmaps: Seq<(u64, BitmapMetadataView)>) -> Set<u64> {
    Set::new(|p: u64| exists|i: int| 0 <= i < bitmaps.len() && bitmaps[i].0 == p)
}

/// The addresses of the bitmaps alive after the events, starting from `start`: an
/// allocation adds its address, a deallocation drops it.
pub open spec fn live_ptrs(start: Set<u64>, events: Seq<BitmapEvent>) -> Set<u64>
    decreases events.len(),
{
    if events.len() == 0 {
        start
    } else {
        let before = live_ptrs(start, events.drop_last());
        let e = events.last();
        match e.type_ {
            BitmapEventType::Allocation => before.insert(e.native_ptr),
            BitmapEventType::Deallocation => before.remove(e.native_ptr),
            _ => before,
        }
    }
}

/// The handler's state before any event.
pub open spec fn v1_initial_state() -> BitmapStateView {
    BitmapStateView {
        bitmaps: Seq::empty(),
        max_total_bitmap_size: 0,
        current_total_bitmap_size: 0,
        bitmap_snapshot_at_max_size: Seq::empty(),
        activity_name: Seq::empty(),
    }
}

/// Recording a bitmap adds its address to the addresses.
proof fn lemma_key_set_insert(bitmaps: Seq<(u64, BitmapMetadataView)>, ptr: u64, md: BitmapMetadataView)
    ensures
        key_set(map_insert(bitmaps, ptr, md)) == key_set(bitmaps).insert(ptr),
{
    let r = map_insert(bitmaps, ptr, md);
    let k = key_index(bitmaps, ptr);
    if k >= 0 {
        assert(bitmaps[k].0 == ptr);
        assert forall|q: u64| key_set(r).contains(q) <==> key_set(bitmaps).insert(ptr).contains(q) by {
            if key_set(r).contains(q) {
                let i = choose|i: int| 0 <= i < r.len() && r[i].0 == q;
                if i != k {
                    assert(r[i] == bitmaps[i]);
                }
            }
            if key_set(bitmaps).contains(q) {
                let i = choose|i: int| 0 <= i < bitmaps.len() && bitmaps[i].0 == q;
                if i != k {
                    assert(r[i] == bitmaps[i]);
                } else {
                    assert(r[k].0 == q);
                }
            }
            if q == ptr {
                assert(r[k].0 == ptr);
            }
        }
    } else {
        assert forall|q: u64| key_set(r).contains(q) <==> key_set(bitmaps).insert(ptr).contains(q) by {
            if key_set(r).contains(q) {
                let i = choose|i: int| 0 <= i < r.len() && r[i].0 == q;
                if i < bitmaps.len() {
                    assert(r[i] == bitmaps[i]);
                }
            }
            if key_set(bitmaps).contains(q) {
                let i = choose|i: int| 0 <= i < bitmaps.len() && bitmaps[i].0 == q;
                assert(r[i] == bitmaps[i]);
            }
            if q == ptr {
                assert(r[bitmaps.len() as int].0 == ptr);
            }
        }
    }
    assert(key_set(r) =~= key_set(bitmaps).insert(ptr));
}

/// Dropping a bitmap removes its address from the addresses.
proof fn lemma_key_set_remove(bitmaps: Seq<(u64, BitmapMetadataView)>, ptr: u64)
    requires
        keys_distinct(bitmaps),
    ensures
        key_set(map_remove(bitmaps, ptr)) == key_set(bitmaps).remove(ptr),
{
    let r = map_remove(bitmaps, ptr);
    let k = key_index(bitmaps, ptr);
    if k >= 0 {
        assert(bitmaps[k].0 == ptr);
        assert forall|q: u64| key_set(r).contains(q) <==> key_set(bitmaps).remove(ptr).contains(q) by {
            if key_set(r).contains(q) {
                let i = choose|i: int| 0 <= i < r.len() && r[i].0 == q;
                if i < k {
                    assert(r[i] == bitmaps[i]);
                    assert(i != k);
                } else {
                    assert(r[i] == bitmaps[i + 1]);
                }
            }
            if key_set(bitmaps).remove(ptr).contains(q) {
                let i = choose|i: int| 0 <= i < bitmaps.len() && bitmaps[i].0 == q;
                assert(i != k);
                if i < k {
                    assert(r[i] == bitmaps[i]);
                } else {
                    assert(r[i - 1] == bitmaps[i]);
                }
            }
        }
    } else {
        assert forall|q: u64| key_set(r).contains(q) <==> key_set(bitmaps).remove(ptr).contains(q) by {
            if q == ptr && key_set(bitmaps).contains(q) {
                let i = choose|i: int| 0 <= i < bitmaps.len() && bitmaps[i].0 == q;
                assert(exists|i: int| 0 <= i < bitmaps.len() && bitmaps[i].0 == ptr);
            }
        }
    }
    assert(key_set(r) =~= key_set(bitmaps).remove(ptr));
}

/// After events that are all accepted, the live bitmaps are those at the addresses allocated
/// and not freed since, each recorded once.
pub proof fn lemma_v1_live_bitmaps(st: BitmapStateView, uid: i32, events: Seq<BitmapEvent>)
    requires
        keys_distinct(st.bitmaps),
    ensures
        v1_run(st, uid, events) matches Some(end) ==> keys_distinct(end.bitmaps) && key_set(end.bitmaps) == live_ptrs(
            key_set(st.bitmaps),
            events,
        ),
    decreases events.len(),
{
    if events.len() > 0 {
        lemma_v1_live_bitmaps(st, uid, events.drop_last());
        if let Some(s) = v1_run(st, uid, events.drop_last()) {
            let e = events.last();
            match e.type_ {
                BitmapEventType::Allocation => {
                    if e.width <= i32::MAX && e.height <= i32::MAX && e.pixel_storage_type <= i32::MAX {
                        let md = BitmapMetadataView {
                            uid,
                            width: e.width as i32,
                            height: e.height as i32,
                            pixel_storage_type: e.pixel_storage_type as i32,
                            activity_name: s.activity_name,
                        };
                        lemma_map_insert_found(s.bitmaps, e.native_ptr, md);
                        lemma_key_set_insert(s.bitmaps, e.native_ptr, md);
                    }
                },
                BitmapEventType::Deallocation => {
                    lemma_map_remove_forgets(s.bitmaps, e.native_ptr);
                    lemma_key_set_remove(s.bitmaps, e.native_ptr);
                },
                _ => {},
            }
        }
    }
}

/// Handled from the start, the events leave the totals and live bitmaps that they make:
/// the current total is the sizes allocated minus the sizes freed, the largest total is
/// the largest of zero and the totals after each event, and the live bitmaps are those
/// allocated and not freed since.
pub proof fn lemma_v1_from_start(uid: i32, events: Seq<BitmapEvent>)
    ensures
        v1_run(v1_initial_state(), uid, events) matches Some(end) ==> {
            &&& end.current_total_bitmap_size == net_size(events)
            &&& end.max_total_bitmap_size == max_reached(0, 0, events)
            &&& end.current_total_bitmap_size <= end.max_total_bitmap_size
            &&& key_set(end.bitmaps) == live_ptrs(Set::empty(), events)
        },
{
    lemma_v1_totals(v1_initial_state(), uid, events);
    lemma_v1_live_bitmaps(v1_initial_state(), uid, events);
    assert(key_set(Seq::<(u64, BitmapMetadataView)>::empty()) =~= Set::<u64>::empty());
}

/// The atom logged for an event describes that event: an allocation's atom carries the
/// task's uid and the bitmap's width and height, a scaling's atom the task's uid, the width
/// and height before and after scaling, the pixel storage type and the current activity;
/// the values fit an `i32` unchanged.
pub proof fn lemma_v1_atom_describes_event(st: BitmapStateView, uid: i32, data: BitmapEvent)
    ensures
        match spec_v1_plan(st, uid, data) {
            Ok((Some(atom), _, _)) => match data.type_ {
                BitmapEventType::Allocation => atom matches CodegenAtomView::AndroidGraphicsBitmapAllocated {
                    uid: u,
                    width: w,
                    height: h,
                } && u == uid && w == data.width && h == data.height,
                BitmapEventType::BitmapScaled => atom matches CodegenAtomView::AndroidGraphicsBitmapScaled {
                    uid: u,
                    width: w,
                    height: h,
                    scaled_width: sw,
                    scaled_height: sh,
                    pixel_storage_type: p,
                    activity_name: a,
                } && u == uid && w == data.width && h == data.height && sw == data.scaled_width && sh
                    == data.scaled_height && p == data.pixel_storage_type && a == st.activity_name,
                _ => false,
            },
            _ => true,
        },
{
}

/// The V0 handler logs every event as an allocation by the task's uid with the event's
/// width and height, unchanged.
pub proof fn lemma_v0_atom_describes_event(uid: i32, data: BitmapEvent)
    ensures
        spec_v0_atom(uid, data) matches Ok(atom) ==> (atom matches CodegenAtomView::AndroidGraphicsBitmapAllocated {
            uid: u,
            width: w,
            height: h,
        } && u == uid && w == data.width && h == data.height),
        (data.width <= i32::MAX && data.height <= i32::MAX) <==> spec_v0_atom(uid, data) is Ok,
{
}

/// The snapshots list the bitmaps alive at the largest total, in order, under `max_id`
/// and the max-size type, then the bitmaps alive now, in order, under `sample_id` and the
/// random-sample type; each atom carries its bitmap's uid, size, storage type and activity.
pub proof fn lemma_snapshot_atoms_list_bitmaps(st: BitmapStateView, max_id: i64, sample_id: i64)
    ensures
        ({
            let atoms = snapshot_atoms(st, max_id, sample_id);
            let n = st.bitmap_snapshot_at_max_size.len();
            &&& atoms.len() == n + st.bitmaps.len()
            &&& forall|k: int| #![trigger atoms[k]] 0 <= k < atoms.len() ==> {
                let md = if k < n {
                    st.bitmap_snapshot_at_max_size[k]
                } else {
                    st.bitmaps[k - n].1
                };
                atoms[k] matches CodegenAtomView::AndroidGraphicsBitmapAllocationSnapshot {
                    uid,
                    width,
                    height,
                    pixel_storage_type,
                    snapshot_id,
                    snapshot_type,
                    activity_name,
                } && uid == md.uid && width == md.width && height == md.height && pixel_storage_type
                    == md.pixel_storage_type && activity_name == md.activity_name && (if k < n {
                    snapshot_id == max_id && snapshot_type == SNAPSHOT_TYPE_MAX_ALLOCATION_SIZE
                } else {
                    snapshot_id == sample_id && snapshot_type == SNAPSHOT_TYPE_RANDOM_SAMPLE
                })
            }
        }),
{
    let atoms = snapshot_atoms(st, max_id, sample_id);
    let n = st.bitmap_snapshot_at_max_size.len();
    assert forall|k: int| #![trigger atoms[k]] 0 <= k < atoms.len() implies {
        let md = if k < n {
            st.bitmap_snapshot_at_max_size[k]
        } else {
            st.bitmaps[k - n].1
        };
        atoms[k] matches CodegenAtomView::AndroidGraphicsBitmapAllocationSnapshot {
            uid,
            width,
            height,
            pixel_storage_type,
            snapshot_id,
            snapshot_type,
            activity_name,
        } && uid == md.uid && width == md.width && height == md.height && pixel_storage_type == md.pixel_storage_type
            && activity_name == md.activity_name && (if k < n {
            snapshot_id == max_id && snapshot_type == SNAPSHOT_TYPE_MAX_ALLOCATION_SIZE
        } else {
            snapshot_id == sample_id && snapshot_type == SNAPSHOT_TYPE_RANDOM_SAMPLE
        })
    } by {
        if k >= n {
            assert(metadata_values(st.bitmaps)[k - n] == st.bitmaps[k - n].1);
        }
    }
}

/// An accepted event writes exactly one atom when it is an allocation or a scaling, and
/// none otherwise.
pub proof fn lemma_v1_one_atom(st: BitmapStateView, uid: i32, data: BitmapEvent)
    ensures
        spec_v1_plan(st, uid, data) matches Ok((atom, _, _)) ==> (atom is Some <==> (data.type_
            == BitmapEventType::Allocation || data.type_ == BitmapEventType::BitmapScaled)),
{
}

/// After a bitmap is recorded at `ptr`, it is the one found there, and every other bitmap
/// keeps its address and metadata.
pub proof fn lemma_map_insert_found(bitmaps: Seq<(u64, BitmapMetadataView)>, ptr: u64, md: BitmapMetadataView)
    requires
        keys_distinct(bitmaps),
    ensures
        keys_distinct(map_insert(bitmaps, ptr, md)),
        0 <= key_index(map_insert(bitmaps, ptr, md), ptr),
        map_insert(bitmaps, ptr, md)[key_index(map_insert(bitmaps, ptr, md), ptr)] == (ptr, md),
        forall|i: int|
            0 <= i < bitmaps.len() && bitmaps[i].0 != ptr ==> #[trigger] map_insert(bitmaps, ptr, md).contains(bitmaps[i]),
{
    let r = map_insert(bitmaps, ptr, md);
    let k = key_index(bitmaps, ptr);
    if k >= 0 {
        assert(bitmaps[k].0 == ptr);
        assert(r[k] == (ptr, md));
        assert forall|a: int, b: int| 0 <= a < b < r.len() implies r[a].0 != r[b].0 by {
            assert(bitmaps[a].0 != bitmaps[b].0);
        }
        let j = key_index(r, ptr);
        assert(r[k].0 == ptr);
        assert(0 <= j < r.len() && r[j].0 == ptr);
        assert(j == k) by {
            if j != k {
                assert(r[j].0 != r[k].0 || j == k);
            }
        }
        assert forall|i: int| 0 <= i < bitmaps.len() && bitmaps[i].0 != ptr implies #[trigger] r.contains(bitmaps[i]) by {
            assert(r[i] == bitmaps[i]);
        }
    } else {
        assert forall|a: int, b: int| 0 <= a < b < r.len() implies r[a].0 != r[b].0 by {
            if b < bitmaps.len() {
                assert(bitmaps[a].0 != bitmaps[b].0);
            } else {
                assert(!(0 <= a < bitmaps.len() && bitmaps[a].0 == ptr));
            }
        }
        let last = bitmaps.len() as int;
        assert(r[last].0 == ptr);
        let j = key_index(r, ptr);
        assert(0 <= j < r.len() && r[j].0 == ptr);
        assert(j == last) by {
            if j < last {
                assert(!(0 <= j < bitmaps.len() && bitmaps[j].0 == ptr));
            }
        }
        assert forall|i: int| 0 <= i < bitmaps.len() && bitmaps[i].0 != ptr implies #[trigger] r.contains(bitmaps[i]) by {
            assert(r[i] == bitmaps[i]);
        }
    }
}

/// After the bitmap at `ptr` is freed, no bitmap is recorded there, and every other bitmap
/// is still recorded.
pub proof fn lemma_map_remove_forgets(bitmaps: Seq<(u64, BitmapMetadataView)>, ptr: u64)
    requires
        keys_distinct(bitmaps),
    ensures
        keys_distinct(map_remove(bitmaps, ptr)),
        key_index(map_remove(bitmaps, ptr), ptr) == -1,
        forall|i: int|
            0 <= i < bitmaps.len() && bitmaps[i].0 != ptr ==> #[trigger] map_remove(bitmaps, ptr).contains(bitmaps[i]),
{
    let r = map_remove(bitmaps, ptr);
    let k = key_index(bitmaps, ptr);
    if k >= 0 {
        assert(bitmaps[k].0 == ptr);
        assert forall|a: int, b: int| 0 <= a < b < r.len() implies r[a].0 != r[b].0 by {
            if b < k {
                assert(bitmaps[a].0 != bitmaps[b].0);
            } else if a < k {
                assert(bitmaps[a].0 != bitmaps[b + 1].0);
            } else {
                assert(bitmaps[a + 1].0 != bitmaps[b + 1].0);
            }
        }
        assert forall|i: int| 0 <= i < r.len() implies r[i].0 != ptr by {
            if i < k {
                assert(bitmaps[i].0 != bitmaps[k].0);
            } else {
                assert(bitmaps[i + 1].0 != bitmaps[k].0);
            }
        }
        assert forall|i: int| 0 <= i < bitmaps.len() && bitmaps[i].0 != ptr implies #[trigger] r.contains(bitmaps[i]) by {
            if i < k {
                assert(r[i] == bitmaps[i]);
            } else {
                assert(i != k);
                assert(r[i - 1] == bitmaps[i]);
            }
        }
    } else {
        assert forall|i: int| 0 <= i < bitmaps.len() && bitmaps[i].0 != ptr implies #[trigger] r.contains(bitmaps[i]) by {
            assert(r[i] == bitmaps[i]);
        }
    }
}

} // verus!
