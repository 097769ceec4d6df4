//! Logs runtime permission grants to apps with an enabled accessibility service, with the
//! accessibility calls that preceded them.
use crate::atom::{
    annotated_field, plain_field, views, AccessibilityRuntimePermissionGrantReported, AtomView, AtomWriter, Field,
    FieldAnnotation, PermissionGrantView, UnstructuredAtom, Value, ValueView,
};
use crate::bpf_handler::{write_atoms, write_outcome, HandlerError};
use crate::bridge_service::{
    int_entry, string_entry, BridgeError, BridgeEvent, BridgeEventView, EntryValueView, PayloadId,
    UprobeStatsBridgeService,
};
use crate::config_resolver::ResolvedTask;
use crate::string::{bytes_as_nonempty_str, spec_bytes_as_nonempty_str, starts_with, StringError};
use vstd::prelude::*;

verus! {

/// The ring buffer the accessibility BPF program writes to.
pub const ACCESSIBILITY_MAP_PATH: &'static str = "/sys/fs/bpf/uprobestats/map_Accessibility_output_buf";

/// The atom id of `AccessibilityRuntimePermissionGrantReported`.
pub const ATOM_ID_ACCESSIBILITY_RUNTIME_PERMISSION_GRANT: u32 = 1217;

/// How long before a permission grant an accessibility call counts as preceding it, in
/// nanoseconds (ten seconds).
pub const A11Y_EVENT_WINDOW_NS: u64 = 10_000_000_000;

/// Nanoseconds in a millisecond.
pub const NANOS_PER_MILLI: u64 = 1_000_000;

/// The item variant of a runtime permission grant.
pub const VARIANT_PERMISSION_GRANT: i32 = 1;

/// The item variant of a call on an accessibility service connection.
pub const VARIANT_A11Y_CALL: i32 = 2;

/// The prefix of the system permissions; only those are logged.
pub const SYSTEM_PERMISSION_PREFIX: &'static str = "android.permission";

/// An item of the accessibility ring buffer.
#[derive(Debug, Clone, PartialEq, Eq)]
pub struct AccessibilityEvent {
    /// `VARIANT_PERMISSION_GRANT` or `VARIANT_A11Y_CALL`.
    pub variant: i32,
    /// When the event happened, in nanoseconds.
    pub timestamp_ns: u64,
    /// The uid of the accessibility call.
    pub uid: i32,
    /// The code of the accessibility call.
    pub code: i32,
    /// The package granted the permission, a NUL-terminated C string.
    pub package_name: Vec<u8>,
    /// The permission granted, a NUL-terminated C string.
    pub permission_name: Vec<u8>,
}

/// What an event of the handler is.
#[derive(Debug)]
pub enum EventType {
    /// The named permission was granted.
    RuntimePermissionGrant(String),
    /// An accessibility call with this code.
    A11y(i32),
}

/// The abstract content of an `EventType`.
pub enum EventTypeView {
    /// The named permission was granted.
    RuntimePermissionGrant(Seq<char>),
    /// An accessibility call with this code.
    A11y(i32),
}

/// An event that the handler keeps until it is finished.
#[derive(Debug)]
pub struct Event {
    /// The uid the event is about.
    pub uid: i32,
    /// When it happened, in nanoseconds.
    pub timestamp_ns: u64,
    /// What it is.
    pub variant: EventType,
}

/// The abstract content of an `Event`.
pub struct EventView {
    /// The uid the event is about.
    pub uid: i32,
    /// When it happened, in nanoseconds.
    pub timestamp_ns: u64,
    /// What it is.
    pub variant: EventTypeView,
}

impl View for Event {
    type V = EventView;

    open spec fn view(&self) -> EventView {
        EventView {
            uid: self.uid,
            timestamp_ns: self.timestamp_ns,
            variant: match self.variant {
                EventType::RuntimePermissionGrant(p) => EventTypeView::RuntimePermissionGrant(p@),
                EventType::A11y(c) => EventTypeView::A11y(c),
            },
        }
    }
}

impl Event {
    /// An equal copy of the event.
    pub fn duplicate(&self) -> (r: Event)
        ensures
            r@ == self@,
    {
        let variant = match &self.variant {
            EventType::RuntimePermissionGrant(p) => EventType::RuntimePermissionGrant(p.clone()),
            EventType::A11y(c) => EventType::A11y(*c),
        };
        Event { uid: self.uid, timestamp_ns: self.timestamp_ns, variant }
    }
}

/// The bridge event that tells the framework of an event: its time in whole milliseconds,
/// the call code and interface for a call, the permission for a grant.
pub open spec fn spec_bridge_event(e: EventView) -> BridgeEventView {
    BridgeEventView {
        uid: e.uid,
        timestamp_ms: (e.timestamp_ns / NANOS_PER_MILLI) as i64,
        payload_id: match e.variant {
            EventTypeView::A11y(_) => PayloadId::A11y,
            EventTypeView::RuntimePermissionGrant(_) => PayloadId::RuntimePermissionGrant,
        },
        payload: match e.variant {
            EventTypeView::A11y(code) => seq![
                ("CODE"@, EntryValueView::IntValue(code)),
                ("INTERFACE_NAME"@, EntryValueView::StringValue("IAccessibilityServiceConnection"@)),
            ],
            EventTypeView::RuntimePermissionGrant(p) => seq![
                ("PERMISSION_NAME"@, EntryValueView::StringValue(p)),
            ],
        },
    }
}

/// The bridge event that tells the framework of `event`.
pub fn bridge_event(event: &Event) -> (r: BridgeEvent)
    ensures
        r@ == spec_bridge_event(event@),
{
    let timestamp_ms = (event.timestamp_ns / NANOS_PER_MILLI) as i64;
    let mut payload = Vec::new();
    let payload_id = match &event.variant {
        EventType::A11y(code) => {
            payload.push(int_entry("CODE", *code));
            payload.push(string_entry("INTERFACE_NAME", "IAccessibilityServiceConnection"));
            PayloadId::A11y
        },
        EventType::RuntimePermissionGrant(p) => {
            payload.push(string_entry("PERMISSION_NAME", p.as_str()));
            PayloadId::RuntimePermissionGrant
        },
    };
    let r = BridgeEvent { uid: event.uid, timestamp_ms, payload_id, payload };
    assert(r@.payload =~= spec_bridge_event(event@).payload);
    r
}

/// The event that an item makes the handler keep, or why it is dropped (`None`) or refused,
/// given what the bridge service answered: `has_a11y` whether the package has an enabled
/// accessibility service, `uid` the package's uid. A grant is kept only for a system
/// permission of a package with an enabled accessibility service; the service is asked
/// nothing about a call.
pub open spec fn spec_item_event(
    data: AccessibilityEvent,
    has_a11y: Result<bool, BridgeError>,
    uid: Result<i32, BridgeError>,
) -> Result<Option<EventView>, HandlerError> {
    if data.variant == VARIANT_PERMISSION_GRANT {
        match spec_bytes_as_nonempty_str(data.package_name@) {
            Err(e) => Err(HandlerError::InvalidString(e)),
            Ok(_) => match spec_bytes_as_nonempty_str(data.permission_name@) {
                Err(e) => Err(HandlerError::InvalidString(e)),
                Ok(permission) => if !SYSTEM_PERMISSION_PREFIX@.is_prefix_of(permission) {
                    Ok(None)
                } else {
                    match has_a11y {
                        Err(e) => Err(HandlerError::Bridge(e)),
                        Ok(false) => Ok(None),
                        Ok(true) => match uid {
                            Err(e) => Err(HandlerError::Bridge(e)),
                            Ok(u) => Ok(Some(EventView {
                                uid: u,
                                timestamp_ns: data.timestamp_ns,
                                variant: EventTypeView::RuntimePermissionGrant(permission),
                            })),
                        },
                    }
                },
            },
        }
    } else if data.variant == VARIANT_A11Y_CALL {
        Ok(Some(EventView { uid: data.uid, timestamp_ns: data.timestamp_ns, variant: EventTypeView::A11y(data.code) }))
    } else {
        Err(HandlerError::InvalidVariant(data.variant))
    }
}

/// The answers an item was handled with are the bridge service's answers to the questions
/// the handler asked: for a grant of a system permission, whether the granted package has an
/// enabled accessibility service and, if it has, the package's uid.
pub open spec fn item_answers_asked<B: UprobeStatsBridgeService>(
    bridge: B,
    data: AccessibilityEvent,
    has_a11y: Result<bool, BridgeError>,
    uid: Result<i32, BridgeError>,
) -> bool {
    data.variant == VARIANT_PERMISSION_GRANT ==> match (
        spec_bytes_as_nonempty_str(data.package_name@),
        spec_bytes_as_nonempty_str(data.permission_name@),
    ) {
        (Ok(package), Ok(permission)) => SYSTEM_PERMISSION_PREFIX@.is_prefix_of(permission) ==> bridge.a11y_answer(
            package,
            has_a11y,
        ) && (has_a11y == Ok::<bool, BridgeError>(true) ==> bridge.uid_answer(package, uid)),
        _ => true,
    }
}

/// The event that an item makes the handler keep, given the bridge service's answers
/// (`spec_item_event`).
pub fn item_event(
    data: &AccessibilityEvent,
    has_a11y: Result<bool, BridgeError>,
    uid: Result<i32, BridgeError>,
) -> (r: Result<Option<Event>, HandlerError>)
    ensures
        match r {
            Ok(Some(e)) => spec_item_event(*data, has_a11y, uid) == Ok::<Option<EventView>, HandlerError>(Some(e@)),
            Ok(None) => spec_item_event(*data, has_a11y, uid) == Ok::<Option<EventView>, HandlerError>(None),
            Err(e) => spec_item_event(*data, has_a11y, uid) == Err::<Option<EventView>, HandlerError>(e),
        },
{
    if data.variant == VARIANT_PERMISSION_GRANT {
        let _package = match bytes_as_nonempty_str(data.package_name.as_slice()) {
            Ok(s) => s,
            Err(e) => {
                return Err(HandlerError::InvalidString(e));
            },
        };
        let permission = match bytes_as_nonempty_str(data.permission_name.as_slice()) {
            Ok(s) => s,
            Err(e) => {
                return Err(HandlerError::InvalidString(e));
            },
        };
        if !starts_with(permission.as_str(), SYSTEM_PERMISSION_PREFIX) {
            return Ok(None);
        }
        match has_a11y {
            Err(e) => Err(HandlerError::Bridge(e)),
            Ok(false) => Ok(None),
            Ok(true) => match uid {
                Err(e) => Err(HandlerError::Bridge(e)),
                Ok(u) => Ok(
                    Some(
                        Event {
                            uid: u,
                            timestamp_ns: data.timestamp_ns,
                            variant: EventType::RuntimePermissionGrant(permission),
                        },
                    ),
                ),
            },
        }
    } else if data.variant == VARIANT_A11Y_CALL {
        Ok(Some(Event { uid: data.uid, timestamp_ns: data.timestamp_ns, variant: EventType::A11y(data.code) }))
    } else {
        Err(HandlerError::InvalidVariant(data.variant))
    }
}

/// What `on_item` did, given the event it `planned` to keep: `events` and `enqueued` are
/// the handler's events and the bridge's accepted events before and after the call. A kept
/// event is first sent to the bridge; if that fails, nothing is kept.
pub open spec fn item_handled_as(
    planned: Result<Option<EventView>, HandlerError>,
    events_before: Seq<EventView>,
    events_after: Seq<EventView>,
    enqueued_before: Seq<(BridgeEventView, bool)>,
    enqueued_after: Seq<(BridgeEventView, bool)>,
    r: Result<(), HandlerError>,
) -> bool {
    match planned {
        Err(e) => r == Err::<(), HandlerError>(e) && events_after == events_before && enqueued_after == enqueued_before,
        Ok(None) => r is Ok && events_after == events_before && enqueued_after == enqueued_before,
        Ok(Some(ev)) => if r is Ok {
            events_after == events_before.push(ev) && enqueued_after == enqueued_before.push((spec_bridge_event(ev), false))
        } else {
            r matches Err(HandlerError::Bridge(_)) && events_after == events_before && enqueued_after == enqueued_before
        },
    }
}

/// Collects accessibility calls and permission grants, and when finished logs each grant
/// with the calls of the same uid that came within `A11Y_EVENT_WINDOW_NS` before it.
pub struct AccessibilityHandler<A, B> {
    /// The events kept so far, in the order they arrived.
    pub events: Vec<Event>,
    /// Where the atoms go.
    pub writer: A,
    /// The bridge service that is asked about packages and told of every event.
    pub bridge_service: B,
}

impl<A: AtomWriter<UnstructuredAtom>, B: UprobeStatsBridgeService> AccessibilityHandler<A, B> {
    /// The events kept so far, in the order they arrived.
    pub open spec fn events(&self) -> Seq<EventView> {
        views(self.events@)
    }

    /// A handler with no event yet.
    pub fn new(writer: A, bridge_service: B) -> (r: Self)
        ensures
            r.events() == Seq::<EventView>::empty(),
            r.writer == writer,
            r.bridge_service == bridge_service,
    {
        let r = AccessibilityHandler { events: Vec::new(), writer, bridge_service };
        assert(r.events() =~= Seq::<EventView>::empty());
        r
    }

    /// Keeps the event of an item (and tells the bridge of it), with the bridge service's
    /// answers about the granted package (`item_answers_asked`).
    pub fn on_item(&mut self, _task: &ResolvedTask, data: &AccessibilityEvent) -> (r: Result<(), HandlerError>)
        ensures
            exists|has_a11y: Result<bool, BridgeError>, uid: Result<i32, BridgeError>|
                #[trigger] item_handled_as(
                    spec_item_event(*data, has_a11y, uid),
                    old(self).events(),
                    final(self).events(),
                    old(self).bridge_service.enqueued(),
                    final(self).bridge_service.enqueued(),
                    r,
                ) && item_answers_asked(old(self).bridge_service, *data, has_a11y, uid),
            final(self).writer == old(self).writer,
    {
        let mut has_a11y: Result<bool, BridgeError> = Ok(false);
        let mut uid: Result<i32, BridgeError> = Ok(0);
        if data.variant == VARIANT_PERMISSION_GRANT {
            if let Ok(package) = bytes_as_nonempty_str(data.package_name.as_slice()) {
                if let Ok(permission) = bytes_as_nonempty_str(data.permission_name.as_slice()) {
                    if starts_with(permission.as_str(), SYSTEM_PERMISSION_PREFIX) {
                        has_a11y = self.bridge_service.package_has_enabled_accessibility_service(package.as_str());
                        if let Ok(true) = has_a11y {
                            uid = self.bridge_service.get_uid_for_package(package.as_str());
                        }
                    }
                }
            }
        }
        let ghost answers = (has_a11y, uid);
        assert(item_answers_asked(self.bridge_service, *data, has_a11y, uid));
        let ghost planned = spec_item_event(*data, has_a11y, uid);
        let event = match item_event(data, has_a11y, uid) {
            Ok(Some(e)) => e,
            Ok(None) => {
                assert(item_handled_as(planned, old(self).events(), self.events(), old(self).bridge_service.enqueued(), self.bridge_service.enqueued(), Ok(())));
                return Ok(());
            },
            Err(e) => {
                assert(item_handled_as(planned, old(self).events(), self.events(), old(self).bridge_service.enqueued(), self.bridge_service.enqueued(), Err(e)));
                return Err(e);
            },
        };
        let ghost ev = event@;
        let be = bridge_event(&event);
        match self.bridge_service.enqueue_event(be, false) {
            Ok(()) => {},
            Err(e) => {
                assert(item_handled_as(planned, old(self).events(), self.events(), old(self).bridge_service.enqueued(), self.bridge_service.enqueued(), Err(HandlerError::Bridge(e))));
                return Err(HandlerError::Bridge(e));
            },
        }
        let ghost before = self.events@;
        self.events.push(event);
        assert(views(self.events@) =~= views(before).push(ev));
        assert(item_handled_as(planned, old(self).events(), self.events(), old(self).bridge_service.enqueued(), self.bridge_service.enqueued(), Ok(())));
        Ok(())
    }

    /// Logs every permission grant kept, uid by uid in the order of their first event, each
    /// with the calls of its uid associated with it; stops at the first failed write.
    pub fn on_finished(&mut self) -> (r: Result<(), HandlerError>)
        ensures
            final(self).events() == old(self).events(),
            final(self).bridge_service == old(self).bridge_service,
            final(self).writer.reliable() == old(self).writer.reliable(),
            old(self).writer.reliable() ==> r is Ok,
            write_outcome(old(self).writer.written(), final(self).writer.written(), grant_atoms(old(self).events()), r is Ok),
            r is Err ==> r->Err_0 is Write,
    {
        let ghost vs = self.events();
        let order = uid_order_of(&self.events);
        let mut atoms: Vec<UnstructuredAtom> = Vec::new();
        let mut k: usize = 0;
        assert(order@.take(0) =~= Seq::<i32>::empty());
        assert(views(atoms@) =~= Seq::<AtomView>::empty());
        while k < order.len()
            invariant
                k <= order@.len(),
                vs == self.events(),
                order@ == uid_order(vs),
                views(atoms@) == grants_of_uids(vs, order@.take(k as int)).map_values(|g: PermissionGrantView| grant_atom(g)),
            decreases order@.len() - k,
        {
            assert(order@.take(k + 1).drop_last() =~= order@.take(k as int));
            let group = events_of_uid(&self.events, order[k]);
            let sorted = sort_events_desc(&group);
            let grants = associate_events(&sorted);
            let ghost prefix = grants_of_uids(vs, order@.take(k as int));
            let ghost added = views(grants@);
            let ghost start = atoms@;
            let mut j: usize = 0;
            while j < grants.len()
                invariant
                    j <= grants@.len(),
                    added == views(grants@),
                    views(atoms@) == (prefix + added.take(j as int)).map_values(|g: PermissionGrantView| grant_atom(g)),
                decreases grants@.len() - j,
            {
                let ghost before = atoms@;
                let atom = grant_atom_of(&grants[j]);
                atoms.push(atom);
                assert(prefix + added.take(j + 1) =~= (prefix + added.take(j as int)).push(added[j as int]));
                assert(views(atoms@) =~= views(before).push(grant_atom(added[j as int])));
                assert(views(atoms@) =~= (prefix + added.take(j + 1)).map_values(|g: PermissionGrantView| grant_atom(g)));
                j = j + 1;
            }
            assert(added.take(grants@.len() as int) =~= added);
            k = k + 1;
        }
        assert(order@.take(order@.len() as int) =~= order@);
        write_atoms(&mut self.writer, atoms)
    }
}

/// The uids of `events` in the order of their first event.
pub open spec fn uid_order(events: Seq<EventView>) -> Seq<i32>
    decreases events.len(),
{
    if events.len() == 0 {
        Seq::empty()
    } else {
        let prev = uid_order(events.drop_last());
        if prev.contains(events.last().uid) {
            prev
        } else {
            prev.push(events.last().uid)
        }
    }
}

/// The events of `uid`, in their order in `events`.
pub open spec fn events_of(events: Seq<EventView>, uid: i32) -> Seq<EventView>
    decreases events.len(),
{
    if events.len() == 0 {
        Seq::empty()
    } else {
        let prev = events_of(events.drop_last(), uid);
        if events.last().uid == uid {
            prev.push(events.last())
        } else {
            prev
        }
    }
}

/// `sorted` with `e` inserted after every event at least as recent as `e`.
pub open spec fn insert_desc(sorted: Seq<EventView>, e: EventView) -> Seq<EventView>
    decreases sorted.len(),
{
    if sorted.len() == 0 {
        seq![e]
    } else if sorted.last().timestamp_ns >= e.timestamp_ns {
        sorted.push(e)
    } else {
        insert_desc(sorted.drop_last(), e).push(sorted.last())
    }
}

/// The events from the most recent to the oldest; events of the same time keep their order.
pub open spec fn sort_desc(events: Seq<EventView>) -> Seq<EventView>
    decreases events.len(),
{
    if events.len() == 0 {
        Seq::empty()
    } else {
        insert_desc(sort_desc(events.drop_last()), events.last())
    }
}

/// `a - b`, or zero where `b` is the larger.
pub open spec fn saturating_diff(a: u64, b: u64) -> int {
    if a >= b {
        a - b
    } else {
        0
    }
}

/// The grants closed so far and the grant still open, after one more event (most recent
/// first): a grant opens a new grant; a call is added to the open grant when it came within
/// the window before it, and is dropped when no grant is open or it came earlier.
pub open spec fn assoc_step(
    state: (Seq<PermissionGrantView>, Option<PermissionGrantView>),
    e: EventView,
) -> (Seq<PermissionGrantView>, Option<PermissionGrantView>) {
    match e.variant {
        EventTypeView::RuntimePermissionGrant(p) => (
            match state.1 {
                Some(g) => state.0.push(g),
                None => state.0,
            },
            Some(PermissionGrantView {
                uid: e.uid,
                timestamp_ns: e.timestamp_ns,
                permission_name: p,
                preceding_a11y_calls: Seq::empty(),
            }),
        ),
        EventTypeView::A11y(code) => match state.1 {
            None => state,
            Some(g) => if saturating_diff(g.timestamp_ns, e.timestamp_ns) < A11Y_EVENT_WINDOW_NS {
                (
                    state.0,
                    Some(PermissionGrantView {
                        preceding_a11y_calls: g.preceding_a11y_calls.push((code, e.timestamp_ns)),
                        ..g
                    }),
                )
            } else {
                state
            },
        },
    }
}

/// The state of the association after the events, taken in order.
pub open spec fn assoc_state(events: Seq<EventView>) -> (Seq<PermissionGrantView>, Option<PermissionGrantView>)
    decreases events.len(),
{
    if events.len() == 0 {
        (Seq::empty(), None)
    } else {
        assoc_step(assoc_state(events.drop_last()), events.last())
    }
}

/// The grants of events sorted most recent first, each with the calls associated with it.
pub open spec fn associate(events: Seq<EventView>) -> Seq<PermissionGrantView> {
    let state = assoc_state(events);
    match state.1 {
        Some(g) => state.0.push(g),
        None => state.0,
    }
}

/// The grants of the uids in `uids`, uid by uid.
pub open spec fn grants_of_uids(events: Seq<EventView>, uids: Seq<i32>) -> Seq<PermissionGrantView>
    decreases uids.len(),
{
    if uids.len() == 0 {
        Seq::empty()
    } else {
        grants_of_uids(events, uids.drop_last()) + associate(sort_desc(events_of(events, uids.last())))
    }
}

/// Every grant among the events, uid by uid in the order of their first event.
pub open spec fn all_grants(events: Seq<EventView>) -> Seq<PermissionGrantView> {
    grants_of_uids(events, uid_order(events))
}

/// The atom logging a grant: uid, permission, time in milliseconds, and the codes and times
/// in milliseconds of the preceding calls.
pub open spec fn grant_atom(g: PermissionGrantView) -> AtomView {
    AtomView {
        atom_id: ATOM_ID_ACCESSIBILITY_RUNTIME_PERMISSION_GRANT,
        fields: seq![
            annotated_field(ValueView::Int32(g.uid), FieldAnnotation::IsUid(true)),
            plain_field(ValueView::String(g.permission_name)),
            plain_field(ValueView::Int64((g.timestamp_ns / NANOS_PER_MILLI) as i64)),
            plain_field(ValueView::Int32Vec(g.preceding_a11y_calls.map_values(|c: (i32, u64)| c.0))),
            plain_field(
                ValueView::Int64Vec(g.preceding_a11y_calls.map_values(|c: (i32, u64)| (c.1 / NANOS_PER_MILLI) as i64)),
            ),
        ],
    }
}

/// The atoms logging every grant among the events.
pub open spec fn grant_atoms(events: Seq<EventView>) -> Seq<AtomView> {
    all_grants(events).map_values(|g: PermissionGrantView| grant_atom(g))
}

/// Where the scan from the end of `sorted` stops for an event at `t`: after the last event
/// at or after `t`.
pub open spec fn scan_pos(sorted: Seq<EventView>, t: u64) -> int
    decreases sorted.len(),
{
    if sorted.len() == 0 {
        0
    } else if sorted.last().timestamp_ns >= t {
        sorted.len() as int
    } else {
        scan_pos(sorted.drop_last(), t)
    }
}

proof fn lemma_scan_pos(sorted: Seq<EventView>, t: u64, j: int)
    requires
        0 <= j <= sorted.len(),
        forall|k: int| j <= k < sorted.len() ==> sorted[k].timestamp_ns < t,
        j == 0 || sorted[j - 1].timestamp_ns >= t,
    ensures
        scan_pos(sorted, t) == j,
    decreases sorted.len(),
{
    if sorted.len() > j {
        lemma_scan_pos(sorted.drop_last(), t, j);
    }
}

proof fn lemma_insert_desc(sorted: Seq<EventView>, e: EventView)
    ensures
        0 <= scan_pos(sorted, e.timestamp_ns) <= sorted.len(),
        insert_desc(sorted, e) == sorted.insert(scan_pos(sorted, e.timestamp_ns), e),
    decreases sorted.len(),
{
    if sorted.len() == 0 {
        assert(seq![e] =~= sorted.insert(0, e));
    } else if sorted.last().timestamp_ns >= e.timestamp_ns {
        assert(sorted.push(e) =~= sorted.insert(sorted.len() as int, e));
    } else {
        let rest = sorted.drop_last();
        lemma_insert_desc(rest, e);
        let p = scan_pos(rest, e.timestamp_ns);
        assert(rest.insert(p, e).push(sorted.last()) =~= sorted.insert(p, e));
    }
}

/// The uids of the events in the order of their first event.
fn uid_order_of(events: &Vec<Event>) -> (r: Vec<i32>)
    ensures
        r@ == uid_order(views(events@)),
{
    let ghost vs = views(events@);
    let mut r: Vec<i32> = Vec::new();
    let mut i: usize = 0;
    assert(vs.take(0) =~= Seq::<EventView>::empty());
    while i < events.len()
        invariant
            i <= events@.len(),
            vs == views(events@),
            r@ == uid_order(vs.take(i as int)),
        decreases events@.len() - i,
    {
        let u = events[i].uid;
        assert(vs.take(i + 1).drop_last() =~= vs.take(i as int));
        let mut j: usize = 0;
        let mut found = false;
        while j < r.len()
            invariant
                j <= r@.len(),
                found <==> exists|k: int| 0 <= k < j && r@[k] == u,
            decreases r@.len() - j,
        {
            if r[j] == u {
                found = true;
            }
            j = j + 1;
        }
        if !found {
            r.push(u);
        } else {
            assert(r@.contains(u));
        }
        i = i + 1;
    }
    assert(vs.take(events@.len() as int) =~= vs);
    r
}

/// Copies of the events of `uid`, in their order.
fn events_of_uid(events: &Vec<Event>, uid: i32) -> (r: Vec<Event>)
    ensures
        views(r@) == events_of(views(events@), uid),
{
    let ghost vs = views(events@);
    let mut r: Vec<Event> = Vec::new();
    let mut i: usize = 0;
    assert(vs.take(0) =~= Seq::<EventView>::empty());
    assert(views(r@) =~= Seq::<EventView>::empty());
    while i < events.len()
        invariant
            i <= events@.len(),
            vs == views(events@),
            views(r@) == events_of(vs.take(i as int), uid),
        decreases events@.len() - i,
    {
        assert(vs.take(i + 1).drop_last() =~= vs.take(i as int));
        if events[i].uid == uid {
            let ghost before = r@;
            let e = events[i].duplicate();
            r.push(e);
            assert(views(r@) =~= views(before).push(vs[i as int]));
        }
        i = i + 1;
    }
    assert(vs.take(events@.len() as int) =~= vs);
    r
}

/// The events from the most recent to the oldest, events of the same time in their order.
fn sort_events_desc(events: &Vec<Event>) -> (r: Vec<Event>)
    ensures
        views(r@) == sort_desc(views(events@)),
{
    let ghost vs = views(events@);
    let mut r: Vec<Event> = Vec::new();
    let mut i: usize = 0;
    assert(vs.take(0) =~= Seq::<EventView>::empty());
    assert(views(r@) =~= Seq::<EventView>::empty());
    while i < events.len()
        invariant
            i <= events@.len(),
            vs == views(events@),
            views(r@) == sort_desc(vs.take(i as int)),
        decreases events@.len() - i,
    {
        assert(vs.take(i + 1).drop_last() =~= vs.take(i as int));
        let e = events[i].duplicate();
        let t = e.timestamp_ns;
        let ghost sorted = views(r@);
        let mut j: usize = r.len();
        while j > 0 && r[j - 1].timestamp_ns < t
            invariant
                j <= r@.len(),
                sorted == views(r@),
                forall|k: int| j <= k < sorted.len() ==> sorted[k].timestamp_ns < t,
            decreases j,
        {
            j = j - 1;
        }
        proof {
            lemma_scan_pos(sorted, t, j as int);
            lemma_insert_desc(sorted, e@);
        }
        let ghost ev = e@;
        let ghost before = r@;
        r.insert(j, e);
        assert(views(r@) =~= sorted.insert(j as int, ev));
        i = i + 1;
    }
    assert(vs.take(events@.len() as int) =~= vs);
    r
}

/// The view of an optional grant.
pub open spec fn grant_opt_view(g: Option<AccessibilityRuntimePermissionGrantReported>) -> Option<PermissionGrantView> {
    match g {
        Some(g) => Some(g@),
        None => None,
    }
}

/// Associates the calls with the grants: `sorted` holds the events of one uid, most recent
/// first, so that each call is given to the most recent grant that follows it.
fn associate_events(sorted: &Vec<Event>) -> (r: Vec<AccessibilityRuntimePermissionGrantReported>)
    ensures
        views(r@) == associate(views(sorted@)),
{
    let ghost vs = views(sorted@);
    let mut done: Vec<AccessibilityRuntimePermissionGrantReported> = Vec::new();
    let mut current: Option<AccessibilityRuntimePermissionGrantReported> = None;
    let mut i: usize = 0;
    assert(vs.take(0) =~= Seq::<EventView>::empty());
    assert(views(done@) =~= Seq::<PermissionGrantView>::empty());
    while i < sorted.len()
        invariant
            i <= sorted@.len(),
            vs == views(sorted@),
            (views(done@), grant_opt_view(current)) == assoc_state(vs.take(i as int)),
        decreases sorted@.len() - i,
    {
        assert(vs.take(i + 1).drop_last() =~= vs.take(i as int));
        let e = &sorted[i];
        let ghost ev = e@;
        assert(ev == vs[i as int]);
        match &e.variant {
            EventType::RuntimePermissionGrant(p) => {
                let ghost before = done@;
                match current {
                    Some(g) => {
                        let ghost gv = g@;
                        done.push(g);
                        assert(views(done@) =~= views(before).push(gv));
                    },
                    None => {},
                }
                current = Some(AccessibilityRuntimePermissionGrantReported::new(e.uid, e.timestamp_ns, p.as_str()));
            },
            EventType::A11y(code) => {
                current = match current {
                    None => None,
                    Some(mut g) => {
                        let within = if g.timestamp_ns >= e.timestamp_ns {
                            g.timestamp_ns - e.timestamp_ns < A11Y_EVENT_WINDOW_NS
                        } else {
                            0 < A11Y_EVENT_WINDOW_NS
                        };
                        if within {
                            let ghost calls = g.preceding_a11y_calls@;
                            g.preceding_a11y_calls.push((*code, e.timestamp_ns));
                            assert(g.preceding_a11y_calls@ == calls.push((*code, e.timestamp_ns)));
                        }
                        Some(g)
                    },
                };
            },
        }
        i = i + 1;
    }
    assert(vs.take(sorted@.len() as int) =~= vs);
    match current {
        Some(g) => {
            let ghost before = done@;
            let ghost gv = g@;
            done.push(g);
            assert(views(done@) =~= views(before).push(gv));
        },
        None => {},
    }
    done
}

/// The atom logging a grant.
fn grant_atom_of(g: &AccessibilityRuntimePermissionGrantReported) -> (r: UnstructuredAtom)
    ensures
        r@ == grant_atom(g@),
{
    let calls = &g.preceding_a11y_calls;
    let mut codes: Vec<i32> = Vec::new();
    let mut times: Vec<i64> = Vec::new();
    let mut i: usize = 0;
    while i < calls.len()
        invariant
            i <= calls@.len(),
            codes@ == calls@.take(i as int).map_values(|c: (i32, u64)| c.0),
            times@ == calls@.take(i as int).map_values(|c: (i32, u64)| (c.1 / NANOS_PER_MILLI) as i64),
        decreases calls@.len() - i,
    {
        let (code, t) = calls[i];
        codes.push(code);
        times.push((t / NANOS_PER_MILLI) as i64);
        assert(codes@ =~= calls@.take(i + 1).map_values(|c: (i32, u64)| c.0));
        assert(times@ =~= calls@.take(i + 1).map_values(|c: (i32, u64)| (c.1 / NANOS_PER_MILLI) as i64));
        i = i + 1;
    }
    assert(calls@.take(calls@.len() as int) =~= calls@);
    let mut fields = Vec::new();
    fields.push(Field::new_with_annotation(Value::Int32(g.uid), FieldAnnotation::IsUid(true)));
    fields.push(Field::new(Value::String(g.permission_name.clone())));
    fields.push(Field::new(Value::Int64((g.timestamp_ns / NANOS_PER_MILLI) as i64)));
    fields.push(Field::new(Value::Int32Vec(codes)));
    fields.push(Field::new(Value::Int64Vec(times)));
    let r = UnstructuredAtom { atom_id: ATOM_ID_ACCESSIBILITY_RUNTIME_PERMISSION_GRANT, fields };
    assert(r@.fields =~= grant_atom(g@).fields);
    r
}

/// The events are ordered from the most recent to the oldest.
pub open spec fn sorted_desc(s: Seq<EventView>) -> bool {
    forall|i: int, j: int| 0 <= i < j < s.len() ==> s[i].timestamp_ns >= s[j].timestamp_ns
}

proof fn lemma_scan_pos_bounds(sorted: Seq<EventView>, t: u64)
    ensures
        0 <= scan_pos(sorted, t) <= sorted.len(),
        forall|k: int| scan_pos(sorted, t) <= k < sorted.len() ==> sorted[k].timestamp_ns < t,
        scan_pos(sorted, t) == 0 || sorted[scan_pos(sorted, t) - 1].timestamp_ns >= t,
    decreases sorted.len(),
{
    if sorted.len() > 0 && sorted.last().timestamp_ns < t {
        let rest = sorted.drop_last();
        lemma_scan_pos_bounds(rest, t);
        assert forall|k: int| scan_pos(sorted, t) <= k < sorted.len() implies sorted[k].timestamp_ns < t by {
            if k < rest.len() {
                assert(sorted[k] == rest[k]);
            }
        }
    }
}

/// Sorting puts the events from the most recent to the oldest and neither loses nor adds
/// an event.
pub proof fn lemma_sort_desc(events: Seq<EventView>)
    ensures
        sorted_desc(sort_desc(events)),
        sort_desc(events).to_multiset() == events.to_multiset(),
    decreases events.len(),
{
    broadcast use vstd::seq_lib::group_to_multiset_ensures;

    if events.len() > 0 {
        let rest = events.drop_last();
        let e = events.last();
        lemma_sort_desc(rest);
        let s = sort_desc(rest);
        lemma_insert_desc(s, e);
        lemma_scan_pos_bounds(s, e.timestamp_ns);
        let p = scan_pos(s, e.timestamp_ns);
        let r = s.insert(p, e);
        assert forall|i: int, j: int| 0 <= i < j < r.len() implies r[i].timestamp_ns >= r[j].timestamp_ns by {
            if j < p {
                assert(r[i] == s[i] && r[j] == s[j]);
            } else if j == p {
                assert(r[i] == s[i] && s[p - 1].timestamp_ns >= e.timestamp_ns);
                assert(s[i].timestamp_ns >= s[p - 1].timestamp_ns || i == p - 1);
            } else if i < p {
                assert(r[i] == s[i] && r[j] == s[j - 1]);
            } else if i == p {
                assert(r[j] == s[j - 1]);
            } else {
                assert(r[i] == s[i - 1] && r[j] == s[j - 1]);
            }
        }
        assert(events =~= rest.push(e));
    }
}

/// Every call of the grant came no later than the grant and less than the window before it.
pub open spec fn calls_precede(g: PermissionGrantView) -> bool {
    forall|i: int|
        0 <= i < g.preceding_a11y_calls.len() ==> #[trigger] g.preceding_a11y_calls[i].1 <= g.timestamp_ns
            && g.timestamp_ns - g.preceding_a11y_calls[i].1 < A11Y_EVENT_WINDOW_NS
}

proof fn lemma_assoc_state_precede(events: Seq<EventView>)
    requires
        sorted_desc(events),
    ensures
        forall|i: int| 0 <= i < assoc_state(events).0.len() ==> calls_precede(#[trigger] assoc_state(events).0[i]),
        assoc_state(events).1 matches Some(g) ==> calls_precede(g) && g.timestamp_ns >= events.last().timestamp_ns,
    decreases events.len(),
{
    if events.len() > 0 {
        let rest = events.drop_last();
        assert(sorted_desc(rest));
        lemma_assoc_state_precede(rest);
        let st = assoc_state(rest);
        let e = events.last();
        if rest.len() > 0 {
            assert(rest.last().timestamp_ns >= e.timestamp_ns);
        }
        if let Some(g) = st.1 {
            assert(rest.len() > 0);
        }
        match e.variant {
            EventTypeView::RuntimePermissionGrant(p) => {
                let done = assoc_state(events).0;
                assert forall|i: int| 0 <= i < done.len() implies calls_precede(#[trigger] done[i]) by {
                    if i < st.0.len() {
                        assert(done[i] == st.0[i]);
                    }
                }
            },
            EventTypeView::A11y(code) => {
                if let Some(g) = st.1 {
                    if saturating_diff(g.timestamp_ns, e.timestamp_ns) < A11Y_EVENT_WINDOW_NS {
                        let calls = g.preceding_a11y_calls.push((code, e.timestamp_ns));
                        assert forall|i: int| 0 <= i < calls.len() implies #[trigger] calls[i].1 <= g.timestamp_ns
                            && g.timestamp_ns - calls[i].1 < A11Y_EVENT_WINDOW_NS by {
                            if i < g.preceding_a11y_calls.len() {
                                assert(calls[i] == g.preceding_a11y_calls[i]);
                            }
                        }
                    }
                }
            },
        }
    }
}

/// Every call associated with a grant of events sorted most recent first came no later
/// than the grant and less than the window before it.
pub proof fn lemma_associated_calls_precede(events: Seq<EventView>)
    requires
        sorted_desc(events),
    ensures
        forall|i: int| 0 <= i < associate(events).len() ==> calls_precede(#[trigger] associate(events)[i]),
{
    lemma_assoc_state_precede(events);
    let st = assoc_state(events);
    if let Some(g) = st.1 {
        assert forall|i: int| 0 <= i < associate(events).len() implies calls_precede(#[trigger] associate(events)[i]) by {
            if i < st.0.len() {
                assert(associate(events)[i] == st.0[i]);
            }
        }
    }
}

/// Every call that the handler logs with a grant came no later than the grant and less than
/// the window before it.
pub proof fn lemma_logged_calls_precede_grant(events: Seq<EventView>)
    ensures
        forall|i: int| 0 <= i < all_grants(events).len() ==> calls_precede(#[trigger] all_grants(events)[i]),
{
    lemma_grants_of_uids_precede(events, uid_order(events));
}

proof fn lemma_grants_of_uids_precede(events: Seq<EventView>, uids: Seq<i32>)
    ensures
        forall|i: int| 0 <= i < grants_of_uids(events, uids).len() ==> calls_precede(#[trigger] grants_of_uids(events, uids)[i]),
    decreases uids.len(),
{
    if uids.len() > 0 {
        lemma_grants_of_uids_precede(events, uids.drop_last());
        let a = grants_of_uids(events, uids.drop_last());
        let sorted = sort_desc(events_of(events, uids.last()));
        lemma_sort_desc(events_of(events, uids.last()));
        lemma_associated_calls_precede(sorted);
        let b = associate(sorted);
        assert forall|i: int| 0 <= i < (a + b).len() implies calls_precede(#[trigger] (a + b)[i]) by {
            if i < a.len() {
                assert((a + b)[i] == a[i]);
            } else {
                assert((a + b)[i] == b[i - a.len()]);
            }
        }
    }
}

/// The number of permission grants among the events.
pub open spec fn grant_count(events: Seq<EventView>) -> nat
    decreases events.len(),
{
    if events.len() == 0 {
        0
    } else {
        grant_count(events.drop_last()) + if events.last().variant is RuntimePermissionGrant {
            1nat
        } else {
            0nat
        }
    }
}

proof fn lemma_assoc_state_count(events: Seq<EventView>)
    ensures
        assoc_state(events).0.len() + (if assoc_state(events).1 is Some { 1int } else { 0int }) == grant_count(events),
    decreases events.len(),
{
    if events.len() > 0 {
        lemma_assoc_state_count(events.drop_last());
    }
}

/// Association of calls alone keeps nothing.
proof fn lemma_assoc_state_calls(calls: Seq<EventView>)
    requires
        forall|i: int| 0 <= i < calls.len() ==> #[trigger] calls[i].variant is A11y,
    ensures
        assoc_state(calls) == (Seq::<PermissionGrantView>::empty(), None::<PermissionGrantView>),
    decreases calls.len(),
{
    if calls.len() > 0 {
        lemma_assoc_state_calls(calls.drop_last());
        assert(calls.last().variant is A11y);
    }
}

/// Association after leading calls is association without them.
proof fn lemma_assoc_state_after_calls(calls: Seq<EventView>, rest: Seq<EventView>)
    requires
        forall|i: int| 0 <= i < calls.len() ==> #[trigger] calls[i].variant is A11y,
    ensures
        assoc_state(calls + rest) == assoc_state(rest),
    decreases rest.len(),
{
    if rest.len() == 0 {
        assert(calls + rest =~= calls);
        lemma_assoc_state_calls(calls);
    } else {
        lemma_assoc_state_after_calls(calls, rest.drop_last());
        assert((calls + rest).drop_last() =~= calls + rest.drop_last());
        assert((calls + rest).last() == rest.last());
    }
}

/// Calls that come before every grant in most-recent-first order (calls made after all the
/// grants) are associated with no grant: leaving them out changes nothing.
pub proof fn lemma_calls_after_grants_dropped(calls: Seq<EventView>, rest: Seq<EventView>)
    requires
        forall|i: int| 0 <= i < calls.len() ==> #[trigger] calls[i].variant is A11y,
    ensures
        associate(calls + rest) == associate(rest),
{
    lemma_assoc_state_after_calls(calls, rest);
}

/// `g` comes from `events`: a permission grant event of `g`'s uid, permission and time is
/// among them, and so is, for every call logged with `g`, an accessibility call of `g`'s
/// uid with that code and time.
pub open spec fn grant_from_events(events: Seq<EventView>, g: PermissionGrantView) -> bool {
    &&& exists|j: int|
        0 <= j < events.len() && #[trigger] events[j].uid == g.uid && events[j].variant
            == EventTypeView::RuntimePermissionGrant(g.permission_name) && events[j].timestamp_ns == g.timestamp_ns
    &&& forall|k: int|
        0 <= k < g.preceding_a11y_calls.len() ==> exists|j: int|
            0 <= j < events.len() && #[trigger] events[j].uid == g.uid && events[j].variant == EventTypeView::A11y(
                #[trigger] g.preceding_a11y_calls[k].0,
            ) && events[j].timestamp_ns == g.preceding_a11y_calls[k].1
}

/// Whatever comes from some events comes from any events that hold them all.
proof fn lemma_grant_from_more_events(small: Seq<EventView>, big: Seq<EventView>, g: PermissionGrantView)
    requires
        grant_from_events(small, g),
        forall|i: int| 0 <= i < small.len() ==> #[trigger] big.contains(small[i]),
    ensures
        grant_from_events(big, g),
{
    let j0 = choose|j: int|
        0 <= j < small.len() && #[trigger] small[j].uid == g.uid && small[j].variant
            == EventTypeView::RuntimePermissionGrant(g.permission_name) && small[j].timestamp_ns == g.timestamp_ns;
    assert(big.contains(small[j0]));
    let b0 = choose|b: int| 0 <= b < big.len() && big[b] == small[j0];
    assert(big[b0].uid == g.uid);
    assert forall|k: int| 0 <= k < g.preceding_a11y_calls.len() implies exists|j: int|
        0 <= j < big.len() && #[trigger] big[j].uid == g.uid && big[j].variant == EventTypeView::A11y(
            #[trigger] g.preceding_a11y_calls[k].0,
        ) && big[j].timestamp_ns == g.preceding_a11y_calls[k].1 by {
        let j = choose|j: int|
            0 <= j < small.len() && #[trigger] small[j].uid == g.uid && small[j].variant == EventTypeView::A11y(
                #[trigger] g.preceding_a11y_calls[k].0,
            ) && small[j].timestamp_ns == g.preceding_a11y_calls[k].1;
        assert(big.contains(small[j]));
        let b = choose|b: int| 0 <= b < big.len() && big[b] == small[j];
        assert(big[b].uid == g.uid);
    }
}

/// Associating events of one uid gives grants that come from those events.
proof fn lemma_assoc_state_from_events(s: Seq<EventView>, u: i32)
    requires
        forall|i: int| 0 <= i < s.len() ==> #[trigger] s[i].uid == u,
    ensures
        forall|i: int| 0 <= i < assoc_state(s).0.len() ==> grant_from_events(s, #[trigger] assoc_state(s).0[i]),
        assoc_state(s).1 matches Some(g) ==> grant_from_events(s, g),
    decreases s.len(),
{
    if s.len() > 0 {
        let prev = s.drop_last();
        let e = s.last();
        assert forall|i: int| 0 <= i < prev.len() implies #[trigger] prev[i].uid == u by {
            assert(prev[i] == s[i]);
        }
        lemma_assoc_state_from_events(prev, u);
        let st = assoc_state(prev);
        assert forall|i: int| 0 <= i < prev.len() implies #[trigger] s.contains(prev[i]) by {
            assert(s[i] == prev[i]);
        }
        assert forall|i: int| 0 <= i < st.0.len() implies grant_from_events(s, #[trigger] st.0[i]) by {
            lemma_grant_from_more_events(prev, s, st.0[i]);
        }
        if let Some(g) = st.1 {
            lemma_grant_from_more_events(prev, s, g);
        }
        let last = s.len() - 1;
        assert(s[last] == e);
        match e.variant {
            EventTypeView::RuntimePermissionGrant(p) => {
                let ng = PermissionGrantView {
                    uid: e.uid,
                    timestamp_ns: e.timestamp_ns,
                    permission_name: p,
                    preceding_a11y_calls: Seq::empty(),
                };
                assert(s[last].uid == ng.uid);
                assert(grant_from_events(s, ng));
                let closed = match st.1 {
                    Some(g) => st.0.push(g),
                    None => st.0,
                };
                assert forall|i: int| 0 <= i < closed.len() implies grant_from_events(s, #[trigger] closed[i]) by {
                    if i < st.0.len() {
                        assert(closed[i] == st.0[i]);
                    }
                }
            },
            EventTypeView::A11y(code) => {
                if let Some(g) = st.1 {
                    if saturating_diff(g.timestamp_ns, e.timestamp_ns) < A11Y_EVENT_WINDOW_NS {
                        let ng = PermissionGrantView { preceding_a11y_calls: g.preceding_a11y_calls.push((code, e.timestamp_ns)), ..g };
                        let j0 = choose|j: int|
                            0 <= j < s.len() && #[trigger] s[j].uid == g.uid && s[j].variant
                                == EventTypeView::RuntimePermissionGrant(g.permission_name) && s[j].timestamp_ns == g.timestamp_ns;
                        assert(g.uid == u);
                        assert(s[j0].uid == ng.uid);
                        assert forall|k: int| 0 <= k < ng.preceding_a11y_calls.len() implies exists|j: int|
                            0 <= j < s.len() && #[trigger] s[j].uid == ng.uid && s[j].variant == EventTypeView::A11y(
                                #[trigger] ng.preceding_a11y_calls[k].0,
                            ) && s[j].timestamp_ns == ng.preceding_a11y_calls[k].1 by {
                            if k < g.preceding_a11y_calls.len() {
                                assert(ng.preceding_a11y_calls[k] == g.preceding_a11y_calls[k]);
                            } else {
                                assert(ng.preceding_a11y_calls[k] == (code, e.timestamp_ns));
                                assert(s[last].uid == ng.uid);
                            }
                        }
                        assert(grant_from_events(s, ng));
                    }
                }
            },
        }
    }
}

/// The events of a uid are events of that uid, each among all the events.
proof fn lemma_events_of_from(events: Seq<EventView>, u: i32)
    ensures
        forall|i: int| 0 <= i < events_of(events, u).len() ==> (#[trigger] events_of(events, u)[i]).uid == u
            && events.contains(events_of(events, u)[i]),
    decreases events.len(),
{
    if events.len() > 0 {
        let prev = events.drop_last();
        lemma_events_of_from(prev, u);
        let r = events_of(events, u);
        assert forall|i: int| 0 <= i < r.len() implies (#[trigger] r[i]).uid == u && events.contains(r[i]) by {
            if i < events_of(prev, u).len() {
                assert(r[i] == events_of(prev, u)[i]);
                let j = choose|j: int| 0 <= j < prev.len() && prev[j] == r[i];
                assert(events[j] == prev[j]);
            } else {
                assert(r[i] == events.last());
                assert(events[events.len() - 1] == r[i]);
            }
        }
    }
}

/// Every grant of the uids comes from the events.
proof fn lemma_grants_of_uids_from_events(events: Seq<EventView>, uids: Seq<i32>)
    ensures
        forall|i: int|
            0 <= i < grants_of_uids(events, uids).len() ==> grant_from_events(events, #[trigger] grants_of_uids(events, uids)[i]),
    decreases uids.len(),
{
    broadcast use vstd::seq_lib::group_to_multiset_ensures;

    if uids.len() > 0 {
        lemma_grants_of_uids_from_events(events, uids.drop_last());
        let u = uids.last();
        let mine = events_of(events, u);
        let sorted = sort_desc(mine);
        lemma_events_of_from(events, u);
        lemma_sort_desc(mine);
        assert forall|i: int| 0 <= i < sorted.len() implies #[trigger] sorted[i].uid == u && mine.contains(sorted[i]) by {
            assert(sorted.contains(sorted[i]));
            assert(sorted.to_multiset().count(sorted[i]) > 0);
            assert(mine.to_multiset().count(sorted[i]) > 0);
            let j = choose|j: int| 0 <= j < mine.len() && mine[j] == sorted[i];
            assert(mine[j].uid == u);
        }
        lemma_assoc_state_from_events(sorted, u);
        let st = assoc_state(sorted);
        let assoc = associate(sorted);
        assert forall|i: int| 0 <= i < sorted.len() implies #[trigger] events.contains(sorted[i]) by {
            assert(sorted[i].uid == u && mine.contains(sorted[i]));
            let j = choose|j: int| 0 <= j < mine.len() && mine[j] == sorted[i];
            assert(events.contains(mine[j]));
        }
        assert forall|i: int| 0 <= i < assoc.len() implies grant_from_events(events, #[trigger] assoc[i]) by {
            if i < st.0.len() {
                assert(assoc[i] == st.0[i]);
            }
            lemma_grant_from_more_events(sorted, events, assoc[i]);
        }
        let prev = grants_of_uids(events, uids.drop_last());
        let all = grants_of_uids(events, uids);
        assert(all == prev + assoc);
        assert forall|i: int| 0 <= i < all.len() implies grant_from_events(events, #[trigger] all[i]) by {
            if i < prev.len() {
                assert(all[i] == prev[i]);
            } else {
                assert(all[i] == assoc[i - prev.len()]);
            }
        }
    }
}

/// Every logged grant comes from a permission grant among the events, of the same uid,
/// permission and time, and every call logged with it is an accessibility call of that same
/// uid, with its code and time: calls of one uid are never logged with another uid's grant.
pub proof fn lemma_logged_grants_from_same_uid(events: Seq<EventView>)
    ensures
        forall|i: int| 0 <= i < all_grants(events).len() ==> grant_from_events(events, #[trigger] all_grants(events)[i]),
{
    lemma_grants_of_uids_from_events(events, uid_order(events));
}

/// Association gives one grant for each permission grant among the events, and no other.
pub proof fn lemma_associate_count(events: Seq<EventView>)
    ensures
        associate(events).len() == grant_count(events),
{
    lemma_assoc_state_count(events);
}

/// The number of grants logged for each uid of `uids`, added up.
pub open spec fn grants_per_uid(events: Seq<EventView>, uids: Seq<i32>) -> nat
    decreases uids.len(),
{
    if uids.len() == 0 {
        0
    } else {
        grants_per_uid(events, uids.drop_last()) + grant_count(events_of(events, uids.last()))
    }
}

/// How many times `u` occurs in `uids`.
pub open spec fn occurrences(uids: Seq<i32>, u: i32) -> nat
    decreases uids.len(),
{
    if uids.len() == 0 {
        0
    } else {
        occurrences(uids.drop_last(), u) + if uids.last() == u {
            1nat
        } else {
            0nat
        }
    }
}

/// Inserting an event adds one grant exactly when it is a grant.
proof fn lemma_insert_desc_grant_count(sorted: Seq<EventView>, e: EventView)
    ensures
        grant_count(insert_desc(sorted, e)) == grant_count(sorted) + if e.variant is RuntimePermissionGrant {
            1nat
        } else {
            0nat
        },
    decreases sorted.len(),
{
    if sorted.len() == 0 {
        assert(seq![e].drop_last() =~= Seq::<EventView>::empty());
        assert(seq![e].last() == e);
        assert(grant_count(Seq::<EventView>::empty()) == 0);
    } else if sorted.last().timestamp_ns >= e.timestamp_ns {
        assert(sorted.push(e).drop_last() =~= sorted);
        assert(sorted.push(e).last() == e);
    } else {
        lemma_insert_desc_grant_count(sorted.drop_last(), e);
        let r = insert_desc(sorted.drop_last(), e).push(sorted.last());
        assert(insert_desc(sorted, e) == r);
        assert(r.drop_last() =~= insert_desc(sorted.drop_last(), e));
        assert(r.last() == sorted.last());
    }
}

/// Sorting keeps the number of grants.
proof fn lemma_sort_desc_grant_count(events: Seq<EventView>)
    ensures
        grant_count(sort_desc(events)) == grant_count(events),
    decreases events.len(),
{
    if events.len() > 0 {
        lemma_sort_desc_grant_count(events.drop_last());
        lemma_insert_desc_grant_count(sort_desc(events.drop_last()), events.last());
    }
}

/// Each uid of `uids` logs as many grants as it has grant events.
proof fn lemma_grants_of_uids_len(events: Seq<EventView>, uids: Seq<i32>)
    ensures
        grants_of_uids(events, uids).len() == grants_per_uid(events, uids),
    decreases uids.len(),
{
    if uids.len() > 0 {
        lemma_grants_of_uids_len(events, uids.drop_last());
        let mine = events_of(events, uids.last());
        lemma_associate_count(sort_desc(mine));
        lemma_sort_desc_grant_count(mine);
    }
}

/// One more event adds its grant once for each time its uid occurs in `uids`.
proof fn lemma_grants_per_uid_push(prev: Seq<EventView>, e: EventView, uids: Seq<i32>)
    ensures
        grants_per_uid(prev.push(e), uids) == grants_per_uid(prev, uids) + if e.variant is RuntimePermissionGrant {
            occurrences(uids, e.uid)
        } else {
            0nat
        },
    decreases uids.len(),
{
    let events = prev.push(e);
    assert(events.drop_last() =~= prev);
    assert(events.last() == e);
    if uids.len() > 0 {
        lemma_grants_per_uid_push(prev, e, uids.drop_last());
        let u = uids.last();
        let old_mine = events_of(prev, u);
        if e.uid == u {
            assert(events_of(events, u) == old_mine.push(e));
            assert(old_mine.push(e).drop_last() =~= old_mine);
            assert(old_mine.push(e).last() == e);
        } else {
            assert(events_of(events, u) == old_mine);
        }
    }
}

/// A uid that occurs once in `uids` has one occurrence.
proof fn lemma_occurrences_distinct(uids: Seq<i32>, u: i32)
    requires
        uids.no_duplicates(),
    ensures
        occurrences(uids, u) == if uids.contains(u) {
            1nat
        } else {
            0nat
        },
    decreases uids.len(),
{
    if uids.len() > 0 {
        let prev = uids.drop_last();
        assert forall|a: int, b: int| 0 <= a < b < prev.len() implies prev[a] != prev[b] by {
            assert(prev[a] == uids[a] && prev[b] == uids[b]);
        }
        lemma_occurrences_distinct(prev, u);
        if uids.last() == u {
            if prev.contains(u) {
                let k = choose|k: int| 0 <= k < prev.len() && prev[k] == u;
                assert(uids[k] == uids[uids.len() - 1]);
            }
        } else {
            if uids.contains(u) {
                let k = choose|k: int| 0 <= k < uids.len() && uids[k] == u;
                assert(prev[k] == u);
            }
            if prev.contains(u) {
                let k = choose|k: int| 0 <= k < prev.len() && prev[k] == u;
                assert(uids[k] == u);
            }
        }
    }
}

/// The uids in order of first event: each once, and exactly those of the events.
proof fn lemma_uid_order(events: Seq<EventView>)
    ensures
        uid_order(events).no_duplicates(),
        forall|i: int| 0 <= i < events.len() ==> uid_order(events).contains(#[trigger] events[i].uid),
    decreases events.len(),
{
    if events.len() > 0 {
        let prev = events.drop_last();
        lemma_uid_order(prev);
        let p = uid_order(prev);
        let r = uid_order(events);
        if !p.contains(events.last().uid) {
            assert forall|a: int, b: int| 0 <= a < b < r.len() implies r[a] != r[b] by {
                if b == p.len() {
                    assert(r[a] == p[a]);
                    assert(p.contains(p[a]));
                } else {
                    assert(r[a] == p[a] && r[b] == p[b]);
                }
            }
        }
        assert forall|i: int| 0 <= i < events.len() implies r.contains(#[trigger] events[i].uid) by {
            if i < prev.len() {
                assert(prev[i] == events[i]);
                assert(p.contains(prev[i].uid));
                let k = choose|k: int| 0 <= k < p.len() && p[k] == prev[i].uid;
                if !p.contains(events.last().uid) {
                    assert(r[k] == p[k]);
                }
            } else {
                if !p.contains(events.last().uid) {
                    assert(r[p.len() as int] == events.last().uid);
                }
            }
        }
    }
}

/// Over distinct uids covering every event, the grants per uid add up to all the grants.
proof fn lemma_grants_per_uid_total(events: Seq<EventView>, uids: Seq<i32>)
    requires
        uids.no_duplicates(),
        forall|i: int| 0 <= i < events.len() ==> uids.contains(#[trigger] events[i].uid),
    ensures
        grants_per_uid(events, uids) == grant_count(events),
    decreases events.len(),
{
    if events.len() == 0 {
        lemma_grants_per_uid_empty(events, uids);
    } else {
        let prev = events.drop_last();
        let e = events.last();
        assert forall|i: int| 0 <= i < prev.len() implies uids.contains(#[trigger] prev[i].uid) by {
            assert(prev[i] == events[i]);
        }
        lemma_grants_per_uid_total(prev, uids);
        assert(prev.push(e) =~= events);
        lemma_grants_per_uid_push(prev, e, uids);
        lemma_occurrences_distinct(uids, e.uid);
        assert(uids.contains(events[events.len() - 1].uid));
    }
}

/// Without events, no uid has a grant.
proof fn lemma_grants_per_uid_empty(events: Seq<EventView>, uids: Seq<i32>)
    requires
        events.len() == 0,
    ensures
        grants_per_uid(events, uids) == 0,
    decreases uids.len(),
{
    if uids.len() > 0 {
        lemma_grants_per_uid_empty(events, uids.drop_last());
    }
}

/// Every permission grant among the events is logged: as many grants are logged as there
/// are permission grant events, whatever their uids.
pub proof fn lemma_every_grant_logged(events: Seq<EventView>)
    ensures
        all_grants(events).len() == grant_count(events),
{
    lemma_uid_order(events);
    lemma_grants_of_uids_len(events, uid_order(events));
    lemma_grants_per_uid_total(events, uid_order(events));
}

/// A grant is logged as atom 1217 with, in order: the grant's uid (marked as a uid), the
/// permission, the grant time in whole milliseconds, and the codes and the whole-millisecond
/// times of the calls logged with it, call by call.
pub proof fn lemma_grant_atom_reports_grant(g: PermissionGrantView)
    ensures
        ({
            let a = grant_atom(g);
            let calls = g.preceding_a11y_calls;
            &&& a.atom_id == 1217
            &&& a.fields.len() == 5
            &&& a.fields[0].value == ValueView::Int32(g.uid)
            &&& a.fields[0].annotations == seq![FieldAnnotation::IsUid(true)]
            &&& a.fields[1].value == ValueView::String(g.permission_name)
            &&& a.fields[2].value matches ValueView::Int64(t) && t == g.timestamp_ns / 1_000_000
            &&& a.fields[3].value matches ValueView::Int32Vec(codes) && codes.len() == calls.len() && forall|k: int|
                0 <= k < calls.len() ==> #[trigger] codes[k] == calls[k].0
            &&& a.fields[4].value matches ValueView::Int64Vec(times) && times.len() == calls.len() && forall|k: int|
                0 <= k < calls.len() ==> #[trigger] times[k] == calls[k].1 / 1_000_000
        }),
{
}

/// The bridge is told of an event with its uid and its time in whole milliseconds: a call
/// with its code and the accessibility service connection interface, a grant with its
/// permission.
pub proof fn lemma_bridge_event_reports_event(e: EventView)
    ensures
        ({
            let ev = spec_bridge_event(e);
            &&& ev.uid == e.uid
            &&& ev.timestamp_ms == e.timestamp_ns / 1_000_000
            &&& match e.variant {
                EventTypeView::A11y(code) => ev.payload_id == PayloadId::A11y && ev.payload.len() == 2
                    && ev.payload[0] == ("CODE"@, EntryValueView::IntValue(code)) && ev.payload[1] == (
                    "INTERFACE_NAME"@,
                    EntryValueView::StringValue("IAccessibilityServiceConnection"@),
                ),
                EventTypeView::RuntimePermissionGrant(p) => ev.payload_id == PayloadId::RuntimePermissionGrant
                    && ev.payload == seq![("PERMISSION_NAME"@, EntryValueView::StringValue(p))],
            }
        }),
{
}

/// The event kept for an item is the item's: at its time; a call keeps the item's uid and
/// code; a grant keeps the granted permission, which is a system permission, under the uid
/// the bridge gave for a package with an enabled accessibility service. Any other variant
/// is refused.
pub proof fn lemma_item_event_from_item(
    data: AccessibilityEvent,
    has_a11y: Result<bool, BridgeError>,
    uid: Result<i32, BridgeError>,
)
    ensures
        spec_item_event(data, has_a11y, uid) matches Ok(Some(e)) ==> {
            &&& e.timestamp_ns == data.timestamp_ns
            &&& data.variant == 2 ==> e.uid == data.uid && e.variant == EventTypeView::A11y(data.code)
            &&& data.variant == 1 ==> {
                &&& has_a11y == Ok::<bool, BridgeError>(true)
                &&& uid == Ok::<i32, BridgeError>(e.uid)
                &&& e.variant matches EventTypeView::RuntimePermissionGrant(p) && spec_bytes_as_nonempty_str(
                    data.permission_name@,
                ) == Ok::<Seq<char>, StringError>(p) && "android.permission"@.is_prefix_of(p)
            }
        },
        data.variant != 1 && data.variant != 2 ==> spec_item_event(data, has_a11y, uid) == Err::<
            Option<EventView>,
            HandlerError,
        >(HandlerError::InvalidVariant(data.variant)),
{
}

} // verus!
