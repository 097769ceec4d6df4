//! Resolves probing configurations into a task of concrete probes to be attached.
use crate::config;
use crate::config::AtomFieldPosition;
use crate::string::{
    append_decimal, append_signed_decimal, contains_infix, contains_str, debug_string_list, debug_strings,
    decimal, signed_decimal, str_eq,
};
use vstd::prelude::*;

pub mod offsets;
pub mod process;

pub use offsets::{ExecutableMethodFileOffsets, MethodDescriptor, MethodDescriptorView, OffsetResolver};
pub use process::{ProcessResolver, ResolvedProcess};

verus! {

/// Directory under which the BPF programs and maps of this daemon are pinned.
pub const BPF_DIR: &'static str = "/sys/fs/bpf/uprobestats/";

/// The BPF program that instruments binder transactions.
pub const BINDER_BPF_PROGRAM_NAME: &'static str = "prog_Binder_uprobe_exec_transact_internal";

/// Returns the full path to a bpf file in the `uprobestats` directory.
pub fn prefix_bpf(path: &str) -> (r: String)
    ensures
        r@ == BPF_DIR@ + path@,
{
    let mut s = String::from_str(BPF_DIR);
    s.append(path);
    s
}

/// Why a configuration was rejected.
#[derive(Debug, Clone, PartialEq)]
pub enum ResolveError {
    /// The configuration bytes could not be parsed.
    Parse(String),
    /// The configuration does not hold exactly one task; the number it holds.
    WrongTaskCount(usize),
    /// The guardrail could not judge the configuration.
    Guardrail(String),
    /// The guardrail disallows the configuration on this device.
    Disallowed,
    /// The named BPF program or map is disabled by a feature flag.
    DisabledByFlag(String),
    /// The task has no duration.
    MissingDuration,
    /// The task's duration is not positive.
    NonPositiveDuration,
    /// The target process could not be resolved.
    ProcessResolution(String),
    /// A probe has no BPF program name.
    MissingBpfName,
    /// A probe has no class name.
    MissingClassName,
    /// A probe has no method name.
    MissingMethodName,
    /// The offsets of a probed method could not be resolved.
    OffsetResolution(String),
    /// The probed method was not found.
    OffsetsNotFound(MethodDescriptor),
    /// The binder program was configured without any binder transaction filter.
    BinderFiltersRequired,
    /// A program other than the binder one has binder transaction filters; its name.
    BinderFiltersNotSupported(String),
    /// A binder transaction filter has no interface name.
    MissingInterfaceName,
    /// A binder transaction filter has an empty interface name.
    EmptyInterfaceName,
    /// A binder transaction filter has no method configuration.
    EmptyMethodConfigs,
    /// A method configuration has no positive method id.
    InvalidMethodId,
    /// A method configuration says neither how to forward nor how to log.
    MissingMethodTarget,
    /// An atom configuration has no atom id.
    MissingAtomId,
    /// An atom configuration has a non-positive atom id.
    NonPositiveAtomId,
    /// Two method configurations of one interface share this method id.
    DuplicateMethodId(u64),
    /// Two binder transaction filters share this interface name.
    DuplicateInterfaceName(String),
}

/// The abstract content of a `ResolveError`.
#[allow(missing_docs)]
pub enum ResolveErrorView {
    Parse(Seq<char>),
    WrongTaskCount(usize),
    Guardrail(Seq<char>),
    Disallowed,
    DisabledByFlag(Seq<char>),
    MissingDuration,
    NonPositiveDuration,
    ProcessResolution(Seq<char>),
    MissingBpfName,
    MissingClassName,
    MissingMethodName,
    OffsetResolution(Seq<char>),
    OffsetsNotFound(MethodDescriptorView),
    BinderFiltersRequired,
    BinderFiltersNotSupported(Seq<char>),
    MissingInterfaceName,
    EmptyInterfaceName,
    EmptyMethodConfigs,
    InvalidMethodId,
    MissingMethodTarget,
    MissingAtomId,
    NonPositiveAtomId,
    DuplicateMethodId(u64),
    DuplicateInterfaceName(Seq<char>),
}

impl View for ResolveError {
    type V = ResolveErrorView;

    open spec fn view(&self) -> ResolveErrorView {
        match self {
            ResolveError::Parse(s) => ResolveErrorView::Parse(s@),
            ResolveError::WrongTaskCount(n) => ResolveErrorView::WrongTaskCount(*n),
            ResolveError::Guardrail(s) => ResolveErrorView::Guardrail(s@),
            ResolveError::Disallowed => ResolveErrorView::Disallowed,
            ResolveError::DisabledByFlag(s) => ResolveErrorView::DisabledByFlag(s@),
            ResolveError::MissingDuration => ResolveErrorView::MissingDuration,
            ResolveError::NonPositiveDuration => ResolveErrorView::NonPositiveDuration,
            ResolveError::ProcessResolution(s) => ResolveErrorView::ProcessResolution(s@),
            ResolveError::MissingBpfName => ResolveErrorView::MissingBpfName,
            ResolveError::MissingClassName => ResolveErrorView::MissingClassName,
            ResolveError::MissingMethodName => ResolveErrorView::MissingMethodName,
            ResolveError::OffsetResolution(s) => ResolveErrorView::OffsetResolution(s@),
            ResolveError::OffsetsNotFound(m) => ResolveErrorView::OffsetsNotFound(m@),
            ResolveError::BinderFiltersRequired => ResolveErrorView::BinderFiltersRequired,
            ResolveError::BinderFiltersNotSupported(s) => ResolveErrorView::BinderFiltersNotSupported(s@),
            ResolveError::MissingInterfaceName => ResolveErrorView::MissingInterfaceName,
            ResolveError::EmptyInterfaceName => ResolveErrorView::EmptyInterfaceName,
            ResolveError::EmptyMethodConfigs => ResolveErrorView::EmptyMethodConfigs,
            ResolveError::InvalidMethodId => ResolveErrorView::InvalidMethodId,
            ResolveError::MissingMethodTarget => ResolveErrorView::MissingMethodTarget,
            ResolveError::MissingAtomId => ResolveErrorView::MissingAtomId,
            ResolveError::NonPositiveAtomId => ResolveErrorView::NonPositiveAtomId,
            ResolveError::DuplicateMethodId(id) => ResolveErrorView::DuplicateMethodId(*id),
            ResolveError::DuplicateInterfaceName(s) => ResolveErrorView::DuplicateInterfaceName(s@),
        }
    }
}

/// Configuration for sending events to the dynamic instrumentation event service.
#[derive(Clone, Copy, Debug, PartialEq, Eq)]
pub struct EventServiceConfig {
    /// The mode of the event service config.
    pub mode: EventMode,
}

/// Controls how events are sent to the dynamic instrumentation event service.
#[derive(Clone, Copy, Debug, PartialEq, Eq)]
pub enum EventMode {
    /// Flush the event immediately, including any previously buffered events.
    Flush,
    /// Add the event to the event buffer to be sent with the next flush.
    Buffer,
}

/// The event service configuration that a wire configuration stands for.
pub open spec fn spec_event_service_config(c: config::EventServiceConfig) -> EventServiceConfig {
    EventServiceConfig {
        mode: if c.flush == Some(true) { EventMode::Flush } else { EventMode::Buffer },
    }
}

impl EventServiceConfig {
    /// Converts the wire configuration: flushing only when `flush` is set to true.
    pub fn from(event_service_config: config::EventServiceConfig) -> (r: Self)
        ensures
            r == spec_event_service_config(event_service_config),
    {
        EventServiceConfig {
            mode: match event_service_config.flush {
                Some(true) => EventMode::Flush,
                _ => EventMode::Buffer,
            },
        }
    }
}

/// Events are flushed exactly when the wire configuration asks for it; an absent or false
/// flag buffers them.
pub proof fn lemma_event_mode_flushes_when_asked(c: config::EventServiceConfig)
    ensures
        (spec_event_service_config(c).mode == EventMode::Flush) <==> (c.flush == Some(true)),
        (spec_event_service_config(c).mode == EventMode::Buffer) <==> (c.flush != Some(true)),
{
}

/// An atom configuration keeps the wire configuration's atom id and positions, and is
/// accepted exactly when the atom id is given and positive.
pub proof fn lemma_atom_config_keeps_wire(c: config::AtomConfig)
    ensures
        spec_atom_config(c) is Ok <==> (c.atom_id matches Some(id) && id > 0),
        spec_atom_config(c) matches Ok(v) ==> (c.atom_id matches Some(id) && v.atom_id == id
            && v.atom_field_positions == c.atom_field_positions@),
        c.atom_id is None ==> spec_atom_config(c) == Err::<AtomConfigView, ResolveErrorView>(
            ResolveErrorView::MissingAtomId,
        ),
{
}

/// Configuration for logging a binder interface method invocation to statsd.
#[derive(Clone, Debug, PartialEq)]
pub struct AtomConfig {
    /// Which atom to log.
    pub atom_id: u32,
    /// Where to put any extra data for the atom. If empty, an empty atom with the given ID is
    /// logged (which is still useful for e.g. counting invocations).
    pub atom_field_positions: Vec<AtomFieldPosition>,
}

/// The abstract content of an `AtomConfig`.
pub struct AtomConfigView {
    /// Which atom to log.
    pub atom_id: u32,
    /// Where each piece of data goes.
    pub atom_field_positions: Seq<AtomFieldPosition>,
}

impl View for AtomConfig {
    type V = AtomConfigView;

    open spec fn view(&self) -> AtomConfigView {
        AtomConfigView { atom_id: self.atom_id, atom_field_positions: self.atom_field_positions@ }
    }
}

/// The atom configuration that a wire configuration stands for, or why it is invalid.
pub open spec fn spec_atom_config(c: config::AtomConfig) -> Result<AtomConfigView, ResolveErrorView> {
    match c.atom_id {
        None => Err(ResolveErrorView::MissingAtomId),
        Some(id) => if id <= 0 {
            Err(ResolveErrorView::NonPositiveAtomId)
        } else {
            Ok(AtomConfigView { atom_id: id as u32, atom_field_positions: c.atom_field_positions@ })
        },
    }
}

impl AtomConfig {
    /// Converts the wire configuration, which must name a positive atom id.
    pub fn try_from(atom_config: config::AtomConfig) -> (r: Result<Self, ResolveError>)
        ensures
            match r {
                Ok(c) => spec_atom_config(atom_config) == Ok::<AtomConfigView, ResolveErrorView>(c@),
                Err(e) => spec_atom_config(atom_config) == Err::<AtomConfigView, ResolveErrorView>(e@),
            },
    {
        let atom_id = match atom_config.atom_id {
            Some(id) => id,
            None => {
                return Err(ResolveError::MissingAtomId);
            },
        };
        if atom_id <= 0 {
            return Err(ResolveError::NonPositiveAtomId);
        }
        Ok(AtomConfig { atom_id: atom_id as u32, atom_field_positions: atom_config.atom_field_positions })
    }

    /// A copy of this configuration.
    pub fn duplicate(&self) -> (r: Self)
        ensures
            r@ == self@,
    {
        let mut positions = Vec::new();
        let mut i: usize = 0;
        while i < self.atom_field_positions.len()
            invariant
                i <= self.atom_field_positions@.len(),
                positions@ == self.atom_field_positions@.take(i as int),
            decreases self.atom_field_positions@.len() - i,
        {
            positions.push(self.atom_field_positions[i]);
            i = i + 1;
            assert(positions@ =~= self.atom_field_positions@.take(i as int));
        }
        assert(positions@ =~= self.atom_field_positions@);
        AtomConfig { atom_id: self.atom_id, atom_field_positions: positions }
    }
}

/// Configuration for a specific binder method.
#[derive(Clone, Debug, PartialEq)]
pub struct MethodConfig {
    /// For sending events to the event service. Required if `atom_config` is `None`.
    pub event_service_config: Option<EventServiceConfig>,
    /// For sending atoms to statsd. Required if `event_service_config` is `None`.
    pub atom_config: Option<AtomConfig>,
}

/// The abstract content of a `MethodConfig`.
pub struct MethodConfigView {
    /// Forwarding to the event service, if any.
    pub event_service_config: Option<EventServiceConfig>,
    /// Logging to statsd, if any.
    pub atom_config: Option<AtomConfigView>,
}

impl View for MethodConfig {
    type V = MethodConfigView;

    open spec fn view(&self) -> MethodConfigView {
        MethodConfigView {
            event_service_config: self.event_service_config,
            atom_config: match self.atom_config {
                Some(a) => Some(a@),
                None => None,
            },
        }
    }
}

impl MethodConfig {
    /// A copy of this configuration.
    pub fn duplicate(&self) -> (r: Self)
        ensures
            r@ == self@,
    {
        MethodConfig {
            event_service_config: self.event_service_config,
            atom_config: match &self.atom_config {
                Some(a) => Some(a.duplicate()),
                None => None,
            },
        }
    }
}

/// The configuration of the first entry of `entries` whose method id is `method_id`.
pub open spec fn lookup_method(entries: Seq<(u64, MethodConfigView)>, method_id: u64) -> Option<MethodConfigView>
    decreases entries.len(),
{
    if entries.len() == 0 {
        None
    } else if entries[0].0 == method_id {
        Some(entries[0].1)
    } else {
        lookup_method(entries.drop_first(), method_id)
    }
}

/// Looking up the method at the first entry with its id finds that entry.
proof fn lemma_lookup_method_found(entries: Seq<(u64, MethodConfigView)>, i: int)
    requires
        0 <= i < entries.len(),
        forall|j: int| 0 <= j < i ==> entries[j].0 != entries[i].0,
    ensures
        lookup_method(entries, entries[i].0) == Some(entries[i].1),
    decreases i,
{
    if i > 0 {
        let rest = entries.drop_first();
        assert forall|j: int| 0 <= j < i - 1 implies #[trigger] rest[j].0 != rest[i - 1].0 by {
            assert(rest[j] == entries[j + 1]);
        }
        lemma_lookup_method_found(rest, i - 1);
    }
}

/// A method none of whose entries carries its id is not found.
proof fn lemma_lookup_method_absent(entries: Seq<(u64, MethodConfigView)>, method_id: u64)
    requires
        forall|j: int| 0 <= j < entries.len() ==> entries[j].0 != method_id,
    ensures
        lookup_method(entries, method_id) is None,
    decreases entries.len(),
{
    if entries.len() > 0 {
        let rest = entries.drop_first();
        assert forall|j: int| 0 <= j < rest.len() implies rest[j].0 != method_id by {
            assert(rest[j] == entries[j + 1]);
        }
        lemma_lookup_method_absent(rest, method_id);
    }
}

/// Replacing the configuration at the first entry of a method changes what is found for
/// that method only.
proof fn lemma_lookup_method_update(entries: Seq<(u64, MethodConfigView)>, i: int, mc: MethodConfigView)
    requires
        0 <= i < entries.len(),
        forall|j: int| 0 <= j < i ==> entries[j].0 != entries[i].0,
    ensures
        forall|k: u64|
            #[trigger] lookup_method(entries.update(i, (entries[i].0, mc)), k) == if k == entries[i].0 {
                Some(mc)
            } else {
                lookup_method(entries, k)
            },
    decreases i,
{
    let id = entries[i].0;
    let updated = entries.update(i, (id, mc));
    if i > 0 {
        let rest = entries.drop_first();
        assert forall|j: int| 0 <= j < i - 1 implies #[trigger] rest[j].0 != rest[i - 1].0 by {
            assert(rest[j] == entries[j + 1]);
        }
        lemma_lookup_method_update(rest, i - 1, mc);
        assert(updated.drop_first() =~= rest.update(i - 1, (id, mc)));
        assert forall|k: u64| #[trigger] lookup_method(updated, k) == if k == id {
            Some(mc)
        } else {
            lookup_method(entries, k)
        } by {
            assert(updated[0] == entries[0]);
            assert(entries[0].0 != id);
            if entries[0].0 != k {
                assert(lookup_method(updated, k) == lookup_method(updated.drop_first(), k));
                assert(lookup_method(entries, k) == lookup_method(rest, k));
                assert(lookup_method(rest.update(i - 1, (rest[i - 1].0, mc)), k) == if k == id {
                    Some(mc)
                } else {
                    lookup_method(rest, k)
                });
            }
        }
    } else {
        assert(updated.drop_first() =~= entries.drop_first());
        assert forall|k: u64| #[trigger] lookup_method(updated, k) == if k == id {
            Some(mc)
        } else {
            lookup_method(entries, k)
        } by {}
    }
}

/// Adding an entry for a method that is not found makes it found with that configuration,
/// and changes nothing else.
proof fn lemma_lookup_method_push(entries: Seq<(u64, MethodConfigView)>, method_id: u64, mc: MethodConfigView)
    requires
        lookup_method(entries, method_id) is None,
    ensures
        forall|k: u64|
            #[trigger] lookup_method(entries.push((method_id, mc)), k) == if k == method_id {
                Some(mc)
            } else {
                lookup_method(entries, k)
            },
    decreases entries.len(),
{
    let pushed = entries.push((method_id, mc));
    if entries.len() == 0 {
        assert forall|k: u64| #[trigger] lookup_method(pushed, k) == if k == method_id {
            Some(mc)
        } else {
            lookup_method(entries, k)
        } by {
            assert(pushed.drop_first() =~= Seq::<(u64, MethodConfigView)>::empty());
            assert(pushed[0] == (method_id, mc));
            assert(lookup_method(pushed.drop_first(), k) is None);
        }
    } else {
        let rest = entries.drop_first();
        assert(entries[0].0 != method_id);
        lemma_lookup_method_push(rest, method_id, mc);
        assert(pushed.drop_first() =~= rest.push((method_id, mc)));
        assert forall|k: u64| #[trigger] lookup_method(pushed, k) == if k == method_id {
            Some(mc)
        } else {
            lookup_method(entries, k)
        } by {
            assert(pushed[0] == entries[0]);
            if entries[0].0 != k {
                assert(lookup_method(pushed, k) == lookup_method(pushed.drop_first(), k));
                assert(lookup_method(entries, k) == lookup_method(rest, k));
                assert(lookup_method(rest.push((method_id, mc)), k) == if k == method_id {
                    Some(mc)
                } else {
                    lookup_method(rest, k)
                });
            }
        }
    }
}

/// Configuration for a specific binder interface: its methods, keyed by method id.
#[derive(Clone, Debug)]
pub struct InterfaceConfig {
    methods: Vec<(u64, MethodConfig)>,
}

impl View for InterfaceConfig {
    type V = Seq<(u64, MethodConfigView)>;

    /// The method entries in the order they were inserted.
    closed spec fn view(&self) -> Seq<(u64, MethodConfigView)> {
        self.methods@.map_values(|e: (u64, MethodConfig)| (e.0, e.1@))
    }
}

impl Default for InterfaceConfig {
    fn default() -> (r: Self)
        ensures
            r@ == Seq::<(u64, MethodConfigView)>::empty(),
    {
        InterfaceConfig::new()
    }
}

impl InterfaceConfig {
    /// A configuration without methods.
    pub fn new() -> (r: Self)
        ensures
            r@ == Seq::<(u64, MethodConfigView)>::empty(),
    {
        let r = InterfaceConfig { methods: Vec::new() };
        assert(r@ =~= Seq::<(u64, MethodConfigView)>::empty());
        r
    }

    /// Inserts a method configuration for the given method ID.
    /// Returns an error if the method ID is already present; the configuration then
    /// replaces the one the method had.
    pub fn insert_method(&mut self, method_id: u64, method_config: MethodConfig) -> (r: Result<(), ResolveError>)
        ensures
            r is Ok <==> lookup_method(old(self)@, method_id) is None,
            r is Ok ==> final(self)@ == old(self)@.push((method_id, method_config@)),
            r matches Err(e) ==> e == ResolveError::DuplicateMethodId(method_id),
            r is Err ==> final(self)@.len() == old(self)@.len(),
            forall|k: u64|
                #[trigger] lookup_method(final(self)@, k) == if k == method_id {
                    Some(method_config@)
                } else {
                    lookup_method(old(self)@, k)
                },
    {
        let ghost before = self.methods@;
        let ghost entries = self@;
        let mut i: usize = 0;
        assert(entries.skip(0) =~= entries);
        while i < self.methods.len()
            invariant
                i <= entries.len(),
                entries == self@,
                entries == old(self)@,
                self.methods@ == before,
                entries.len() == before.len(),
                forall|j: int| 0 <= j < i ==> entries[j].0 != method_id,
            decreases self.methods@.len() - i,
        {
            assert(entries[i as int] == (self.methods@[i as int].0, self.methods@[i as int].1@));
            if self.methods[i].0 == method_id {
                let ghost mc = method_config@;
                proof {
                    lemma_lookup_method_update(entries, i as int, mc);
                    lemma_lookup_method_found(entries, i as int);
                }
                self.methods.set(i, (method_id, method_config));
                assert(self@ =~= entries.update(i as int, (method_id, mc)));
                return Err(ResolveError::DuplicateMethodId(method_id));
            }
            i = i + 1;
        }
        proof {
            lemma_lookup_method_absent(entries, method_id);
            lemma_lookup_method_push(entries, method_id, method_config@);
        }
        self.methods.push((method_id, method_config));
        assert(self.methods@.map_values(|e: (u64, MethodConfig)| (e.0, e.1@)) =~= before.map_values(
            |e: (u64, MethodConfig)| (e.0, e.1@),
        ).push((method_id, method_config@)));
        Ok(())
    }

    /// Returns the method configuration for the given method ID, if it exists.
    pub fn get_method(&self, method_id: &u64) -> (r: Option<&MethodConfig>)
        ensures
            match r {
                Some(m) => lookup_method(self@, *method_id) == Some(m@),
                None => lookup_method(self@, *method_id) is None,
            },
    {
        let mut i: usize = 0;
        assert(self@.skip(0) =~= self@);
        while i < self.methods.len()
            invariant
                i <= self@.len(),
                self@.len() == self.methods@.len(),
                lookup_method(self@, *method_id) == lookup_method(self@.skip(i as int), *method_id),
            decreases self.methods@.len() - i,
        {
            assert(self@.skip(i as int).drop_first() =~= self@.skip(i + 1));
            assert(self@[i as int] == (self.methods@[i as int].0, self.methods@[i as int].1@));
            if self.methods[i].0 == *method_id {
                return Some(&self.methods[i].1);
            }
            i = i + 1;
        }
        assert(self@.skip(i as int).len() == 0);
        None
    }

    /// Returns the method IDs for the interface, in insertion order.
    pub fn method_ids(&self) -> (r: Vec<u64>)
        ensures
            r@ == self@.map_values(|e: (u64, MethodConfigView)| e.0),
    {
        let mut r = Vec::new();
        let mut i: usize = 0;
        while i < self.methods.len()
            invariant
                i <= self@.len(),
                self@.len() == self.methods@.len(),
                r@ == self@.take(i as int).map_values(|e: (u64, MethodConfigView)| e.0),
            decreases self.methods@.len() - i,
        {
            r.push(self.methods[i].0);
            i = i + 1;
            assert(r@ =~= self@.take(i as int).map_values(|e: (u64, MethodConfigView)| e.0));
        }
        assert(self@.take(i as int) =~= self@);
        r
    }

    /// The number of configured methods.
    pub fn len(&self) -> (r: usize)
        ensures
            r == self@.len(),
    {
        self.methods.len()
    }
}

} // verus!

verus! {

/// The binder interfaces that a probe reports, keyed by interface descriptor.
#[derive(Clone, Debug)]
pub struct InterfaceFilters {
    interfaces: Vec<(String, InterfaceConfig)>,
}

/// The method entries of the first entry of `entries` named `name`.
pub open spec fn lookup_interface(
    entries: Seq<(Seq<char>, Seq<(u64, MethodConfigView)>)>,
    name: Seq<char>,
) -> Option<Seq<(u64, MethodConfigView)>>
    decreases entries.len(),
{
    if entries.len() == 0 {
        None
    } else if entries[0].0 == name {
        Some(entries[0].1)
    } else {
        lookup_interface(entries.drop_first(), name)
    }
}

impl View for InterfaceFilters {
    type V = Seq<(Seq<char>, Seq<(u64, MethodConfigView)>)>;

    /// The interfaces in the order they were inserted, each with its method entries.
    closed spec fn view(&self) -> Seq<(Seq<char>, Seq<(u64, MethodConfigView)>)> {
        self.interfaces@.map_values(|e: (String, InterfaceConfig)| (e.0@, e.1@))
    }
}

impl InterfaceFilters {
    /// No interfaces.
    pub fn new() -> (r: Self)
        ensures
            r@ == Seq::<(Seq<char>, Seq<(u64, MethodConfigView)>)>::empty(),
    {
        let r = InterfaceFilters { interfaces: Vec::new() };
        assert(r@ =~= Seq::<(Seq<char>, Seq<(u64, MethodConfigView)>)>::empty());
        r
    }

    /// Adds the configuration of an interface; an error if the interface is already present.
    pub fn insert(&mut self, name: String, interface_config: InterfaceConfig) -> (r: Result<(), ResolveError>)
        ensures
            r is Ok <==> lookup_interface(old(self)@, name@) is None,
            r is Ok ==> final(self)@ == old(self)@.push((name@, interface_config@)),
            r matches Err(e) ==> e@ == ResolveErrorView::DuplicateInterfaceName(name@) && final(self)@ == old(self)@,
    {
        if self.get(name.as_str()).is_some() {
            return Err(ResolveError::DuplicateInterfaceName(name));
        }
        let ghost before = self.interfaces@;
        self.interfaces.push((name, interface_config));
        assert(self.interfaces@.map_values(|e: (String, InterfaceConfig)| (e.0@, e.1@)) =~= before.map_values(
            |e: (String, InterfaceConfig)| (e.0@, e.1@),
        ).push((name@, interface_config@)));
        Ok(())
    }

    /// The configuration of the named interface, if present.
    pub fn get(&self, name: &str) -> (r: Option<&InterfaceConfig>)
        ensures
            match r {
                Some(c) => lookup_interface(self@, name@) == Some(c@),
                None => lookup_interface(self@, name@) is None,
            },
    {
        let mut i: usize = 0;
        assert(self@.skip(0) =~= self@);
        while i < self.interfaces.len()
            invariant
                i <= self@.len(),
                self@.len() == self.interfaces@.len(),
                lookup_interface(self@, name@) == lookup_interface(self@.skip(i as int), name@),
            decreases self.interfaces@.len() - i,
        {
            assert(self@.skip(i as int).drop_first() =~= self@.skip(i + 1));
            assert(self@[i as int] == (self.interfaces@[i as int].0@, self.interfaces@[i as int].1@));
            if str_eq(self.interfaces[i].0.as_str(), name) {
                return Some(&self.interfaces[i].1);
            }
            i = i + 1;
        }
        assert(self@.skip(i as int).len() == 0);
        None
    }

    /// The number of interfaces.
    pub fn len(&self) -> (r: usize)
        ensures
            r == self@.len(),
    {
        self.interfaces.len()
    }

    /// The `i`-th interface, in insertion order, with its configuration.
    pub fn entry(&self, i: usize) -> (r: (&String, &InterfaceConfig))
        requires
            i < self@.len(),
        ensures
            (r.0@, r.1@) == self@[i as int],
    {
        let e = &self.interfaces[i];
        (&e.0, &e.1)
    }
}

/// The method entry that a wire method configuration stands for, or why it is invalid.
pub open spec fn spec_method_entry(mc: config::MethodConfig) -> Result<(u64, MethodConfigView), ResolveErrorView> {
    if !(mc.method_id matches Some(id) && id > 0) {
        Err(ResolveErrorView::InvalidMethodId)
    } else if mc.event_service_config is None && mc.atom_config is None {
        Err(ResolveErrorView::MissingMethodTarget)
    } else {
        let id = mc.method_id->0;
        let event = match mc.event_service_config {
            Some(e) => Some(spec_event_service_config(e)),
            None => None,
        };
        match mc.atom_config {
            None => Ok((id as u64, MethodConfigView { event_service_config: event, atom_config: None })),
            Some(a) => match spec_atom_config(a) {
                Err(e) => Err(e),
                Ok(av) => Ok((id as u64, MethodConfigView { event_service_config: event, atom_config: Some(av) })),
            },
        }
    }
}

/// The method entries of an interface, from its wire method configurations taken in order;
/// the first invalid or duplicated one is the error.
pub open spec fn spec_method_entries(mcs: Seq<config::MethodConfig>) -> Result<Seq<(u64, MethodConfigView)>, ResolveErrorView>
    decreases mcs.len(),
{
    if mcs.len() == 0 {
        Ok(Seq::empty())
    } else {
        match spec_method_entries(mcs.drop_last()) {
            Err(e) => Err(e),
            Ok(acc) => match spec_method_entry(mcs.last()) {
                Err(e) => Err(e),
                Ok(entry) => if lookup_method(acc, entry.0) is Some {
                    Err(ResolveErrorView::DuplicateMethodId(entry.0))
                } else {
                    Ok(acc.push(entry))
                },
            },
        }
    }
}

/// The interface entry that a wire binder transaction filter stands for, or why it is invalid.
pub open spec fn spec_interface_entry(f: config::BinderTransactionFilter) -> Result<(Seq<char>, Seq<(u64, MethodConfigView)>), ResolveErrorView> {
    match f.interface_name {
        None => Err(ResolveErrorView::MissingInterfaceName),
        Some(name) => if name@.len() == 0 {
            Err(ResolveErrorView::EmptyInterfaceName)
        } else if f.method_configs@.len() == 0 {
            Err(ResolveErrorView::EmptyMethodConfigs)
        } else {
            match spec_method_entries(f.method_configs@) {
                Err(e) => Err(e),
                Ok(methods) => Ok((name@, methods)),
            }
        },
    }
}

/// The interface entries of a probe, from its wire filters taken in order; the first invalid
/// or duplicated one is the error.
pub open spec fn spec_interface_entries(fs: Seq<config::BinderTransactionFilter>) -> Result<Seq<(Seq<char>, Seq<(u64, MethodConfigView)>)>, ResolveErrorView>
    decreases fs.len(),
{
    if fs.len() == 0 {
        Ok(Seq::empty())
    } else {
        match spec_interface_entries(fs.drop_last()) {
            Err(e) => Err(e),
            Ok(acc) => match spec_interface_entry(fs.last()) {
                Err(e) => Err(e),
                Ok(entry) => if lookup_interface(acc, entry.0) is Some {
                    Err(ResolveErrorView::DuplicateInterfaceName(entry.0))
                } else {
                    Ok(acc.push(entry))
                },
            },
        }
    }
}

/// The binder transaction filters of a probe whose program is `bpf_name`: required (and
/// resolved) for the binder program, forbidden for every other program.
pub open spec fn spec_binder_filters(probe: config::ProbeConfig, bpf_name: Seq<char>) -> Result<Seq<(Seq<char>, Seq<(u64, MethodConfigView)>)>, ResolveErrorView> {
    if bpf_name == BINDER_BPF_PROGRAM_NAME@ {
        if probe.binder_transaction_filters@.len() == 0 {
            Err(ResolveErrorView::BinderFiltersRequired)
        } else {
            spec_interface_entries(probe.binder_transaction_filters@)
        }
    } else if probe.binder_transaction_filters@.len() != 0 {
        Err(ResolveErrorView::BinderFiltersNotSupported(bpf_name))
    } else {
        Ok(Seq::empty())
    }
}

proof fn lemma_method_entries_error_persists(s: Seq<config::MethodConfig>, k: int)
    requires
        0 <= k <= s.len(),
        spec_method_entries(s.take(k)) is Err,
    ensures
        spec_method_entries(s) == spec_method_entries(s.take(k)),
    decreases s.len() - k,
{
    if k < s.len() {
        let t = s.drop_last();
        assert(t.take(k) =~= s.take(k));
        lemma_method_entries_error_persists(t, k);
    } else {
        assert(s.take(k) =~= s);
    }
}

proof fn lemma_interface_entries_error_persists(s: Seq<config::BinderTransactionFilter>, k: int)
    requires
        0 <= k <= s.len(),
        spec_interface_entries(s.take(k)) is Err,
    ensures
        spec_interface_entries(s) == spec_interface_entries(s.take(k)),
    decreases s.len() - k,
{
    if k < s.len() {
        let t = s.drop_last();
        assert(t.take(k) =~= s.take(k));
        lemma_interface_entries_error_persists(t, k);
    } else {
        assert(s.take(k) =~= s);
    }
}

/// Resolves one wire method configuration into its method id and configuration.
pub fn resolve_method_config(mc: &config::MethodConfig) -> (r: Result<(u64, MethodConfig), ResolveError>)
    ensures
        match r {
            Ok(e) => spec_method_entry(*mc) == Ok::<(u64, MethodConfigView), ResolveErrorView>((e.0, e.1@)),
            Err(e) => spec_method_entry(*mc) == Err::<(u64, MethodConfigView), ResolveErrorView>(e@),
        },
{
    let method_id: u64 = match mc.method_id {
        Some(id) => if id > 0 {
            id as u64
        } else {
            return Err(ResolveError::InvalidMethodId);
        },
        None => {
            return Err(ResolveError::InvalidMethodId);
        },
    };
    if mc.event_service_config.is_none() && mc.atom_config.is_none() {
        return Err(ResolveError::MissingMethodTarget);
    }
    let event_service_config = match mc.event_service_config {
        Some(c) => Some(EventServiceConfig::from(c)),
        None => None,
    };
    let atom_config = match &mc.atom_config {
        Some(c) => Some(AtomConfig::try_from(c.duplicate())?),
        None => None,
    };
    Ok((method_id, MethodConfig { event_service_config, atom_config }))
}

/// Resolves one wire binder transaction filter into its interface name and configuration.
pub fn resolve_interface_filter(filter: &config::BinderTransactionFilter) -> (r: Result<(String, InterfaceConfig), ResolveError>)
    ensures
        match r {
            Ok(e) => spec_interface_entry(*filter) == Ok::<(Seq<char>, Seq<(u64, MethodConfigView)>), ResolveErrorView>((e.0@, e.1@)),
            Err(e) => spec_interface_entry(*filter) == Err::<(Seq<char>, Seq<(u64, MethodConfigView)>), ResolveErrorView>(e@),
        },
{
    let interface_name = match &filter.interface_name {
        Some(n) => n,
        None => {
            return Err(ResolveError::MissingInterfaceName);
        },
    };
    if interface_name.as_str().is_empty() {
        return Err(ResolveError::EmptyInterfaceName);
    }
    let n = filter.method_configs.len();
    if n == 0 {
        return Err(ResolveError::EmptyMethodConfigs);
    }
    let ghost mcs = filter.method_configs@;
    let mut interface_config = InterfaceConfig::new();
    let mut i: usize = 0;
    assert(mcs.take(0) =~= Seq::<config::MethodConfig>::empty());
    while i < n
        invariant
            n == mcs.len(),
            mcs == filter.method_configs@,
            spec_interface_entry(*filter) == match spec_method_entries(mcs) {
                Err(e) => Err(e),
                Ok(m) => Ok::<(Seq<char>, Seq<(u64, MethodConfigView)>), ResolveErrorView>((interface_name@, m)),
            },
            i <= n,
            spec_method_entries(mcs.take(i as int)) == Ok::<Seq<(u64, MethodConfigView)>, ResolveErrorView>(interface_config@),
        decreases n - i,
    {
        assert(mcs.take(i + 1).drop_last() =~= mcs.take(i as int));
        assert(mcs.take(i + 1).last() == mcs[i as int]);
        let (method_id, method_config) = match resolve_method_config(&filter.method_configs[i]) {
            Ok(entry) => entry,
            Err(e) => {
                proof {
                    assert(spec_method_entries(mcs.take(i + 1)) == Err::<Seq<(u64, MethodConfigView)>, ResolveErrorView>(e@));
                    lemma_method_entries_error_persists(mcs, i + 1);
                }
                return Err(e);
            },
        };
        match interface_config.insert_method(method_id, method_config) {
            Ok(()) => {},
            Err(e) => {
                proof {
                    assert(spec_method_entries(mcs.take(i + 1)) == Err::<Seq<(u64, MethodConfigView)>, ResolveErrorView>(e@));
                    lemma_method_entries_error_persists(mcs, i + 1);
                }
                return Err(e);
            },
        }
        i = i + 1;
    }
    assert(mcs.take(n as int) =~= mcs);
    Ok((interface_name.clone(), interface_config))
}

/// Resolves the binder transaction filters of a probe whose program is `bpf_name`.
pub fn resolve_binder_transaction_filters(probe: &config::ProbeConfig, bpf_name: &str) -> (r: Result<InterfaceFilters, ResolveError>)
    ensures
        match r {
            Ok(f) => spec_binder_filters(*probe, bpf_name@) == Ok::<Seq<(Seq<char>, Seq<(u64, MethodConfigView)>)>, ResolveErrorView>(f@),
            Err(e) => spec_binder_filters(*probe, bpf_name@) == Err::<Seq<(Seq<char>, Seq<(u64, MethodConfigView)>)>, ResolveErrorView>(e@),
        },
{
    let n = probe.binder_transaction_filters.len();
    if !str_eq(bpf_name, BINDER_BPF_PROGRAM_NAME) {
        if n != 0 {
            return Err(ResolveError::BinderFiltersNotSupported(String::from_str(bpf_name)));
        }
        return Ok(InterfaceFilters::new());
    }
    if n == 0 {
        return Err(ResolveError::BinderFiltersRequired);
    }
    let ghost fs = probe.binder_transaction_filters@;
    let mut filters = InterfaceFilters::new();
    let mut i: usize = 0;
    assert(fs.take(0) =~= Seq::<config::BinderTransactionFilter>::empty());
    while i < n
        invariant
            n == fs.len(),
            fs == probe.binder_transaction_filters@,
            spec_binder_filters(*probe, bpf_name@) == spec_interface_entries(fs),
            i <= n,
            spec_interface_entries(fs.take(i as int)) == Ok::<Seq<(Seq<char>, Seq<(u64, MethodConfigView)>)>, ResolveErrorView>(filters@),
        decreases n - i,
    {
        assert(fs.take(i + 1).drop_last() =~= fs.take(i as int));
        assert(fs.take(i + 1).last() == fs[i as int]);
        let (name, interface_config) = match resolve_interface_filter(&probe.binder_transaction_filters[i]) {
            Ok(entry) => entry,
            Err(e) => {
                proof { lemma_interface_entries_error_persists(fs, i + 1); }
                return Err(e);
            },
        };
        match filters.insert(name, interface_config) {
            Ok(()) => {},
            Err(e) => {
                proof { lemma_interface_entries_error_persists(fs, i + 1); }
                return Err(e);
            },
        }
        i = i + 1;
    }
    assert(fs.take(n as int) =~= fs);
    Ok(filters)
}

} // verus!

verus! {

/// The feature flags that gate BPF programs and maps.
#[derive(Clone, Copy, Debug, PartialEq, Eq)]
#[allow(missing_docs)]
pub struct FeatureFlags {
    pub monitor_disruptive_app_activities: bool,
    pub enable_bitmap_snapshot: bool,
    pub enable_bitmap_instrumentation: bool,
    pub enable_binder_transaction: bool,
    pub enable_bitmap_scaled_instrumentation: bool,
    pub a11y_runtime_permission: bool,
}

/// Whether the BPF program or map named `name` is enabled under `flags`: the first family
/// whose marker occurs in the name decides, and names of no family are always enabled.
pub open spec fn spec_bpf_file_enabled(name: Seq<char>, flags: FeatureFlags) -> bool {
    if contains_infix(name, "DisruptiveApp"@) {
        flags.monitor_disruptive_app_activities
    } else if contains_infix(name, "prog_BitmapAllocation_uprobe_bitmap_creation_for_snapshot"@)
        || contains_infix(name, "prog_BitmapAllocation_uprobe_apply_free_function"@) {
        flags.enable_bitmap_snapshot
    } else if contains_infix(name, "BitmapAllocation"@) {
        flags.enable_bitmap_instrumentation || flags.enable_bitmap_snapshot
    } else if contains_infix(name, "Binder"@) {
        flags.enable_binder_transaction
    } else if contains_infix(name, "prog_BitmapAllocation_uprobe_create_scaled_bitmap"@) {
        flags.enable_bitmap_scaled_instrumentation
    } else if contains_infix(name, "Accessibility"@) {
        flags.a11y_runtime_permission
    } else {
        true
    }
}

/// Whether the BPF program or map named `name` is enabled under `flags`.
pub fn is_bpf_file_enabled(name: &str, flags: &FeatureFlags) -> (r: bool)
    ensures
        r == spec_bpf_file_enabled(name@, *flags),
{
    if contains_str(name, "DisruptiveApp") {
        flags.monitor_disruptive_app_activities
    } else if contains_str(name, "prog_BitmapAllocation_uprobe_bitmap_creation_for_snapshot")
        || contains_str(name, "prog_BitmapAllocation_uprobe_apply_free_function") {
        flags.enable_bitmap_snapshot
    } else if contains_str(name, "BitmapAllocation") {
        flags.enable_bitmap_instrumentation || flags.enable_bitmap_snapshot
    } else if contains_str(name, "Binder") {
        flags.enable_binder_transaction
    } else if contains_str(name, "prog_BitmapAllocation_uprobe_create_scaled_bitmap") {
        flags.enable_bitmap_scaled_instrumentation
    } else if contains_str(name, "Accessibility") {
        flags.a11y_runtime_permission
    } else {
        true
    }
}

/// Which flag gates a BPF file: a disruptive app file runs exactly when disruptive app
/// activities are monitored; any other bitmap allocation file runs whenever bitmap
/// snapshots are on, also runs with bitmap instrumentation unless it is one of the two
/// snapshot-only programs, and never runs with both off; a binder file (of neither family
/// before) runs exactly with binder transactions on; an accessibility file (of no family
/// before) exactly with the accessibility permission flag; a file of no family always runs.
pub proof fn lemma_bpf_file_gates(name: Seq<char>, flags: FeatureFlags)
    ensures
        contains_infix(name, "DisruptiveApp"@) ==> (spec_bpf_file_enabled(name, flags)
            == flags.monitor_disruptive_app_activities),
        !contains_infix(name, "DisruptiveApp"@) && contains_infix(name, "BitmapAllocation"@) ==> {
            &&& flags.enable_bitmap_snapshot ==> spec_bpf_file_enabled(name, flags)
            &&& (flags.enable_bitmap_instrumentation && !contains_infix(
                name,
                "prog_BitmapAllocation_uprobe_bitmap_creation_for_snapshot"@,
            ) && !contains_infix(name, "prog_BitmapAllocation_uprobe_apply_free_function"@)) ==> spec_bpf_file_enabled(
                name,
                flags,
            )
            &&& (!flags.enable_bitmap_instrumentation && !flags.enable_bitmap_snapshot) ==> !spec_bpf_file_enabled(
                name,
                flags,
            )
        },
        !contains_infix(name, "DisruptiveApp"@) && !contains_infix(name, "BitmapAllocation"@) ==> {
            &&& contains_infix(name, "Binder"@) ==> (spec_bpf_file_enabled(name, flags) == flags.enable_binder_transaction)
            &&& (!contains_infix(name, "Binder"@) && contains_infix(name, "Accessibility"@)) ==> (spec_bpf_file_enabled(
                name,
                flags,
            ) == flags.a11y_runtime_permission)
            &&& (!contains_infix(name, "Binder"@) && !contains_infix(name, "Accessibility"@)) ==> spec_bpf_file_enabled(
                name,
                flags,
            )
        },
{
    lemma_snapshot_programs_are_bitmap_files(name);
}

/// The two snapshot-only programs are bitmap allocation files.
proof fn lemma_snapshot_programs_are_bitmap_files(name: Seq<char>)
    ensures
        contains_infix(name, "prog_BitmapAllocation_uprobe_bitmap_creation_for_snapshot"@) ==> contains_infix(
            name,
            "BitmapAllocation"@,
        ),
        contains_infix(name, "prog_BitmapAllocation_uprobe_apply_free_function"@) ==> contains_infix(
            name,
            "BitmapAllocation"@,
        ),
        contains_infix(name, "prog_BitmapAllocation_uprobe_create_scaled_bitmap"@) ==> contains_infix(
            name,
            "BitmapAllocation"@,
        ),
{
    reveal_strlit("prog_BitmapAllocation_uprobe_bitmap_creation_for_snapshot");
    reveal_strlit("prog_BitmapAllocation_uprobe_apply_free_function");
    reveal_strlit("prog_BitmapAllocation_uprobe_create_scaled_bitmap");
    reveal_strlit("BitmapAllocation");
    let b = "BitmapAllocation"@;
    let names = seq![
        "prog_BitmapAllocation_uprobe_bitmap_creation_for_snapshot"@,
        "prog_BitmapAllocation_uprobe_apply_free_function"@,
        "prog_BitmapAllocation_uprobe_create_scaled_bitmap"@,
    ];
    assert forall|k: int| 0 <= k < 3 && #[trigger] contains_infix(name, names[k]) implies contains_infix(name, b) by {
        let p = names[k];
        let i = choose|i: int| #[trigger] crate::string::occurs_at(name, p, i);
        assert(p.subrange(5, 5 + b.len() as int) =~= b);
        assert(name.subrange(i + 5, i + 5 + b.len()) =~= p.subrange(5, 5 + b.len() as int));
        assert(crate::string::occurs_at(name, b, i + 5));
    }
    assert(contains_infix(name, names[0]) ==> contains_infix(name, b));
    assert(contains_infix(name, names[1]) ==> contains_infix(name, b));
    assert(contains_infix(name, names[2]) ==> contains_infix(name, b));
}

/// Turning flags on never turns a BPF file off.
pub proof fn lemma_bpf_file_flags_monotone(name: Seq<char>, fewer: FeatureFlags, more: FeatureFlags)
    requires
        fewer.monitor_disruptive_app_activities ==> more.monitor_disruptive_app_activities,
        fewer.enable_bitmap_snapshot ==> more.enable_bitmap_snapshot,
        fewer.enable_bitmap_instrumentation ==> more.enable_bitmap_instrumentation,
        fewer.enable_binder_transaction ==> more.enable_binder_transaction,
        fewer.enable_bitmap_scaled_instrumentation ==> more.enable_bitmap_scaled_instrumentation,
        fewer.a11y_runtime_permission ==> more.a11y_runtime_permission,
    ensures
        spec_bpf_file_enabled(name, fewer) ==> spec_bpf_file_enabled(name, more),
{
}

/// A copy of a list of strings.
pub fn copy_strings(v: &Vec<String>) -> (r: Vec<String>)
    ensures
        r@ == v@,
{
    let mut r: Vec<String> = Vec::new();
    let mut i: usize = 0;
    while i < v.len()
        invariant
            i <= v@.len(),
            r@ == v@.take(i as int),
        decreases v@.len() - i,
    {
        r.push(v[i].clone());
        i = i + 1;
        assert(r@ =~= v@.take(i as int));
    }
    assert(v@.take(i as int) =~= v@);
    r
}

/// A validated probe whose method still has to be located.
#[derive(Clone, Debug)]
pub struct PreparedProbe {
    /// The descriptor of the method being probed.
    pub method_descriptor: MethodDescriptor,
    /// Absolute path to the bpf program.
    pub bpf_program_path: String,
    /// Binder transaction filters (if applicable), keyed by binder interface name.
    pub binder_transaction_filters: InterfaceFilters,
}

/// The abstract content of a `PreparedProbe`.
pub struct PreparedProbeView {
    /// The descriptor of the method being probed.
    pub method_descriptor: MethodDescriptorView,
    /// Absolute path to the bpf program.
    pub bpf_program_path: Seq<char>,
    /// Binder transaction filters.
    pub binder_transaction_filters: Seq<(Seq<char>, Seq<(u64, MethodConfigView)>)>,
}

impl View for PreparedProbe {
    type V = PreparedProbeView;

    open spec fn view(&self) -> PreparedProbeView {
        PreparedProbeView {
            method_descriptor: self.method_descriptor@,
            bpf_program_path: self.bpf_program_path@,
            binder_transaction_filters: self.binder_transaction_filters@,
        }
    }
}

/// Validated probe configuration + resolved offsets.
#[derive(Clone, Debug)]
pub struct ResolvedProbe {
    /// The descriptor of the method being probed.
    pub method_descriptor: MethodDescriptor,
    /// The offsets of the method being probed.
    pub offsets: ExecutableMethodFileOffsets,
    /// Absolute path to the bpf program.
    pub bpf_program_path: String,
    /// Binder transaction filters (if applicable), keyed by binder interface name.
    pub binder_transaction_filters: InterfaceFilters,
}

/// The abstract content of a `ResolvedProbe`.
pub struct ResolvedProbeView {
    /// The descriptor of the method being probed.
    pub method_descriptor: MethodDescriptorView,
    /// The offsets of the method being probed.
    pub offsets: ExecutableMethodFileOffsets,
    /// Absolute path to the bpf program.
    pub bpf_program_path: Seq<char>,
    /// Binder transaction filters.
    pub binder_transaction_filters: Seq<(Seq<char>, Seq<(u64, MethodConfigView)>)>,
}

impl View for ResolvedProbe {
    type V = ResolvedProbeView;

    open spec fn view(&self) -> ResolvedProbeView {
        ResolvedProbeView {
            method_descriptor: self.method_descriptor@,
            offsets: self.offsets,
            bpf_program_path: self.bpf_program_path@,
            binder_transaction_filters: self.binder_transaction_filters@,
        }
    }
}

/// What a wire probe stands for before its method is located, or why it is invalid.
pub open spec fn spec_prepare_probe(probe: config::ProbeConfig, flags: FeatureFlags) -> Result<PreparedProbeView, ResolveErrorView> {
    match probe.bpf_name {
        None => Err(ResolveErrorView::MissingBpfName),
        Some(name) => if !spec_bpf_file_enabled(name@, flags) {
            Err(ResolveErrorView::DisabledByFlag(name@))
        } else {
            match spec_binder_filters(probe, name@) {
                Err(e) => Err(e),
                Ok(filters) => match probe.fully_qualified_class_name {
                    None => Err(ResolveErrorView::MissingClassName),
                    Some(class_name) => match probe.method_name {
                        None => Err(ResolveErrorView::MissingMethodName),
                        Some(method_name) => Ok(PreparedProbeView {
                            method_descriptor: MethodDescriptorView {
                                class_name: class_name@,
                                method_name: method_name@,
                                parameters: probe.fully_qualified_parameters@.map_values(|p: String| p@),
                            },
                            bpf_program_path: BPF_DIR@ + name@,
                            binder_transaction_filters: filters,
                        }),
                    },
                },
            }
        },
    }
}

/// The resolved probe that a prepared probe becomes once the offset resolver reported
/// `outcome` for its method.
pub open spec fn spec_finish_probe(
    prepared: PreparedProbeView,
    outcome: Result<Option<ExecutableMethodFileOffsets>, String>,
) -> Result<ResolvedProbeView, ResolveErrorView> {
    match outcome {
        Err(message) => Err(ResolveErrorView::OffsetResolution(message@)),
        Ok(None) => Err(ResolveErrorView::OffsetsNotFound(prepared.method_descriptor)),
        Ok(Some(offsets)) => Ok(ResolvedProbeView {
            method_descriptor: prepared.method_descriptor,
            offsets,
            bpf_program_path: prepared.bpf_program_path,
            binder_transaction_filters: prepared.binder_transaction_filters,
        }),
    }
}

/// What a wire probe resolves to when the offset resolver reports `outcome` for its method.
pub open spec fn spec_probe_outcome(
    probe: config::ProbeConfig,
    flags: FeatureFlags,
    outcome: Result<Option<ExecutableMethodFileOffsets>, String>,
) -> Result<ResolvedProbeView, ResolveErrorView> {
    match spec_prepare_probe(probe, flags) {
        Err(e) => Err(e),
        Ok(prepared) => spec_finish_probe(prepared, outcome),
    }
}

/// Validates a wire probe and builds the descriptor of the method it targets.
pub fn prepare_probe(probe: &config::ProbeConfig, flags: &FeatureFlags) -> (r: Result<PreparedProbe, ResolveError>)
    ensures
        match r {
            Ok(p) => spec_prepare_probe(*probe, *flags) == Ok::<PreparedProbeView, ResolveErrorView>(p@),
            Err(e) => spec_prepare_probe(*probe, *flags) == Err::<PreparedProbeView, ResolveErrorView>(e@),
        },
{
    let bpf_name = match &probe.bpf_name {
        Some(n) => n,
        None => {
            return Err(ResolveError::MissingBpfName);
        },
    };
    if !is_bpf_file_enabled(bpf_name.as_str(), flags) {
        return Err(ResolveError::DisabledByFlag(bpf_name.clone()));
    }
    let bpf_program_path = prefix_bpf(bpf_name.as_str());
    let binder_transaction_filters = resolve_binder_transaction_filters(probe, bpf_name.as_str())?;
    let fully_qualified_class_name = match &probe.fully_qualified_class_name {
        Some(c) => c.clone(),
        None => {
            return Err(ResolveError::MissingClassName);
        },
    };
    let method_name = match &probe.method_name {
        Some(m) => m.clone(),
        None => {
            return Err(ResolveError::MissingMethodName);
        },
    };
    let fully_qualified_parameters = copy_strings(&probe.fully_qualified_parameters);
    let method_descriptor = MethodDescriptor {
        fully_qualified_class_name,
        method_name,
        fully_qualified_parameters,
    };
    Ok(PreparedProbe { method_descriptor, bpf_program_path, binder_transaction_filters })
}

/// Completes a prepared probe with what the offset resolver reported for its method.
pub fn finish_probe(
    prepared: PreparedProbe,
    outcome: Result<Option<ExecutableMethodFileOffsets>, String>,
) -> (r: Result<ResolvedProbe, ResolveError>)
    ensures
        match r {
            Ok(p) => spec_finish_probe(prepared@, outcome) == Ok::<ResolvedProbeView, ResolveErrorView>(p@),
            Err(e) => spec_finish_probe(prepared@, outcome) == Err::<ResolvedProbeView, ResolveErrorView>(e@),
        },
{
    match outcome {
        Err(message) => Err(ResolveError::OffsetResolution(message)),
        Ok(None) => Err(ResolveError::OffsetsNotFound(prepared.method_descriptor)),
        Ok(Some(offsets)) => Ok(ResolvedProbe {
            method_descriptor: prepared.method_descriptor,
            offsets,
            bpf_program_path: prepared.bpf_program_path,
            binder_transaction_filters: prepared.binder_transaction_filters,
        }),
    }
}

/// What resolving `probes` in order gives when the offset resolver answers `outcomes[i]`
/// for the method of the `i`-th probe: every probe resolved, or the error of the first probe
/// that fails (invalid, or its method not located).
pub open spec fn spec_resolve_probes(
    probes: Seq<config::ProbeConfig>,
    flags: FeatureFlags,
    outcomes: Seq<Result<Option<ExecutableMethodFileOffsets>, String>>,
) -> Result<Seq<ResolvedProbeView>, ResolveErrorView>
    decreases probes.len(),
{
    if probes.len() == 0 {
        Ok(Seq::empty())
    } else {
        match spec_resolve_probes(probes.drop_last(), flags, outcomes) {
            Err(e) => Err(e),
            Ok(done) => match spec_probe_outcome(probes.last(), flags, outcomes[probes.len() - 1]) {
                Err(e) => Err(e),
                Ok(p) => Ok(done.push(p)),
            },
        }
    }
}

/// `outcomes` are the offset resolver's answers to the questions that resolving `probes`
/// asks it: for each valid probe that is reached (every probe before it resolved), the
/// offsets of that probe's method in `process`.
pub open spec fn offsets_asked<R: OffsetResolver>(
    resolver: R,
    process: ResolvedProcess,
    probes: Seq<config::ProbeConfig>,
    flags: FeatureFlags,
    outcomes: Seq<Result<Option<ExecutableMethodFileOffsets>, String>>,
) -> bool {
    forall|i: int|
        0 <= i < probes.len() && #[trigger] spec_resolve_probes(probes.take(i), flags, outcomes) is Ok ==> match spec_prepare_probe(
            probes[i],
            flags,
        ) {
            Ok(prepared) => resolver.offsets_answer(process, prepared.method_descriptor, outcomes[i]),
            Err(_) => true,
        }
}

/// The result of resolving probes depends only on the answers for the probes it covers.
proof fn lemma_resolve_probes_frame(
    probes: Seq<config::ProbeConfig>,
    flags: FeatureFlags,
    a: Seq<Result<Option<ExecutableMethodFileOffsets>, String>>,
    b: Seq<Result<Option<ExecutableMethodFileOffsets>, String>>,
)
    requires
        forall|j: int| 0 <= j < probes.len() ==> a[j] == b[j],
    ensures
        spec_resolve_probes(probes, flags, a) == spec_resolve_probes(probes, flags, b),
    decreases probes.len(),
{
    if probes.len() > 0 {
        lemma_resolve_probes_frame(probes.drop_last(), flags, a, b);
        assert(a[probes.len() - 1] == b[probes.len() - 1]);
    }
}

/// Once a prefix of the probes fails, resolving more of them ends with the same error.
proof fn lemma_resolve_probes_error_persists(
    probes: Seq<config::ProbeConfig>,
    flags: FeatureFlags,
    outcomes: Seq<Result<Option<ExecutableMethodFileOffsets>, String>>,
    k: int,
)
    requires
        0 <= k <= probes.len(),
        spec_resolve_probes(probes.take(k), flags, outcomes) is Err,
    ensures
        spec_resolve_probes(probes, flags, outcomes) == spec_resolve_probes(probes.take(k), flags, outcomes),
    decreases probes.len(),
{
    if k == probes.len() {
        assert(probes.take(k) =~= probes);
    } else {
        assert(probes.drop_last().take(k) =~= probes.take(k));
        lemma_resolve_probes_error_persists(probes.drop_last(), flags, outcomes, k);
    }
}

/// After a failure at probe `k` (with every probe before it resolved), no later probe is
/// reached.
proof fn lemma_offsets_asked_after_error<R: OffsetResolver>(
    resolver: R,
    process: ResolvedProcess,
    probes: Seq<config::ProbeConfig>,
    flags: FeatureFlags,
    outcomes: Seq<Result<Option<ExecutableMethodFileOffsets>, String>>,
    k: int,
)
    requires
        0 <= k < probes.len(),
        spec_resolve_probes(probes.take(k + 1), flags, outcomes) is Err,
        forall|j: int|
            0 <= j <= k ==> match #[trigger] spec_prepare_probe(probes[j], flags) {
                Ok(prepared) => resolver.offsets_answer(process, prepared.method_descriptor, outcomes[j]),
                Err(_) => true,
            },
    ensures
        offsets_asked(resolver, process, probes, flags, outcomes),
{
    assert forall|i: int|
        0 <= i < probes.len() && #[trigger] spec_resolve_probes(probes.take(i), flags, outcomes) is Ok implies match spec_prepare_probe(
            probes[i],
            flags,
        ) {
            Ok(prepared) => resolver.offsets_answer(process, prepared.method_descriptor, outcomes[i]),
            Err(_) => true,
        } by {
        if i > k {
            assert(probes.take(i).take(k + 1) =~= probes.take(k + 1));
            lemma_resolve_probes_error_persists(probes.take(i), flags, outcomes, k + 1);
        } else {
            assert(spec_prepare_probe(probes[i], flags) == spec_prepare_probe(probes[i], flags));
        }
    }
}

/// Validates each probe, in order, and asks the offset resolver where the method of each
/// valid probe lies in `resolved_process`, stopping at the first probe that fails.
///
/// The offsets are the resolver's answers to those questions (`offsets_asked`); given them,
/// the result is exact (`spec_resolve_probes`).
pub fn resolve_probes(
    probe_configs: &Vec<config::ProbeConfig>,
    resolved_process: &ResolvedProcess,
    resolver: &impl OffsetResolver,
    flags: &FeatureFlags,
) -> (r: Result<Vec<ResolvedProbe>, ResolveError>)
    ensures
        exists|outcomes: Seq<Result<Option<ExecutableMethodFileOffsets>, String>>|
            #[trigger] offsets_asked(*resolver, *resolved_process, probe_configs@, *flags, outcomes) && match r {
                Ok(v) => spec_resolve_probes(probe_configs@, *flags, outcomes) == Ok::<
                    Seq<ResolvedProbeView>,
                    ResolveErrorView,
                >(v@.map_values(|p: ResolvedProbe| p@)),
                Err(e) => spec_resolve_probes(probe_configs@, *flags, outcomes) == Err::<
                    Seq<ResolvedProbeView>,
                    ResolveErrorView,
                >(e@),
            },
        (exists|i: int| 0 <= i < probe_configs@.len() && #[trigger] spec_prepare_probe(probe_configs@[i], *flags) is Err)
            ==> r is Err,
{
    let n = probe_configs.len();
    let mut out: Vec<ResolvedProbe> = Vec::new();
    let ghost mut outcomes: Seq<Result<Option<ExecutableMethodFileOffsets>, String>> = Seq::empty();
    let ghost probes = probe_configs@;
    let mut i: usize = 0;
    assert(probes.take(0) =~= Seq::<config::ProbeConfig>::empty());
    assert(out@.map_values(|p: ResolvedProbe| p@) =~= Seq::<ResolvedProbeView>::empty());
    while i < n
        invariant
            n == probes.len(),
            probes == probe_configs@,
            i <= n,
            outcomes.len() == i,
            spec_resolve_probes(probes.take(i as int), *flags, outcomes) == Ok::<Seq<ResolvedProbeView>, ResolveErrorView>(
                out@.map_values(|p: ResolvedProbe| p@),
            ),
            forall|j: int| 0 <= j < i ==> #[trigger] spec_prepare_probe(probes[j], *flags) is Ok,
            forall|j: int|
                0 <= j < i ==> match #[trigger] spec_prepare_probe(probes[j], *flags) {
                    Ok(prepared) => resolver.offsets_answer(*resolved_process, prepared.method_descriptor, outcomes[j]),
                    Err(_) => true,
                },
        decreases n - i,
    {
        let probe = &probe_configs[i];
        assert(probes.take(i + 1).drop_last() =~= probes.take(i as int));
        assert(probes.take(i + 1).last() == probes[i as int]);
        let prepared = match prepare_probe(probe, flags) {
            Ok(p) => p,
            Err(e) => {
                proof {
                    assert(spec_resolve_probes(probes.take(i + 1), *flags, outcomes) == Err::<Seq<ResolvedProbeView>, ResolveErrorView>(e@));
                    lemma_resolve_probes_error_persists(probes, *flags, outcomes, i + 1);
                    lemma_offsets_asked_after_error(*resolver, *resolved_process, probes, *flags, outcomes, i as int);
                }
                return Err(e);
            },
        };
        let outcome = resolver.resolve_offsets(resolved_process, &prepared.method_descriptor);
        let ghost prepared_view = prepared@;
        let ghost old_outcomes = outcomes;
        proof {
            outcomes = outcomes.push(outcome);
            lemma_resolve_probes_frame(probes.take(i as int), *flags, old_outcomes, outcomes);
            assert(probes.take(i + 1).len() - 1 == i);
            assert(outcomes[i as int] == outcome);
        }
        match finish_probe(prepared, outcome) {
            Ok(p) => {
                let ghost before = out@;
                out.push(p);
                proof {
                    assert(out@.map_values(|q: ResolvedProbe| q@) =~= before.map_values(|q: ResolvedProbe| q@).push(p@));
                }
            },
            Err(e) => {
                proof {
                    assert(spec_resolve_probes(probes.take(i + 1), *flags, outcomes) == Err::<Seq<ResolvedProbeView>, ResolveErrorView>(e@));
                    lemma_resolve_probes_error_persists(probes, *flags, outcomes, i + 1);
                    lemma_offsets_asked_after_error(*resolver, *resolved_process, probes, *flags, outcomes, i as int);
                }
                return Err(e);
            },
        }
        i = i + 1;
    }
    proof {
        assert(probes.take(n as int) =~= probes);
        assert forall|k: int|
            0 <= k < probes.len() && #[trigger] spec_resolve_probes(probes.take(k), *flags, outcomes) is Ok implies match spec_prepare_probe(
                probes[k],
                *flags,
            ) {
                Ok(prepared) => resolver.offsets_answer(*resolved_process, prepared.method_descriptor, outcomes[k]),
                Err(_) => true,
            } by {
            assert(spec_prepare_probe(probes[k], *flags) is Ok);
        }
        assert(offsets_asked(*resolver, *resolved_process, probes, *flags, outcomes));
    }
    Ok(out)
}

} // verus!

verus! {

/// Validated task configuration + resolved process.
#[derive(Clone, Debug)]
pub struct ResolvedTask {
    /// Unique identifier for the task.
    pub id: i64,
    /// The duration of the task in seconds.
    pub duration_secs: u64,
    /// The resolved target process info.
    pub resolved_process: ResolvedProcess,
    /// The set of absolute bpf map paths used by the task (no path occurs twice).
    pub bpf_map_paths: Vec<String>,
    /// The statsd logging config for the task (if applicable).
    pub statsd_logging_config: Option<config::StatsdLoggingConfig>,
    /// The individual probes for the task.
    pub resolved_probes: Vec<ResolvedProbe>,
}

/// The character sequences of a list of strings.
pub open spec fn string_views(v: Seq<String>) -> Seq<Seq<char>> {
    v.map_values(|s: String| s@)
}

/// The first map of `maps` that `flags` disable, as the error; none, as `Ok`.
pub open spec fn spec_check_maps(maps: Seq<String>, flags: FeatureFlags) -> Result<(), ResolveErrorView>
    decreases maps.len(),
{
    if maps.len() == 0 {
        Ok(())
    } else if !spec_bpf_file_enabled(maps[0]@, flags) {
        Err(ResolveErrorView::DisabledByFlag(maps[0]@))
    } else {
        spec_check_maps(maps.drop_first(), flags)
    }
}

/// The checks of a task that come before its process is resolved: its maps must be
/// enabled and its duration positive. The duration in seconds, or the first failure.
pub open spec fn spec_task_prechecks(task: config::Task, flags: FeatureFlags) -> Result<u64, ResolveErrorView> {
    match spec_check_maps(task.bpf_maps@, flags) {
        Err(e) => Err(e),
        Ok(_) => match task.duration_seconds {
            None => Err(ResolveErrorView::MissingDuration),
            Some(d) => if d <= 0 {
                Err(ResolveErrorView::NonPositiveDuration)
            } else {
                Ok(d as u64)
            },
        },
    }
}

/// `paths` holds the prefixed path of every map of `maps`, each once, and nothing else.
pub open spec fn map_paths_of(maps: Seq<String>, paths: Seq<Seq<char>>) -> bool {
    &&& paths.no_duplicates()
    &&& forall|p: Seq<char>| #[trigger] paths.contains(p) <==> exists|i: int| 0 <= i < maps.len() && p == BPF_DIR@ + #[trigger] maps[i]@
}

/// `b` holds the same statsd logging configuration as `a`.
pub open spec fn same_logging_config(a: Option<config::StatsdLoggingConfig>, b: Option<config::StatsdLoggingConfig>) -> bool {
    match (a, b) {
        (None, None) => true,
        (Some(x), Some(y)) => x.atom_id == y.atom_id && x.primitive_argument_positions@ == y.primitive_argument_positions@,
        _ => false,
    }
}

/// The name of the process a task targets, by its characters.
pub open spec fn spec_process_name(task: config::Task) -> Option<Seq<char>> {
    match task.target_process_name {
        Some(n) => Some(n@),
        None => None,
    }
}

/// The process selection a task asks for: 0 when it has none.
pub open spec fn spec_process_selection(task: config::Task) -> i32 {
    match task.target_process_selection {
        Some(s) => s,
        None => 0,
    }
}

/// `r` is what resolving `task`, identified by `id`, gives when the process resolver
/// answers `process` and the offset resolver answers `outcomes` (`spec_resolve_probes`):
/// the first failing precheck, the process resolver's error, the first failing probe's
/// error, or the task with that process and those probes.
pub open spec fn task_outcome(
    task: config::Task,
    id: i64,
    flags: FeatureFlags,
    process: Result<ResolvedProcess, String>,
    outcomes: Seq<Result<Option<ExecutableMethodFileOffsets>, String>>,
    r: Result<ResolvedTask, ResolveError>,
) -> bool {
    match spec_task_prechecks(task, flags) {
        Err(e) => r matches Err(x) && x@ == e,
        Ok(duration) => match process {
            Err(m) => r matches Err(x) && x@ == ResolveErrorView::ProcessResolution(m@),
            Ok(p) => match spec_resolve_probes(task.probe_configs@, flags, outcomes) {
                Err(e) => r matches Err(x) && x@ == e,
                Ok(probes) => r matches Ok(t) && {
                    &&& t.id == id
                    &&& t.duration_secs == duration
                    &&& t.resolved_process == p
                    &&& map_paths_of(task.bpf_maps@, string_views(t.bpf_map_paths@))
                    &&& same_logging_config(task.statsd_logging_config, t.statsd_logging_config)
                    &&& t.resolved_probes@.map_values(|q: ResolvedProbe| q@) == probes
                },
            },
        },
    }
}

/// `process` and `outcomes` are the resolvers' answers to the questions that resolving
/// `task` asks: once its prechecks pass, the process of the task's name and selection with
/// the task's duration as the timeout; once the process is known, the offsets of its
/// probes' methods in it (`offsets_asked`).
pub open spec fn task_answers_asked<P: ProcessResolver, O: OffsetResolver>(
    process_resolver: P,
    offset_resolver: O,
    task: config::Task,
    flags: FeatureFlags,
    process: Result<ResolvedProcess, String>,
    outcomes: Seq<Result<Option<ExecutableMethodFileOffsets>, String>>,
) -> bool {
    spec_task_prechecks(task, flags) matches Ok(duration) ==> {
        &&& process_resolver.process_answer(spec_process_name(task), spec_process_selection(task), duration, process)
        &&& process matches Ok(p) ==> offsets_asked(offset_resolver, p, task.probe_configs@, flags, outcomes)
    }
}

/// `r` is what resolving a configuration whose single task is `task` gives when the
/// guardrail's verdict is `verdict` and the resolvers answer `process` and `outcomes`: the
/// guardrail's error, `Disallowed` when it refuses, or else the task's outcome, each error
/// with the task's identifier.
pub open spec fn config_outcome(
    task: config::Task,
    flags: FeatureFlags,
    verdict: Result<bool, String>,
    process: Result<ResolvedProcess, String>,
    outcomes: Seq<Result<Option<ExecutableMethodFileOffsets>, String>>,
    r: Result<ResolvedTask, ConfigError>,
) -> bool {
    let id = spec_task_id(task);
    match verdict {
        Err(m) => r matches Err(ConfigError::TaskValidation { task_id, error }) && task_id == id && error@
            == ResolveErrorView::Guardrail(m@),
        Ok(false) => r matches Err(ConfigError::TaskValidation { task_id, error }) && task_id == id && error@
            == ResolveErrorView::Disallowed,
        Ok(true) => match r {
            Ok(t) => task_outcome(task, id, flags, process, outcomes, Ok(t)),
            Err(ConfigError::TaskValidation { task_id, error }) => task_id == id && task_outcome(
                task,
                id,
                flags,
                process,
                outcomes,
                Err(error),
            ),
            Err(ConfigError::Other(_)) => false,
        },
    }
}

/// Whether `v` holds a string equal to `s`.
pub fn contains_string(v: &Vec<String>, s: &str) -> (r: bool)
    ensures
        r == exists|i: int| 0 <= i < v@.len() && #[trigger] v@[i]@ == s@,
{
    let mut i: usize = 0;
    while i < v.len()
        invariant
            i <= v@.len(),
            forall|j: int| 0 <= j < i ==> #[trigger] v@[j]@ != s@,
        decreases v@.len() - i,
    {
        if str_eq(v[i].as_str(), s) {
            return true;
        }
        i = i + 1;
    }
    false
}

/// A copy of a statsd logging configuration.
pub fn copy_logging_config(c: &Option<config::StatsdLoggingConfig>) -> (r: Option<config::StatsdLoggingConfig>)
    ensures
        same_logging_config(*c, r),
{
    match c {
        None => None,
        Some(c) => {
            let mut positions: Vec<i32> = Vec::new();
            let mut i: usize = 0;
            while i < c.primitive_argument_positions.len()
                invariant
                    i <= c.primitive_argument_positions@.len(),
                    positions@ == c.primitive_argument_positions@.take(i as int),
                decreases c.primitive_argument_positions@.len() - i,
            {
                positions.push(c.primitive_argument_positions[i]);
                i = i + 1;
                assert(positions@ =~= c.primitive_argument_positions@.take(i as int));
            }
            assert(positions@ =~= c.primitive_argument_positions@);
            Some(config::StatsdLoggingConfig { atom_id: c.atom_id, primitive_argument_positions: positions })
        },
    }
}

/// Checks that every map of `maps` is enabled, and collects their prefixed paths, each once.
fn resolve_map_paths(maps: &Vec<String>, flags: &FeatureFlags) -> (r: Result<Vec<String>, ResolveError>)
    ensures
        match r {
            Ok(paths) => spec_check_maps(maps@, *flags) is Ok && map_paths_of(maps@, string_views(paths@)),
            Err(e) => spec_check_maps(maps@, *flags) == Err::<(), ResolveErrorView>(e@),
        },
{
    let mut paths: Vec<String> = Vec::new();
    let mut i: usize = 0;
    assert(maps@.skip(0) =~= maps@);
    while i < maps.len()
        invariant
            i <= maps@.len(),
            spec_check_maps(maps@, *flags) == spec_check_maps(maps@.skip(i as int), *flags),
            string_views(paths@).no_duplicates(),
            forall|p: Seq<char>| #[trigger] string_views(paths@).contains(p) <==> exists|j: int|
                0 <= j < i && p == BPF_DIR@ + #[trigger] maps@[j]@,
        decreases maps@.len() - i,
    {
        assert(maps@.skip(i as int).drop_first() =~= maps@.skip(i + 1));
        assert(maps@.skip(i as int)[0] == maps@[i as int]);
        if !is_bpf_file_enabled(maps[i].as_str(), flags) {
            return Err(ResolveError::DisabledByFlag(maps[i].clone()));
        }
        let path = prefix_bpf(maps[i].as_str());
        let ghost before = string_views(paths@);
        if !contains_string(&paths, path.as_str()) {
            paths.push(path);
            proof {
                let after = string_views(paths@);
                assert(after =~= before.push(path@));
                assert(!before.contains(path@)) by {
                    if before.contains(path@) {
                        let k = choose|k: int| 0 <= k < before.len() && before[k] == path@;
                        assert(paths@[k]@ == path@);
                    }
                }
                assert forall|a: int, b: int| 0 <= a < b < after.len() implies after[a] != after[b] by {
                    if b == after.len() - 1 {
                        assert(before.contains(after[a]));
                    }
                }
                assert forall|p: Seq<char>| #[trigger] after.contains(p) <==> exists|j: int|
                    0 <= j < i + 1 && p == BPF_DIR@ + #[trigger] maps@[j]@ by {
                    if after.contains(p) {
                        let k = choose|k: int| 0 <= k < after.len() && after[k] == p;
                        if k < before.len() {
                            assert(before.contains(p));
                        } else {
                            assert(p == BPF_DIR@ + maps@[i as int]@);
                        }
                    }
                    if exists|j: int| 0 <= j < i + 1 && p == BPF_DIR@ + #[trigger] maps@[j]@ {
                        let j = choose|j: int| 0 <= j < i + 1 && p == BPF_DIR@ + #[trigger] maps@[j]@;
                        if j < i {
                            assert(before.contains(p));
                            let k = choose|k: int| 0 <= k < before.len() && before[k] == p;
                            assert(after[k] == p);
                        } else {
                            assert(after[before.len() as int] == p);
                        }
                    }
                }
            }
        } else {
            proof {
                assert(before.contains(path@)) by {
                    let k = choose|k: int| 0 <= k < paths@.len() && #[trigger] paths@[k]@ == path@;
                    assert(before[k] == path@);
                }
                assert forall|p: Seq<char>| #[trigger] before.contains(p) <==> exists|j: int|
                    0 <= j < i + 1 && p == BPF_DIR@ + #[trigger] maps@[j]@ by {
                    if exists|j: int| 0 <= j < i + 1 && p == BPF_DIR@ + #[trigger] maps@[j]@ {
                        let j = choose|j: int| 0 <= j < i + 1 && p == BPF_DIR@ + #[trigger] maps@[j]@;
                        if j == i {
                            assert(p == path@);
                        }
                    }
                }
            }
        }
        i = i + 1;
    }
    assert(maps@.skip(i as int).len() == 0);
    Ok(paths)
}

/// Validates a single task and enriches it with the information needed to attach uprobes
/// and consume their results.
///
/// The process and the offsets of the probed methods are the resolvers' answers to the
/// questions the task asks (`task_answers_asked`); given them, the result is exact
/// (`task_outcome`).
pub fn resolve_single_task(
    task: &config::Task,
    id: i64,
    flags: &FeatureFlags,
    process_resolver: &impl ProcessResolver,
    offset_resolver: &impl OffsetResolver,
) -> (r: Result<ResolvedTask, ResolveError>)
    ensures
        exists|process: Result<ResolvedProcess, String>, outcomes: Seq<Result<Option<ExecutableMethodFileOffsets>, String>>|
            #[trigger] task_outcome(*task, id, *flags, process, outcomes, r) && task_answers_asked(
                *process_resolver,
                *offset_resolver,
                *task,
                *flags,
                process,
                outcomes,
            ),
        spec_task_prechecks(*task, *flags) matches Err(e) ==> (r matches Err(x) && x@ == e),
        (exists|i: int| 0 <= i < task.probe_configs@.len() && #[trigger] spec_prepare_probe(task.probe_configs@[i], *flags) is Err)
            ==> r is Err,
{
    let ghost any_process: Result<ResolvedProcess, String> = vstd::pervasive::arbitrary();
    let ghost no_outcomes: Seq<Result<Option<ExecutableMethodFileOffsets>, String>> = Seq::empty();
    let bpf_map_paths = match resolve_map_paths(&task.bpf_maps, flags) {
        Ok(paths) => paths,
        Err(e) => {
            let r = Err(e);
            assert(task_outcome(*task, id, *flags, any_process, no_outcomes, r));
            return r;
        },
    };
    let duration_seconds = match task.duration_seconds {
        Some(d) => d,
        None => {
            let r = Err(ResolveError::MissingDuration);
            assert(task_outcome(*task, id, *flags, any_process, no_outcomes, r));
            return r;
        },
    };
    if duration_seconds <= 0 {
        let r = Err(ResolveError::NonPositiveDuration);
        assert(task_outcome(*task, id, *flags, any_process, no_outcomes, r));
        return r;
    }
    let duration_secs = duration_seconds as u64;
    let statsd_logging_config = copy_logging_config(&task.statsd_logging_config);
    let target_process_selection = match task.target_process_selection {
        Some(s) => s,
        None => 0,
    };
    let process_name: Option<&str> = match &task.target_process_name {
        Some(n) => Some(n.as_str()),
        None => None,
    };
    let process = process_resolver.resolve_process(process_name, target_process_selection, duration_secs);
    let ghost process_answer = process;
    let resolved_process = match process {
        Ok(p) => p,
        Err(message) => {
            let r = Err(ResolveError::ProcessResolution(message));
            assert(task_outcome(*task, id, *flags, process_answer, no_outcomes, r));
            return r;
        },
    };
    let probes = resolve_probes(&task.probe_configs, &resolved_process, offset_resolver, flags);
    let ghost outcomes = choose|outcomes: Seq<Result<Option<ExecutableMethodFileOffsets>, String>>|
        #[trigger] offsets_asked(*offset_resolver, resolved_process, task.probe_configs@, *flags, outcomes) && match probes {
            Ok(v) => spec_resolve_probes(task.probe_configs@, *flags, outcomes) == Ok::<
                Seq<ResolvedProbeView>,
                ResolveErrorView,
            >(v@.map_values(|p: ResolvedProbe| p@)),
            Err(e) => spec_resolve_probes(task.probe_configs@, *flags, outcomes) == Err::<
                Seq<ResolvedProbeView>,
                ResolveErrorView,
            >(e@),
        };
    let resolved_probes = match probes {
        Ok(v) => v,
        Err(e) => {
            let r = Err(e);
            assert(task_outcome(*task, id, *flags, process_answer, outcomes, r));
            assert(task_answers_asked(*process_resolver, *offset_resolver, *task, *flags, process_answer, outcomes));
            return r;
        },
    };
    let r = Ok(ResolvedTask {
        id,
        duration_secs,
        resolved_process,
        bpf_map_paths,
        statsd_logging_config,
        resolved_probes,
    });
    assert(task_outcome(*task, id, *flags, process_answer, outcomes, r));
    assert(task_answers_asked(*process_resolver, *offset_resolver, *task, *flags, process_answer, outcomes));
    r
}

/// Wraps a config error with the task ID (for the majority case that we at least know the
/// task ID).
#[derive(Debug, Clone, PartialEq)]
pub enum ConfigError {
    /// We were able to parse a single task from the config, but it failed validation.
    TaskValidation {
        /// The ID of the task that failed validation.
        task_id: i64,
        /// The error that occurred.
        error: ResolveError,
    },
    /// We failed to parse the config, it didn't have exactly one task, or some other
    /// unexpected error occurred.
    Other(ResolveError),
}

impl ConfigError {
    /// Returns the task ID if this error is for a specific task, -1 otherwise.
    pub fn task_id(&self) -> (r: Option<i64>)
        ensures
            match self {
                ConfigError::TaskValidation { task_id, .. } => r == Some(*task_id),
                ConfigError::Other(_) => r == Some(-1i64),
            },
    {
        match self {
            ConfigError::TaskValidation { task_id, .. } => Some(*task_id),
            ConfigError::Other(_) => Some(-1),
        }
    }
}

/// Judges whether a configuration may run on this device.
///
/// Its verdict depends on the device. `verdict` ties a verdict to the question asked: it is
/// one that the guardrail may give for that configuration and build, and nothing more is
/// promised.
pub trait ConfigGuardrail {
    /// Whether `r` is a verdict the guardrail may give for the question. A guardrail that
    /// does not define it may give any verdict.
    closed spec fn verdict(
        &self,
        config: config::UprobestatsConfig,
        is_user_build: bool,
        offsets_api_enabled: bool,
        r: Result<bool, String>,
    ) -> bool {
        true
    }

    /// Whether `config` may run; an error when it cannot be judged.
    fn is_allowed(
        &self,
        config: &config::UprobestatsConfig,
        is_user_build: bool,
        offsets_api_enabled: bool,
    ) -> (r: Result<bool, String>)
        ensures
            self.verdict(*config, is_user_build, offsets_api_enabled, r),
    ;
}

/// The identifier of a task: its `task_id`, or 0 when it has none.
pub open spec fn spec_task_id(task: config::Task) -> i64 {
    match task.task_id {
        Some(id) => id,
        None => 0,
    }
}

/// Validates a parsed configuration and resolves its single task.
///
/// A configuration without exactly one task is refused outright. Otherwise the guardrail
/// judges the configuration (on this build, with the offsets API), and the resolvers are
/// asked what the task needs (`task_answers_asked`); given those answers the result is exact
/// (`config_outcome`), every error carrying the task's identifier.
pub fn resolve_config(
    config: &config::UprobestatsConfig,
    is_user_build: bool,
    flags: &FeatureFlags,
    guardrail: &impl ConfigGuardrail,
    process_resolver: &impl ProcessResolver,
    offset_resolver: &impl OffsetResolver,
) -> (r: Result<ResolvedTask, ConfigError>)
    ensures
        config.tasks@.len() != 1 ==> (r matches Err(ConfigError::Other(e))
            && e@ == ResolveErrorView::WrongTaskCount(config.tasks@.len() as usize)),
        config.tasks@.len() == 1 ==> exists|
            verdict: Result<bool, String>,
            process: Result<ResolvedProcess, String>,
            outcomes: Seq<Result<Option<ExecutableMethodFileOffsets>, String>>,
        |
            #[trigger] config_outcome(config.tasks@[0], *flags, verdict, process, outcomes, r) && guardrail.verdict(
                *config,
                is_user_build,
                true,
                verdict,
            ) && (verdict == Ok::<bool, String>(true) ==> task_answers_asked(
                *process_resolver,
                *offset_resolver,
                config.tasks@[0],
                *flags,
                process,
                outcomes,
            )),
{
    if config.tasks.len() != 1 {
        return Err(ConfigError::Other(ResolveError::WrongTaskCount(config.tasks.len())));
    }
    let task = &config.tasks[0];
    let id = match task.task_id {
        Some(id) => id,
        None => 0,
    };
    let verdict = guardrail.is_allowed(config, is_user_build, true);
    let ghost verdict_answer = verdict;
    let ghost no_process: Result<ResolvedProcess, String> = vstd::pervasive::arbitrary();
    let ghost no_outcomes: Seq<Result<Option<ExecutableMethodFileOffsets>, String>> = Seq::empty();
    match verdict {
        Ok(true) => {},
        Ok(false) => {
            let r = Err(ConfigError::TaskValidation { task_id: id, error: ResolveError::Disallowed });
            assert(config_outcome(*task, *flags, verdict_answer, no_process, no_outcomes, r));
            return r;
        },
        Err(message) => {
            let r = Err(ConfigError::TaskValidation { task_id: id, error: ResolveError::Guardrail(message) });
            assert(config_outcome(*task, *flags, verdict_answer, no_process, no_outcomes, r));
            return r;
        },
    }
    let resolved = resolve_single_task(task, id, flags, process_resolver, offset_resolver);
    let ghost (process, outcomes) = choose|
        process: Result<ResolvedProcess, String>,
        outcomes: Seq<Result<Option<ExecutableMethodFileOffsets>, String>>,
    |
        #[trigger] task_outcome(*task, id, *flags, process, outcomes, resolved) && task_answers_asked(
            *process_resolver,
            *offset_resolver,
            *task,
            *flags,
            process,
            outcomes,
        );
    let r = match resolved {
        Ok(t) => Ok(t),
        Err(e) => Err(ConfigError::TaskValidation { task_id: id, error: e }),
    };
    assert(config_outcome(*task, *flags, verdict_answer, process, outcomes, r));
    r
}

} // verus!

verus! {

/// The text that describes a resolution error.
pub open spec fn spec_resolve_message(e: ResolveErrorView) -> Seq<char> {
    match e {
        ResolveErrorView::Parse(m) => "Failed to parse config from bytes: "@ + m,
        ResolveErrorView::WrongTaskCount(n) => "Config must have exactly one task, got "@ + decimal(n as nat),
        ResolveErrorView::Guardrail(m) => m,
        ResolveErrorView::Disallowed => "uprobestats probing config disallowed on this device"@,
        ResolveErrorView::DisabledByFlag(m) => m + " is disabled by flag"@,
        ResolveErrorView::MissingDuration => "Task duration is required"@,
        ResolveErrorView::NonPositiveDuration => "Task duration must be greater than 0"@,
        ResolveErrorView::ProcessResolution(m) => m,
        ResolveErrorView::MissingBpfName => "bpf_name is required"@,
        ResolveErrorView::MissingClassName => "fully_qualified_class_name is required"@,
        ResolveErrorView::MissingMethodName => "method_name is required"@,
        ResolveErrorView::OffsetResolution(m) => m,
        ResolveErrorView::OffsetsNotFound(md) => "Failed to get offsets for class: "@ + md.class_name + ", method: "@ + md.method_name + ", params: "@ + debug_string_list(md.parameters),
        ResolveErrorView::BinderFiltersRequired => "prog_Binder_uprobe_exec_transact_internal requires at least one binder_transaction_filter"@,
        ResolveErrorView::BinderFiltersNotSupported(m) => "binder_transaction_filters is only supported for prog_Binder_uprobe_exec_transact_internal but got "@ + m,
        ResolveErrorView::MissingInterfaceName => "binder_transaction_filter.interface_name is required"@,
        ResolveErrorView::EmptyInterfaceName => "binder_transaction_filter.interface_name must be non-empty"@,
        ResolveErrorView::EmptyMethodConfigs => "binder_transaction_filter.method_configs must be non-empty"@,
        ResolveErrorView::InvalidMethodId => "binder_transaction_filter.method_config.method_id is required and must be a positive integer"@,
        ResolveErrorView::MissingMethodTarget => "either method_config.event_service_config, method_config.atom_config, or both, must be present"@,
        ResolveErrorView::MissingAtomId => "atom_config.atom_id is required"@,
        ResolveErrorView::NonPositiveAtomId => "atom_config.atom_id must be positive integer"@,
        ResolveErrorView::DuplicateMethodId(id) => "Duplicate method_id "@ + decimal(id as nat),
        ResolveErrorView::DuplicateInterfaceName(m) => "Duplicate interface_name "@ + m,
    }
}

/// The text that describes a configuration error.
pub open spec fn spec_config_message(task_id: Option<i64>, e: ResolveErrorView) -> Seq<char> {
    match task_id {
        Some(id) => "Task "@ + signed_decimal(id as int) + ": "@ + spec_resolve_message(e),
        None => spec_resolve_message(e),
    }
}

impl ResolveError {
    /// Describes the error.
    pub fn message(&self) -> (r: String)
        ensures
            r@ == spec_resolve_message(self@),
    {
        proof {
            reveal_strlit(" is disabled by flag");
            reveal_strlit(", method: ");
            reveal_strlit(", params: ");
            reveal_strlit("Config must have exactly one task, got ");
            reveal_strlit("Duplicate interface_name ");
            reveal_strlit("Duplicate method_id ");
            reveal_strlit("Failed to get offsets for class: ");
            reveal_strlit("Failed to parse config from bytes: ");
            reveal_strlit("Task duration is required");
            reveal_strlit("Task duration must be greater than 0");
            reveal_strlit("atom_config.atom_id is required");
            reveal_strlit("atom_config.atom_id must be positive integer");
            reveal_strlit("binder_transaction_filter.interface_name is required");
            reveal_strlit("binder_transaction_filter.interface_name must be non-empty");
            reveal_strlit("binder_transaction_filter.method_config.method_id is required and must be a positive integer");
            reveal_strlit("binder_transaction_filter.method_configs must be non-empty");
            reveal_strlit("binder_transaction_filters is only supported for prog_Binder_uprobe_exec_transact_internal but got ");
            reveal_strlit("bpf_name is required");
            reveal_strlit("either method_config.event_service_config, method_config.atom_config, or both, must be present");
            reveal_strlit("fully_qualified_class_name is required");
            reveal_strlit("method_name is required");
            reveal_strlit("prog_Binder_uprobe_exec_transact_internal requires at least one binder_transaction_filter");
            reveal_strlit("uprobestats probing config disallowed on this device");
        }
        match self {
            ResolveError::Parse(m) => {
                let mut r = String::new();
                r.append("Failed to parse config from bytes: ");
                r.append(m.as_str());
                r
            },
            ResolveError::WrongTaskCount(n) => {
                let mut r = String::new();
                r.append("Config must have exactly one task, got ");
                append_decimal(&mut r, *n as u64);
                r
            },
            ResolveError::Guardrail(m) => {
                let mut r = String::new();
                r.append(m.as_str());
                r
            },
            ResolveError::Disallowed => {
                let mut r = String::new();
                r.append("uprobestats probing config disallowed on this device");
                r
            },
            ResolveError::DisabledByFlag(m) => {
                let mut r = String::new();
                r.append(m.as_str());
                r.append(" is disabled by flag");
                r
            },
            ResolveError::MissingDuration => {
                let mut r = String::new();
                r.append("Task duration is required");
                r
            },
            ResolveError::NonPositiveDuration => {
                let mut r = String::new();
                r.append("Task duration must be greater than 0");
                r
            },
            ResolveError::ProcessResolution(m) => {
                let mut r = String::new();
                r.append(m.as_str());
                r
            },
            ResolveError::MissingBpfName => {
                let mut r = String::new();
                r.append("bpf_name is required");
                r
            },
            ResolveError::MissingClassName => {
                let mut r = String::new();
                r.append("fully_qualified_class_name is required");
                r
            },
            ResolveError::MissingMethodName => {
                let mut r = String::new();
                r.append("method_name is required");
                r
            },
            ResolveError::OffsetResolution(m) => {
                let mut r = String::new();
                r.append(m.as_str());
                r
            },
            ResolveError::OffsetsNotFound(md) => {
                let mut r = String::new();
                r.append("Failed to get offsets for class: ");
                r.append(md.fully_qualified_class_name.as_str());
                r.append(", method: ");
                r.append(md.method_name.as_str());
                r.append(", params: ");
                let params = debug_strings(&md.fully_qualified_parameters);
                r.append(params.as_str());
                r
            },
            ResolveError::BinderFiltersRequired => {
                let mut r = String::new();
                r.append("prog_Binder_uprobe_exec_transact_internal requires at least one binder_transaction_filter");
                r
            },
            ResolveError::BinderFiltersNotSupported(m) => {
                let mut r = String::new();
                r.append("binder_transaction_filters is only supported for prog_Binder_uprobe_exec_transact_internal but got ");
                r.append(m.as_str());
                r
            },
            ResolveError::MissingInterfaceName => {
                let mut r = String::new();
                r.append("binder_transaction_filter.interface_name is required");
                r
            },
            ResolveError::EmptyInterfaceName => {
                let mut r = String::new();
                r.append("binder_transaction_filter.interface_name must be non-empty");
                r
            },
            ResolveError::EmptyMethodConfigs => {
                let mut r = String::new();
                r.append("binder_transaction_filter.method_configs must be non-empty");
                r
            },
            ResolveError::InvalidMethodId => {
                let mut r = String::new();
                r.append("binder_transaction_filter.method_config.method_id is required and must be a positive integer");
                r
            },
            ResolveError::MissingMethodTarget => {
                let mut r = String::new();
                r.append("either method_config.event_service_config, method_config.atom_config, or both, must be present");
                r
            },
            ResolveError::MissingAtomId => {
                let mut r = String::new();
                r.append("atom_config.atom_id is required");
                r
            },
            ResolveError::NonPositiveAtomId => {
                let mut r = String::new();
                r.append("atom_config.atom_id must be positive integer");
                r
            },
            ResolveError::DuplicateMethodId(id) => {
                let mut r = String::new();
                r.append("Duplicate method_id ");
                append_decimal(&mut r, *id);
                r
            },
            ResolveError::DuplicateInterfaceName(m) => {
                let mut r = String::new();
                r.append("Duplicate interface_name ");
                r.append(m.as_str());
                r
            },
        }
    }
}

impl ConfigError {
    /// Describes the error, naming the task when it is known.
    pub fn message(&self) -> (r: String)
        ensures
            r@ == match self {
                ConfigError::TaskValidation { task_id, error } => spec_config_message(Some(*task_id), error@),
                ConfigError::Other(error) => spec_config_message(None, error@),
            },
    {
        match self {
            ConfigError::TaskValidation { task_id, error } => {
                proof {
                    reveal_strlit("Task ");
                    reveal_strlit(": ");
                }
                let mut r = String::new();
                r.append("Task ");
                append_signed_decimal(&mut r, *task_id);
                r.append(": ");
                let m = error.message();
                r.append(m.as_str());
                assert(r@ =~= spec_config_message(Some(*task_id), error@));
                r
            },
            ConfigError::Other(error) => error.message(),
        }
    }
}

} // verus!
