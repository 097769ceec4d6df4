//! The bridge service inside the framework that the daemon asks about packages and sends
//! dynamic instrumentation events to, and the device properties the handlers consult.
use vstd::prelude::*;

verus! {

/// Why a call to the bridge service failed.
#[derive(Debug, Clone, PartialEq, Eq)]
pub struct BridgeError {
    /// What the service reported.
    pub message: String,
}

/// Which kind of dynamic instrumentation event a payload describes.
#[derive(Debug, Clone, Copy, PartialEq, Eq)]
pub enum PayloadId {
    /// A call on an accessibility service connection.
    A11y,
    /// A runtime permission grant.
    RuntimePermissionGrant,
    /// A launcher activity was disabled.
    DisabledLauncherActivity,
    /// A service was bound with the flag that allows background activity starts.
    BindAllowBackgroundActivityStarts,
    /// A binder transaction.
    BinderTransaction,
}

/// The value of a payload entry.
#[derive(Debug, Clone, PartialEq)]
pub enum EntryValue {
    /// An integer.
    IntValue(i32),
    /// A string.
    StringValue(String),
}

/// The abstract content of an `EntryValue`.
pub enum EntryValueView {
    /// An integer.
    IntValue(i32),
    /// A string.
    StringValue(Seq<char>),
}

impl View for EntryValue {
    type V = EntryValueView;

    open spec fn view(&self) -> EntryValueView {
        match self {
            EntryValue::IntValue(v) => EntryValueView::IntValue(*v),
            EntryValue::StringValue(s) => EntryValueView::StringValue(s@),
        }
    }
}

/// A key/value pair of an event payload.
#[derive(Debug, Clone, PartialEq)]
pub struct Entry {
    /// The key.
    pub key: String,
    /// The value.
    pub value: EntryValue,
}

impl View for Entry {
    type V = (Seq<char>, EntryValueView);

    open spec fn view(&self) -> (Seq<char>, EntryValueView) {
        (self.key@, self.value@)
    }
}

/// An event for the dynamic instrumentation event service.
#[derive(Debug, Clone, PartialEq)]
pub struct BridgeEvent {
    /// The uid the event is about.
    pub uid: i32,
    /// When the event happened, in milliseconds.
    pub timestamp_ms: i64,
    /// What the payload describes.
    pub payload_id: PayloadId,
    /// The data of the event.
    pub payload: Vec<Entry>,
}

/// The abstract content of a `BridgeEvent`.
pub struct BridgeEventView {
    /// The uid the event is about.
    pub uid: i32,
    /// When the event happened, in milliseconds.
    pub timestamp_ms: i64,
    /// What the payload describes.
    pub payload_id: PayloadId,
    /// The entries of the payload, in order.
    pub payload: Seq<(Seq<char>, EntryValueView)>,
}

impl View for BridgeEvent {
    type V = BridgeEventView;

    open spec fn view(&self) -> BridgeEventView {
        BridgeEventView {
            uid: self.uid,
            timestamp_ms: self.timestamp_ms,
            payload_id: self.payload_id,
            payload: self.payload@.map_values(|e: Entry| e@),
        }
    }
}

/// A payload entry holding a string.
pub fn string_entry(key: &str, value: &str) -> (r: Entry)
    ensures
        r@ == (key@, EntryValueView::StringValue(value@)),
{
    Entry { key: String::from_str(key), value: EntryValue::StringValue(String::from_str(value)) }
}

/// A payload entry holding an integer.
pub fn int_entry(key: &str, value: i32) -> (r: Entry)
    ensures
        r@ == (key@, EntryValueView::IntValue(value)),
{
    Entry { key: String::from_str(key), value: EntryValue::IntValue(value) }
}

/// The bridge service (or a stand-in for it).
///
/// Its answers about packages come from the framework. Each query ties its answer to what
/// was asked through a relation (`uid_answer`, `a11y_answer`, `launcher_answer`): the
/// answer is one that the service may give to that question. Which answer that is depends
/// on the framework's state, so the relations promise nothing more.
/// `enqueued` is the sequence of events (with their flush flags) that the service accepted.
pub trait UprobeStatsBridgeService {
    /// The events accepted so far, oldest first, each with its flush flag.
    spec fn enqueued(&self) -> Seq<(BridgeEventView, bool)>;

    /// Whether `r` is an answer the service may give when asked for the uid of the package.
    /// A service that does not define it may give any answer.
    closed spec fn uid_answer(&self, package_name: Seq<char>, r: Result<i32, BridgeError>) -> bool {
        true
    }

    /// Whether `r` is an answer the service may give when asked whether the package has an
    /// enabled accessibility service. A service that does not define it may give any answer.
    closed spec fn a11y_answer(&self, package_name: Seq<char>, r: Result<bool, BridgeError>) -> bool {
        true
    }

    /// Whether `r` is an answer the service may give when asked whether the class of the
    /// package is a launcher activity. A service that does not define it may give any answer.
    closed spec fn launcher_answer(
        &self,
        package_name: Seq<char>,
        class_name: Seq<char>,
        is_relaunch: bool,
        r: Result<bool, BridgeError>,
    ) -> bool {
        true
    }

    /// The uid of the package.
    fn get_uid_for_package(&self, package_name: &str) -> (r: Result<i32, BridgeError>)
        ensures
            self.uid_answer(package_name@, r),
    ;

    /// Whether the package has an enabled accessibility service.
    fn package_has_enabled_accessibility_service(&self, package_name: &str) -> (r: Result<bool, BridgeError>)
        ensures
            self.a11y_answer(package_name@, r),
    ;

    /// Whether the class of the package is a launcher activity.
    fn is_launcher_activity(&self, package_name: &str, class_name: &str, is_relaunch: bool) -> (r: Result<
        bool,
        BridgeError,
    >)
        ensures
            self.launcher_answer(package_name@, class_name@, is_relaunch, r),
    ;

    /// Sends an event; `flush` sends it (with any buffered events) immediately.
    fn enqueue_event(&mut self, event: BridgeEvent, flush: bool) -> (r: Result<(), BridgeError>)
        ensures
            r is Ok ==> final(self).enqueued() == old(self).enqueued().push((event@, flush)),
            r is Err ==> final(self).enqueued() == old(self).enqueued(),
    ;
}

/// A stand-in for the bridge service that answers from fixed tables and keeps every event
/// it is sent.
pub struct RecordingBridgeService {
    /// Known packages and their uids.
    pub uids: Vec<(String, i32)>,
    /// Packages and whether they have an enabled accessibility service.
    pub accessibility_packages: Vec<(String, bool)>,
    /// Package/class pairs and whether they are launcher activities.
    pub launcher_activities: Vec<(String, String, bool)>,
    /// Whether sending an event fails.
    pub fail_enqueue: bool,
    /// The events accepted so far, oldest first, each with its flush flag.
    pub events: Vec<(BridgeEvent, bool)>,
}

/// The message of the error for a package that a stand-in does not know.
pub open spec fn unknown_package_message(package_name: Seq<char>) -> Seq<char> {
    "unknown package: "@ + package_name
}

/// The uid of the first entry of `entries` for the package, if any.
pub open spec fn lookup_uid(entries: Seq<(String, i32)>, package_name: Seq<char>) -> Option<i32>
    decreases entries.len(),
{
    if entries.len() == 0 {
        None
    } else if entries[0].0@ == package_name {
        Some(entries[0].1)
    } else {
        lookup_uid(entries.drop_first(), package_name)
    }
}

/// The answer of the first entry of `entries` for the package, if any.
pub open spec fn lookup_flag(entries: Seq<(String, bool)>, package_name: Seq<char>) -> Option<bool>
    decreases entries.len(),
{
    if entries.len() == 0 {
        None
    } else if entries[0].0@ == package_name {
        Some(entries[0].1)
    } else {
        lookup_flag(entries.drop_first(), package_name)
    }
}

/// The answer of the first entry of `entries` for the package and class, if any.
pub open spec fn lookup_activity(
    entries: Seq<(String, String, bool)>,
    package_name: Seq<char>,
    class_name: Seq<char>,
) -> Option<bool>
    decreases entries.len(),
{
    if entries.len() == 0 {
        None
    } else if entries[0].0@ == package_name && entries[0].1@ == class_name {
        Some(entries[0].2)
    } else {
        lookup_activity(entries.drop_first(), package_name, class_name)
    }
}

/// The error for a package that the stand-in does not know.
fn unknown_package(package_name: &str) -> (r: BridgeError)
    ensures
        r.message@ == unknown_package_message(package_name@),
{
    let mut message = String::from_str("unknown package: ");
    message.append(package_name);
    BridgeError { message }
}

impl RecordingBridgeService {
    /// A stand-in that knows no package and accepts every event.
    pub fn new() -> (r: Self)
        ensures
            r.uids@.len() == 0,
            r.accessibility_packages@.len() == 0,
            r.launcher_activities@.len() == 0,
            r.events@.len() == 0,
            !r.fail_enqueue,
    {
        RecordingBridgeService {
            uids: Vec::new(),
            accessibility_packages: Vec::new(),
            launcher_activities: Vec::new(),
            fail_enqueue: false,
            events: Vec::new(),
        }
    }
}

/// The answer of a stand-in's table: the entry's value, or an error naming the package.
pub open spec fn table_answer<T>(entry: Option<T>, package_name: Seq<char>, r: Result<T, BridgeError>) -> bool {
    match entry {
        Some(v) => r == Ok::<T, BridgeError>(v),
        None => r matches Err(e) && e.message@ == unknown_package_message(package_name),
    }
}

impl UprobeStatsBridgeService for RecordingBridgeService {
    open spec fn enqueued(&self) -> Seq<(BridgeEventView, bool)> {
        self.events@.map_values(|e: (BridgeEvent, bool)| (e.0@, e.1))
    }

    open spec fn uid_answer(&self, package_name: Seq<char>, r: Result<i32, BridgeError>) -> bool {
        table_answer(lookup_uid(self.uids@, package_name), package_name, r)
    }

    open spec fn a11y_answer(&self, package_name: Seq<char>, r: Result<bool, BridgeError>) -> bool {
        table_answer(lookup_flag(self.accessibility_packages@, package_name), package_name, r)
    }

    open spec fn launcher_answer(
        &self,
        package_name: Seq<char>,
        class_name: Seq<char>,
        is_relaunch: bool,
        r: Result<bool, BridgeError>,
    ) -> bool {
        table_answer(lookup_activity(self.launcher_activities@, package_name, class_name), package_name, r)
    }

    /// The uid of the first table entry for the package; an unknown package is an error.
    fn get_uid_for_package(&self, package_name: &str) -> (r: Result<i32, BridgeError>)
        ensures
            match lookup_uid(self.uids@, package_name@) {
                Some(uid) => r == Ok::<i32, BridgeError>(uid),
                None => r matches Err(e) && e.message@ == unknown_package_message(package_name@),
            },
    {
        let mut i: usize = 0;
        assert(self.uids@.skip(0) =~= self.uids@);
        while i < self.uids.len()
            invariant
                i <= self.uids@.len(),
                lookup_uid(self.uids@, package_name@) == lookup_uid(self.uids@.skip(i as int), package_name@),
            decreases self.uids@.len() - i,
        {
            assert(self.uids@.skip(i as int).drop_first() =~= self.uids@.skip(i + 1));
            if crate::string::str_eq(self.uids[i].0.as_str(), package_name) {
                return Ok(self.uids[i].1);
            }
            i = i + 1;
        }
        assert(self.uids@.skip(i as int).len() == 0);
        Err(unknown_package(package_name))
    }

    /// The answer of the first table entry for the package; an unknown package is an error.
    fn package_has_enabled_accessibility_service(&self, package_name: &str) -> (r: Result<bool, BridgeError>)
        ensures
            match lookup_flag(self.accessibility_packages@, package_name@) {
                Some(b) => r == Ok::<bool, BridgeError>(b),
                None => r matches Err(e) && e.message@ == unknown_package_message(package_name@),
            },
    {
        let mut i: usize = 0;
        assert(self.accessibility_packages@.skip(0) =~= self.accessibility_packages@);
        while i < self.accessibility_packages.len()
            invariant
                i <= self.accessibility_packages@.len(),
                lookup_flag(self.accessibility_packages@, package_name@) == lookup_flag(
                    self.accessibility_packages@.skip(i as int),
                    package_name@,
                ),
            decreases self.accessibility_packages@.len() - i,
        {
            assert(self.accessibility_packages@.skip(i as int).drop_first() =~= self.accessibility_packages@.skip(i + 1));
            if crate::string::str_eq(self.accessibility_packages[i].0.as_str(), package_name) {
                return Ok(self.accessibility_packages[i].1);
            }
            i = i + 1;
        }
        assert(self.accessibility_packages@.skip(i as int).len() == 0);
        Err(unknown_package(package_name))
    }

    /// The answer of the first table entry for the package and class, whether or not the
    /// activity is relaunched; an unknown pair is an error naming the package.
    fn is_launcher_activity(&self, package_name: &str, class_name: &str, is_relaunch: bool) -> (r: Result<bool, BridgeError>)
        ensures
            match lookup_activity(self.launcher_activities@, package_name@, class_name@) {
                Some(b) => r == Ok::<bool, BridgeError>(b),
                None => r matches Err(e) && e.message@ == unknown_package_message(package_name@),
            },
    {
        let mut i: usize = 0;
        assert(self.launcher_activities@.skip(0) =~= self.launcher_activities@);
        while i < self.launcher_activities.len()
            invariant
                i <= self.launcher_activities@.len(),
                lookup_activity(self.launcher_activities@, package_name@, class_name@) == lookup_activity(
                    self.launcher_activities@.skip(i as int),
                    package_name@,
                    class_name@,
                ),
            decreases self.launcher_activities@.len() - i,
        {
            assert(self.launcher_activities@.skip(i as int).drop_first() =~= self.launcher_activities@.skip(i + 1));
            if crate::string::str_eq(self.launcher_activities[i].0.as_str(), package_name)
                && crate::string::str_eq(self.launcher_activities[i].1.as_str(), class_name) {
                return Ok(self.launcher_activities[i].2);
            }
            i = i + 1;
        }
        assert(self.launcher_activities@.skip(i as int).len() == 0);
        Err(unknown_package(package_name))
    }

    /// Fails exactly when the stand-in is set to fail; otherwise keeps the event.
    fn enqueue_event(&mut self, event: BridgeEvent, flush: bool) -> (r: Result<(), BridgeError>)
        ensures
            r is Err <==> old(self).fail_enqueue,
            r matches Err(e) ==> e.message@ == "enqueueEvent failed"@,
            final(self).fail_enqueue == old(self).fail_enqueue,
            final(self).uids@ == old(self).uids@,
            final(self).accessibility_packages@ == old(self).accessibility_packages@,
            final(self).launcher_activities@ == old(self).launcher_activities@,
    {
        if self.fail_enqueue {
            return Err(BridgeError { message: String::from_str("enqueueEvent failed") });
        }
        let ghost before = self.events@;
        let ghost ev = event@;
        self.events.push((event, flush));
        assert(self.events@.map_values(|e: (BridgeEvent, bool)| (e.0@, e.1)) =~= before.map_values(
            |e: (BridgeEvent, bool)| (e.0@, e.1),
        ).push((ev, flush)));
        Ok(())
    }
}

/// Properties of a device that can be stubbed for tests.
pub trait DeviceProperties {
    /// Whether this is a user build (as opposed to a userdebug or eng build); a read-only
    /// property of the device.
    spec fn user_build(&self) -> bool;

    /// True if this is a user build (as opposed to a userdebug or eng build).
    fn is_user_build(&self) -> (r: bool)
        ensures
            r == self.user_build(),
    ;
}

/// Device properties given as fixed values.
#[derive(Debug, Clone, Copy)]
pub struct FixedDeviceProperties {
    /// Whether this is a user build.
    pub is_user_build: bool,
}

impl DeviceProperties for FixedDeviceProperties {
    open spec fn user_build(&self) -> bool {
        self.is_user_build
    }

    fn is_user_build(&self) -> (r: bool) {
        self.is_user_build
    }
}

} // verus!
