//! Handlers for disruptive app behaviour: disabling launcher activities, and binding services
//! with the flag that allows background activity starts.
use crate::atom::{views, AtomWriter, CodegenAtom, CodegenAtomView};
use crate::bpf_handler::{plan_handled_as, write_outcome, HandlerError};
use crate::bridge_service::{
    string_entry, BridgeError, BridgeEvent, BridgeEventView, DeviceProperties, EntryValueView, PayloadId,
    UprobeStatsBridgeService,
};
use crate::config_resolver::ResolvedTask;
use crate::error::UprobeStatsError;
use crate::string::{
    bytes_as_nonempty_str, bytes_as_str, spec_bytes_as_nonempty_str, spec_bytes_as_str, str_eq, StringError,
};
use vstd::prelude::*;

verus! {

/// The ring buffer of component enabled setting changes.
pub const COMPONENT_ENABLED_SETTING_MAP_PATH: &'static str = "/sys/fs/bpf/uprobestats/map_DisruptiveApp_ComponentEnabledSetting_output_buf";

/// The ring buffer of service bindings.
pub const BIND_SERVICE_LOCKED_MAP_PATH: &'static str = "/sys/fs/bpf/uprobestats/map_DisruptiveApp_BindServiceLocked_output_buf";

/// `PackageManager#COMPONENT_ENABLED_STATE_DISABLED`; every state from it on is a disabled one.
pub const COMPONENT_ENABLED_STATE_DISABLED: i32 = 2;

/// `Context.BIND_ALLOW_BACKGROUND_ACTIVITY_STARTS`.
pub const BIND_ALLOW_BACKGROUND_ACTIVITY_STARTS: i64 = 0x00100000;

/// A change of a component's enabled setting, as the BPF program reports it.
#[derive(Debug, Clone, PartialEq, Eq)]
pub struct ComponentEnabledSetting {
    /// Negative when the BPF program failed.
    pub error_code: i64,
    /// The component's package, a NUL-terminated C string.
    pub package_name: Vec<u8>,
    /// The component's class, a NUL-terminated C string.
    pub class_name: Vec<u8>,
    /// The new enabled state.
    pub new_state: i32,
    /// The package that made the change, a NUL-terminated C string (may be empty).
    pub calling_package_name: Vec<u8>,
}

/// What the bridge service answered while a component change was handled: whether the
/// component is a launcher activity, the caller's uid, and the component package's uid as
/// asked for the atom and for the event.
pub struct LauncherAnswers {
    /// Whether the component is a launcher activity.
    pub is_launcher: Result<bool, BridgeError>,
    /// The uid of the calling package.
    pub calling_uid: Result<i32, BridgeError>,
    /// The uid of the component's package, for the atom.
    pub disabled_uid: Result<i32, BridgeError>,
    /// The uid of the component's package, for the event.
    pub event_uid: Result<i32, BridgeError>,
}

/// The package whose uid stands for a caller: the shell reports itself as "shell".
pub open spec fn spec_uid_package(calling_package: Seq<char>) -> Seq<char> {
    if calling_package == "shell"@ {
        "com.android.shell"@
    } else {
        calling_package
    }
}

/// The package whose uid stands for a caller (`spec_uid_package`).
pub fn uid_package(calling_package: &str) -> (r: &str)
    ensures
        r@ == spec_uid_package(calling_package@),
{
    if str_eq(calling_package, "shell") {
        "com.android.shell"
    } else {
        calling_package
    }
}

/// The event telling the framework that a launcher activity was disabled.
pub open spec fn spec_disabled_launcher_event(
    uid: i32,
    now_ms: i64,
    package_name: Seq<char>,
    class_name: Seq<char>,
    calling_package_name: Seq<char>,
) -> BridgeEventView {
    BridgeEventView {
        uid,
        timestamp_ms: now_ms,
        payload_id: PayloadId::DisabledLauncherActivity,
        payload: seq![
            ("PACKAGE_NAME"@, EntryValueView::StringValue(package_name)),
            ("CLASS_NAME"@, EntryValueView::StringValue(class_name)),
            ("CALLING_PACKAGE_NAME"@, EntryValueView::StringValue(calling_package_name)),
        ],
    }
}

/// The strings of a component change (package, class, caller), or why it is refused: an
/// error code of the BPF program, or a string that cannot be read (the package and class
/// must not be empty).
pub open spec fn spec_component_strings(data: ComponentEnabledSetting) -> Result<(Seq<char>, Seq<char>, Seq<char>), HandlerError> {
    if data.error_code < 0 {
        Err(HandlerError::Uprobestats(UprobeStatsError::BpfProgramError(data.error_code)))
    } else {
        match spec_bytes_as_nonempty_str(data.package_name@) {
            Err(e) => Err(HandlerError::InvalidString(e)),
            Ok(package) => match spec_bytes_as_nonempty_str(data.class_name@) {
                Err(e) => Err(HandlerError::InvalidString(e)),
                Ok(class) => match spec_bytes_as_str(data.calling_package_name@) {
                    Err(e) => Err(HandlerError::InvalidString(e)),
                    Ok(caller) => Ok((package, class, caller)),
                },
            },
        }
    }
}

/// The strings of a component change (`spec_component_strings`).
fn component_strings(data: &ComponentEnabledSetting) -> (r: Result<(String, String, String), HandlerError>)
    ensures
        match r {
            Ok((package, class, caller)) => spec_component_strings(*data) == Ok::<
                (Seq<char>, Seq<char>, Seq<char>),
                HandlerError,
            >((package@, class@, caller@)),
            Err(e) => spec_component_strings(*data) == Err::<(Seq<char>, Seq<char>, Seq<char>), HandlerError>(e),
        },
{
    if data.error_code < 0 {
        return Err(HandlerError::Uprobestats(UprobeStatsError::BpfProgramError(data.error_code)));
    }
    let package_name = match bytes_as_nonempty_str(data.package_name.as_slice()) {
        Ok(s) => s,
        Err(e) => {
            return Err(HandlerError::InvalidString(e));
        },
    };
    let class_name = match bytes_as_nonempty_str(data.class_name.as_slice()) {
        Ok(s) => s,
        Err(e) => {
            return Err(HandlerError::InvalidString(e));
        },
    };
    let calling_package_name = match bytes_as_str(data.calling_package_name.as_slice()) {
        Ok(s) => s,
        Err(e) => {
            return Err(HandlerError::InvalidString(e));
        },
    };
    Ok((package_name, class_name, calling_package_name))
}

/// The atoms the component handler writes and what it does after them, given the device's
/// build type and the bridge service's answers. Only a change to a disabled state counts;
/// the setting atom is logged on non-user builds; the uids atom and the event only for a
/// launcher activity, the uids atom only with a known caller.
pub open spec fn spec_component_plan(
    data: ComponentEnabledSetting,
    user_build: bool,
    now_ms: i64,
    ans: LauncherAnswers,
) -> (Seq<CodegenAtomView>, Result<Option<(BridgeEventView, bool)>, HandlerError>) {
    match spec_component_strings(data) {
        Err(e) => (Seq::empty(), Err(e)),
        Ok((package, class, caller)) => if data.new_state < COMPONENT_ENABLED_STATE_DISABLED {
                        (Seq::empty(), Ok(None))
                    } else {
                        match ans.is_launcher {
                            Err(e) => (Seq::empty(), Err(HandlerError::Bridge(e))),
                            Ok(is_launcher) => {
                                let setting: Seq<CodegenAtomView> = if user_build {
                                    Seq::empty()
                                } else {
                                    seq![CodegenAtomView::SetComponentEnabledSettingReported {
                                        package_name: package,
                                        class_name: class,
                                        new_state: data.new_state,
                                        calling_package_name: caller,
                                        is_launcher_activity: is_launcher,
                                    }]
                                };
                                let tail = if is_launcher {
                                    match ans.event_uid {
                                        Err(e) => Err(HandlerError::Bridge(e)),
                                        Ok(u) => Ok(
                                            Some((spec_disabled_launcher_event(u, now_ms, package, class, caller), false)),
                                        ),
                                    }
                                } else {
                                    Ok(None)
                                };
                                if is_launcher && caller.len() > 0 {
                                    match ans.calling_uid {
                                        Err(e) => (setting, Err(HandlerError::Bridge(e))),
                                        Ok(cu) => match ans.disabled_uid {
                                            Err(e) => (setting, Err(HandlerError::Bridge(e))),
                                            Ok(du) => (
                                                setting.push(
                                                    CodegenAtomView::DisabledLauncherActivityUidsReported {
                                                        calling_uid: cu,
                                                        disabled_activity_uid: du,
                                                    },
                                                ),
                                                tail,
                                            ),
                                        },
                                    }
                                } else {
                                    (setting, tail)
                                }
                            },
                        }
                    },
    }
}

/// The number of setting atoms the component handler writes: none on user builds.
pub open spec fn setting_atoms(user_build: bool) -> int {
    if user_build {
        0
    } else {
        1
    }
}

/// What a component change logs follows the item and the bridge's answers: the setting atom
/// carries the component's package and class, the new state, the caller and the bridge's
/// launcher verdict (so it reports a non-launcher component as one); the uids atom carries
/// the uids the bridge gave, and comes only for a launcher activity; a component that is
/// not a launcher activity is logged at most once and sends no event; a sent event is for a
/// launcher activity, with the uid the bridge gave for the event.
pub proof fn lemma_component_logs_follow_answers(
    data: ComponentEnabledSetting,
    user_build: bool,
    now_ms: i64,
    ans: LauncherAnswers,
)
    ensures
        ({
            let (atoms, tail) = spec_component_plan(data, user_build, now_ms, ans);
            &&& forall|k: int|
                0 <= k < atoms.len() ==> (#[trigger] atoms[k] matches CodegenAtomView::SetComponentEnabledSettingReported {
                    package_name: p,
                    class_name: c,
                    new_state: st,
                    calling_package_name: caller,
                    is_launcher_activity: l,
                } ==> {
                    &&& ans.is_launcher == Ok::<bool, BridgeError>(l)
                    &&& !user_build
                    &&& st == data.new_state
                    &&& spec_bytes_as_nonempty_str(data.package_name@) == Ok::<Seq<char>, StringError>(p)
                    &&& spec_bytes_as_nonempty_str(data.class_name@) == Ok::<Seq<char>, StringError>(c)
                    &&& spec_bytes_as_str(data.calling_package_name@) == Ok::<Seq<char>, StringError>(caller)
                })
            &&& forall|k: int|
                0 <= k < atoms.len() ==> (#[trigger] atoms[k] matches CodegenAtomView::DisabledLauncherActivityUidsReported {
                    calling_uid: cu,
                    disabled_activity_uid: du,
                } ==> {
                    &&& ans.is_launcher == Ok::<bool, BridgeError>(true)
                    &&& ans.calling_uid == Ok::<i32, BridgeError>(cu)
                    &&& ans.disabled_uid == Ok::<i32, BridgeError>(du)
                })
            &&& ans.is_launcher == Ok::<bool, BridgeError>(false) ==> atoms.len() <= 1 && !(tail matches Ok(Some(_)))
            &&& (!user_build && spec_component_strings(data) is Ok && data.new_state >= COMPONENT_ENABLED_STATE_DISABLED
                && ans.is_launcher is Ok) ==> (atoms.len() >= 1 && atoms[0] is SetComponentEnabledSettingReported)
            &&& data.new_state < COMPONENT_ENABLED_STATE_DISABLED ==> atoms.len() == 0 && !(tail matches Ok(Some(_)))
            &&& tail matches Ok(Some((ev, _))) ==> ans.is_launcher == Ok::<bool, BridgeError>(true) && ans.event_uid
                == Ok::<i32, BridgeError>(ev.uid)
            &&& tail matches Ok(Some((ev, flush))) ==> {
                &&& !flush
                &&& ev.timestamp_ms == now_ms
                &&& ev.payload_id == PayloadId::DisabledLauncherActivity
                &&& spec_bytes_as_nonempty_str(data.package_name@) matches Ok(p) && spec_bytes_as_nonempty_str(
                    data.class_name@,
                ) matches Ok(c) && spec_bytes_as_str(data.calling_package_name@) matches Ok(caller) && ev.payload
                    == seq![
                    ("PACKAGE_NAME"@, EntryValueView::StringValue(p)),
                    ("CLASS_NAME"@, EntryValueView::StringValue(c)),
                    ("CALLING_PACKAGE_NAME"@, EntryValueView::StringValue(caller)),
                ]
            }
        }),
{
}

/// The answers a component change was handled with are the bridge service's answers to the
/// questions the handler asked, given that `written` atoms reached the writer: whether the
/// component (package and class, as relaunched) is a launcher activity; for a launcher
/// activity with a known caller, once the setting atom is written, the uid of the caller's
/// package (`spec_uid_package`) and, if known, the uid of the component's package; and for
/// the event, once every atom is written, the uid of the component's package.
pub open spec fn component_answers_asked<B: UprobeStatsBridgeService>(
    bridge: B,
    data: ComponentEnabledSetting,
    user_build: bool,
    ans: LauncherAnswers,
    written: int,
) -> bool {
    data.new_state >= COMPONENT_ENABLED_STATE_DISABLED ==> match spec_component_strings(data) {
        Ok((package, class, caller)) => {
            let s = setting_atoms(user_build);
            let launcher = ans.is_launcher == Ok::<bool, BridgeError>(true);
            &&& bridge.launcher_answer(package, class, true, ans.is_launcher)
            &&& (launcher && caller.len() > 0 && written >= s ==> bridge.uid_answer(
                spec_uid_package(caller),
                ans.calling_uid,
            ) && (ans.calling_uid is Ok ==> bridge.uid_answer(package, ans.disabled_uid)))
            &&& (launcher && (if caller.len() > 0 {
                ans.calling_uid is Ok && ans.disabled_uid is Ok && written >= s + 1
            } else {
                written >= s
            }) ==> bridge.uid_answer(package, ans.event_uid))
        },
        _ => true,
    }
}

/// The event telling the framework that a launcher activity was disabled.
fn disabled_launcher_event(
    uid: i32,
    now_ms: i64,
    package_name: &str,
    class_name: &str,
    calling_package_name: &str,
) -> (r: BridgeEvent)
    ensures
        r@ == spec_disabled_launcher_event(uid, now_ms, package_name@, class_name@, calling_package_name@),
{
    let mut payload = Vec::new();
    payload.push(string_entry("PACKAGE_NAME", package_name));
    payload.push(string_entry("CLASS_NAME", class_name));
    payload.push(string_entry("CALLING_PACKAGE_NAME", calling_package_name));
    let r = BridgeEvent { uid, timestamp_ms: now_ms, payload_id: PayloadId::DisabledLauncherActivity, payload };
    assert(r@.payload =~= spec_disabled_launcher_event(
        uid,
        now_ms,
        package_name@,
        class_name@,
        calling_package_name@,
    ).payload);
    r
}

/// What a handler does after its atoms, by the view of the event it sends.
pub open spec fn tail_view(
    tail: Result<Option<(BridgeEvent, bool)>, HandlerError>,
) -> Result<Option<(BridgeEventView, bool)>, HandlerError> {
    match tail {
        Ok(Some((e, flush))) => Ok(Some((e@, flush))),
        Ok(None) => Ok(None),
        Err(e) => Err(e),
    }
}

/// The atoms the component handler writes and what it does after them, given the device's
/// build type and the bridge service's answers (`spec_component_plan`).
pub fn component_outcome(data: &ComponentEnabledSetting, user_build: bool, now_ms: i64, ans: LauncherAnswers) -> (r: (
    Vec<CodegenAtom>,
    Result<Option<(BridgeEvent, bool)>, HandlerError>,
))
    ensures
        views(r.0@) == spec_component_plan(*data, user_build, now_ms, ans).0,
        tail_view(r.1) == spec_component_plan(*data, user_build, now_ms, ans).1,
{
    let ghost answers = ans;
    let mut atoms: Vec<CodegenAtom> = Vec::new();
    assert(views(atoms@) =~= Seq::<CodegenAtomView>::empty());
    let (package_name, class_name, calling_package_name) = match component_strings(data) {
        Ok(strings) => strings,
        Err(e) => {
            return (atoms, Err(e));
        },
    };
    if data.new_state < COMPONENT_ENABLED_STATE_DISABLED {
        return (atoms, Ok(None));
    }
    let is_launcher = match ans.is_launcher {
        Ok(b) => b,
        Err(e) => {
            return (atoms, Err(HandlerError::Bridge(e)));
        },
    };
    if !user_build {
        atoms.push(
            CodegenAtom::SetComponentEnabledSettingReported {
                package_name: package_name.clone(),
                class_name: class_name.clone(),
                new_state: data.new_state,
                calling_package_name: calling_package_name.clone(),
                is_launcher_activity: is_launcher,
            },
        );
    }
    let ghost setting = views(atoms@);
    assert(setting =~= spec_component_plan(*data, user_build, now_ms, answers).0.take(setting.len() as int));
    if is_launcher && calling_package_name.as_str().unicode_len() > 0 {
        let calling_uid = match ans.calling_uid {
            Ok(u) => u,
            Err(e) => {
                return (atoms, Err(HandlerError::Bridge(e)));
            },
        };
        let disabled_activity_uid = match ans.disabled_uid {
            Ok(u) => u,
            Err(e) => {
                return (atoms, Err(HandlerError::Bridge(e)));
            },
        };
        atoms.push(CodegenAtom::DisabledLauncherActivityUidsReported { calling_uid, disabled_activity_uid });
        assert(views(atoms@) =~= setting.push(
            CodegenAtomView::DisabledLauncherActivityUidsReported { calling_uid, disabled_activity_uid },
        ));
    }
    let tail = if is_launcher {
        match ans.event_uid {
            Ok(u) => Ok(
                Some(
                    (
                        disabled_launcher_event(
                            u,
                            now_ms,
                            package_name.as_str(),
                            class_name.as_str(),
                            calling_package_name.as_str(),
                        ),
                        false,
                    ),
                ),
            ),
            Err(e) => Err(HandlerError::Bridge(e)),
        }
    } else {
        Ok(None)
    };
    (atoms, tail)
}

/// The atoms the binding handler writes and what it does after them, given the device's
/// build type and the bridge service's answers (`spec_bind_plan`).
pub fn bind_outcome(data: &BindServiceLocked, user_build: bool, now_ms: i64, ans: BindAnswers) -> (r: (
    Vec<CodegenAtom>,
    Result<Option<(BridgeEvent, bool)>, HandlerError>,
))
    ensures
        views(r.0@) == spec_bind_plan(*data, user_build, now_ms, ans).0,
        tail_view(r.1) == spec_bind_plan(*data, user_build, now_ms, ans).1,
{
    let ghost answers = ans;
    let mut atoms: Vec<CodegenAtom> = Vec::new();
    assert(views(atoms@) =~= Seq::<CodegenAtomView>::empty());
    let (calling_package, intent_package, intent_action, component_package, component_class) = match bind_strings(
        data,
    ) {
        Ok(strings) => strings,
        Err(e) => {
            return (atoms, Err(e));
        },
    };
    if data.bind_flags & BIND_ALLOW_BACKGROUND_ACTIVITY_STARTS == 0 {
        return (atoms, Ok(None));
    }
    if !user_build {
        atoms.push(
            CodegenAtom::BindServiceLockedWithBalFlagsReported {
                intent_package: intent_package.clone(),
                flags: data.bind_flags,
                calling_package: calling_package.clone(),
                intent_action: intent_action.clone(),
                intent_component_name_package: component_package.clone(),
                intent_component_name_class: component_class.clone(),
            },
        );
    }
    let ghost flags_atom = views(atoms@);
    assert(flags_atom =~= spec_bind_plan(*data, user_build, now_ms, answers).0.take(flags_atom.len() as int));
    let bindee = if intent_package.as_str().unicode_len() > 0 {
        intent_package.as_str()
    } else {
        component_package.as_str()
    };
    if calling_package.as_str().unicode_len() > 0 && bindee.unicode_len() > 0 {
        let binder_uid = match ans.binder_uid {
            Ok(u) => u,
            Err(e) => {
                return (atoms, Err(HandlerError::Bridge(e)));
            },
        };
        let bindee_uid = match ans.bindee_uid {
            Ok(u) => u,
            Err(e) => {
                return (atoms, Err(HandlerError::Bridge(e)));
            },
        };
        atoms.push(CodegenAtom::BindServiceLockedWithBalFlagsUidsReported { binder_uid, bindee_uid });
        assert(views(atoms@) =~= flags_atom.push(
            CodegenAtomView::BindServiceLockedWithBalFlagsUidsReported { binder_uid, bindee_uid },
        ));
    }
    let event = bal_event(
        now_ms,
        calling_package.as_str(),
        intent_package.as_str(),
        intent_action.as_str(),
        component_package.as_str(),
        component_class.as_str(),
    );
    (atoms, Ok(Some((event, false))))
}

/// A failed write after `k` atoms of `atoms` were written is described by `write_outcome`.
proof fn lemma_failed_write<V>(before: Seq<V>, after: Seq<V>, atoms: Seq<V>, k: int)
    requires
        0 <= k < atoms.len(),
        after == before + atoms.take(k),
    ensures
        write_outcome(before, after, atoms, false),
{
}

/// Handler for component disabling events.
pub struct ComponentEnabledSettingHandler<A, B, D> {
    /// Where the atoms go.
    pub writer: A,
    /// The bridge service that is asked about the packages and told of the event.
    pub bridge_service: B,
    /// The device's properties.
    pub device_properties: D,
}

impl<A: AtomWriter<CodegenAtom>, B: UprobeStatsBridgeService, D: DeviceProperties> ComponentEnabledSettingHandler<A, B, D> {
    /// A handler writing to `writer`, asking and telling `bridge_service`.
    pub fn new(writer: A, bridge_service: B, device_properties: D) -> (r: Self)
        ensures
            r.writer == writer,
            r.bridge_service == bridge_service,
            r.device_properties == device_properties,
    {
        ComponentEnabledSettingHandler { writer, bridge_service, device_properties }
    }

    fn handle(&mut self, data: &ComponentEnabledSetting, now_ms: i64) -> (out: (Result<(), HandlerError>, Ghost<LauncherAnswers>))
        ensures
            plan_handled_as(
                spec_component_plan(*data, old(self).device_properties.user_build(), now_ms, out.1@),
                old(self).writer.written(),
                final(self).writer.written(),
                old(self).bridge_service.enqueued(),
                final(self).bridge_service.enqueued(),
                out.0,
                old(self).writer.reliable(),
            ),
            component_answers_asked(
                old(self).bridge_service,
                *data,
                old(self).device_properties.user_build(),
                out.1@,
                final(self).writer.written().len() - old(self).writer.written().len(),
            ),
            final(self).writer.reliable() == old(self).writer.reliable(),
            final(self).device_properties == old(self).device_properties,
    {
        let ghost mut ans = LauncherAnswers {
            is_launcher: Ok(false),
            calling_uid: Ok(0),
            disabled_uid: Ok(0),
            event_uid: Ok(0),
        };
        let ghost w0 = self.writer.written();
        let (package_name, class_name, calling_package_name) = match component_strings(data) {
            Ok(strings) => strings,
            Err(e) => {
                return (Err(e), Ghost(ans));
            },
        };
        if data.new_state < COMPONENT_ENABLED_STATE_DISABLED {
            return (Ok(()), Ghost(ans));
        }
        let launcher = self.bridge_service.is_launcher_activity(package_name.as_str(), class_name.as_str(), true);
        proof {
            ans = LauncherAnswers { is_launcher: launcher, ..ans };
        }
        let is_launcher = match launcher {
            Ok(b) => b,
            Err(e) => {
                return (Err(HandlerError::Bridge(e)), Ghost(ans));
            },
        };
        let ghost planned = spec_component_plan(*data, self.device_properties.user_build(), now_ms, ans);
        if !self.device_properties.is_user_build() {
            let atom = CodegenAtom::SetComponentEnabledSettingReported {
                package_name: package_name.clone(),
                class_name: class_name.clone(),
                new_state: data.new_state,
                calling_package_name: calling_package_name.clone(),
                is_launcher_activity: is_launcher,
            };
            match self.writer.write(atom) {
                Ok(()) => {},
                Err(e) => {
                    proof {
                        assert(w0 + spec_component_plan(*data, self.device_properties.user_build(), now_ms, ans).0.take(0) =~= w0);
                        lemma_failed_write(w0, self.writer.written(), spec_component_plan(*data, self.device_properties.user_build(), now_ms, ans).0, 0);
                    }
                    return (Err(HandlerError::Write(e)), Ghost(ans));
                },
            }
        }
        let ghost w1 = self.writer.written();
        if is_launcher && calling_package_name.as_str().unicode_len() > 0 {
            let calling = self.bridge_service.get_uid_for_package(uid_package(calling_package_name.as_str()));
            proof {
                ans = LauncherAnswers { calling_uid: calling, ..ans };
            }
            let calling_uid = match calling {
                Ok(u) => u,
                Err(e) => {
                    assert(w1 =~= w0 + spec_component_plan(*data, self.device_properties.user_build(), now_ms, ans).0);
                    return (Err(HandlerError::Bridge(e)), Ghost(ans));
                },
            };
            let disabled = self.bridge_service.get_uid_for_package(package_name.as_str());
            proof {
                ans = LauncherAnswers { disabled_uid: disabled, ..ans };
            }
            let disabled_activity_uid = match disabled {
                Ok(u) => u,
                Err(e) => {
                    assert(w1 =~= w0 + spec_component_plan(*data, self.device_properties.user_build(), now_ms, ans).0);
                    return (Err(HandlerError::Bridge(e)), Ghost(ans));
                },
            };
            match self.writer.write(CodegenAtom::DisabledLauncherActivityUidsReported { calling_uid, disabled_activity_uid }) {
                Ok(()) => {},
                Err(e) => {
                    proof {
                        let atoms = spec_component_plan(*data, self.device_properties.user_build(), now_ms, ans).0;
                        assert(w1 =~= w0 + atoms.take(atoms.len() - 1));
                        lemma_failed_write(w0, self.writer.written(), atoms, atoms.len() - 1);
                    }
                    return (Err(HandlerError::Write(e)), Ghost(ans));
                },
            }
        }
        assert(self.writer.written() =~= w0 + spec_component_plan(*data, self.device_properties.user_build(), now_ms, ans).0);
        if is_launcher {
            let event_uid = self.bridge_service.get_uid_for_package(package_name.as_str());
            proof {
                ans = LauncherAnswers { event_uid: event_uid, ..ans };
            }
            let uid = match event_uid {
                Ok(u) => u,
                Err(e) => {
                    return (Err(HandlerError::Bridge(e)), Ghost(ans));
                },
            };
            let event = disabled_launcher_event(
                uid,
                now_ms,
                package_name.as_str(),
                class_name.as_str(),
                calling_package_name.as_str(),
            );
            match self.bridge_service.enqueue_event(event, false) {
                Ok(()) => {},
                Err(e) => {
                    return (Err(HandlerError::Bridge(e)), Ghost(ans));
                },
            }
        }
        (Ok(()), Ghost(ans))
    }

    /// Handles a change of a component's enabled setting with the bridge service's answers
    /// to the questions it asks (`component_answers_asked`); `now_ms` is the time the event
    /// carries.
    pub fn on_item(&mut self, _task: &ResolvedTask, data: &ComponentEnabledSetting, now_ms: i64) -> (r: Result<(), HandlerError>)
        ensures
            exists|ans: LauncherAnswers|
                plan_handled_as(
                    #[trigger] spec_component_plan(*data, old(self).device_properties.user_build(), now_ms, ans),
                    old(self).writer.written(),
                    final(self).writer.written(),
                    old(self).bridge_service.enqueued(),
                    final(self).bridge_service.enqueued(),
                    r,
                    old(self).writer.reliable(),
                ) && component_answers_asked(
                    old(self).bridge_service,
                    *data,
                    old(self).device_properties.user_build(),
                    ans,
                    final(self).writer.written().len() - old(self).writer.written().len(),
                ),
            final(self).writer.reliable() == old(self).writer.reliable(),
            final(self).device_properties == old(self).device_properties,
    {
        let (r, ans) = self.handle(data, now_ms);
        r
    }
}

/// A service binding, as the BPF program reports it.
#[derive(Debug, Clone, PartialEq, Eq)]
pub struct BindServiceLocked {
    /// Negative when the BPF program failed.
    pub error_code: i64,
    /// The package that binds, a NUL-terminated C string.
    pub calling_package: Vec<u8>,
    /// The package of the intent, a NUL-terminated C string.
    pub intent_package: Vec<u8>,
    /// The action of the intent, a NUL-terminated C string.
    pub intent_action: Vec<u8>,
    /// The package of the intent's component, a NUL-terminated C string.
    pub intent_component_name_package: Vec<u8>,
    /// The class of the intent's component, a NUL-terminated C string.
    pub intent_component_name_class: Vec<u8>,
    /// The bind flags.
    pub bind_flags: i64,
}

/// What the bridge service answered while a binding was handled: the uids of the binding
/// and of the bound package.
pub struct BindAnswers {
    /// The uid of the binding package.
    pub binder_uid: Result<i32, BridgeError>,
    /// The uid of the bound package.
    pub bindee_uid: Result<i32, BridgeError>,
}

/// The event telling the framework of a binding that allows background activity starts.
pub open spec fn spec_bal_event(
    now_ms: i64,
    calling_package: Seq<char>,
    intent_package: Seq<char>,
    intent_action: Seq<char>,
    intent_component_name_package: Seq<char>,
    intent_component_name_class: Seq<char>,
) -> BridgeEventView {
    BridgeEventView {
        uid: 0,
        timestamp_ms: now_ms,
        payload_id: PayloadId::BindAllowBackgroundActivityStarts,
        payload: seq![
            ("CALLING_PACKAGE"@, EntryValueView::StringValue(calling_package)),
            ("INTENT_PACKAGE"@, EntryValueView::StringValue(intent_package)),
            ("INTENT_ACTION"@, EntryValueView::StringValue(intent_action)),
            ("INTENT_COMPONENT_NAME_PACKAGE"@, EntryValueView::StringValue(intent_component_name_package)),
            ("INTENT_COMPONENT_NAME_CLASS"@, EntryValueView::StringValue(intent_component_name_class)),
        ],
    }
}

/// The event telling the framework of a binding that allows background activity starts.
fn bal_event(
    now_ms: i64,
    calling_package: &str,
    intent_package: &str,
    intent_action: &str,
    intent_component_name_package: &str,
    intent_component_name_class: &str,
) -> (r: BridgeEvent)
    ensures
        r@ == spec_bal_event(
            now_ms,
            calling_package@,
            intent_package@,
            intent_action@,
            intent_component_name_package@,
            intent_component_name_class@,
        ),
{
    let mut payload = Vec::new();
    payload.push(string_entry("CALLING_PACKAGE", calling_package));
    payload.push(string_entry("INTENT_PACKAGE", intent_package));
    payload.push(string_entry("INTENT_ACTION", intent_action));
    payload.push(string_entry("INTENT_COMPONENT_NAME_PACKAGE", intent_component_name_package));
    payload.push(string_entry("INTENT_COMPONENT_NAME_CLASS", intent_component_name_class));
    let r = BridgeEvent { uid: 0, timestamp_ms: now_ms, payload_id: PayloadId::BindAllowBackgroundActivityStarts, payload };
    assert(r@.payload =~= spec_bal_event(
        now_ms,
        calling_package@,
        intent_package@,
        intent_action@,
        intent_component_name_package@,
        intent_component_name_class@,
    ).payload);
    r
}

/// The strings of a binding (calling package, intent package, intent action, component
/// package, component class), or why it is refused: an error code of the BPF program, a
/// string that cannot be read, or every string empty.
pub open spec fn spec_bind_strings(data: BindServiceLocked) -> Result<
    (Seq<char>, Seq<char>, Seq<char>, Seq<char>, Seq<char>),
    HandlerError,
> {
    if data.error_code < 0 {
        Err(HandlerError::Uprobestats(UprobeStatsError::BpfProgramError(data.error_code)))
    } else {
        match spec_bytes_as_str(data.calling_package@) {
            Err(e) => Err(HandlerError::InvalidString(e)),
            Ok(calling) => match spec_bytes_as_str(data.intent_package@) {
                Err(e) => Err(HandlerError::InvalidString(e)),
                Ok(intent_package) => match spec_bytes_as_str(data.intent_action@) {
                    Err(e) => Err(HandlerError::InvalidString(e)),
                    Ok(action) => match spec_bytes_as_str(data.intent_component_name_package@) {
                        Err(e) => Err(HandlerError::InvalidString(e)),
                        Ok(component_package) => match spec_bytes_as_str(data.intent_component_name_class@) {
                            Err(e) => Err(HandlerError::InvalidString(e)),
                            Ok(component_class) => if calling.len() == 0 && intent_package.len() == 0
                                && action.len() == 0 && component_package.len() == 0 && component_class.len() == 0 {
                                Err(HandlerError::AllStringsEmpty)
                            } else {
                                Ok((calling, intent_package, action, component_package, component_class))
                            },
                        },
                    },
                },
            },
        }
    }
}

/// The strings of a binding (`spec_bind_strings`).
fn bind_strings(data: &BindServiceLocked) -> (r: Result<(String, String, String, String, String), HandlerError>)
    ensures
        match r {
            Ok((a, b, c, d, e)) => spec_bind_strings(*data) == Ok::<
                (Seq<char>, Seq<char>, Seq<char>, Seq<char>, Seq<char>),
                HandlerError,
            >((a@, b@, c@, d@, e@)),
            Err(x) => spec_bind_strings(*data) == Err::<
                (Seq<char>, Seq<char>, Seq<char>, Seq<char>, Seq<char>),
                HandlerError,
            >(x),
        },
{
    if data.error_code < 0 {
        return Err(HandlerError::Uprobestats(UprobeStatsError::BpfProgramError(data.error_code)));
    }
    let calling_package = match bytes_as_str(data.calling_package.as_slice()) {
        Ok(s) => s,
        Err(e) => {
            return Err(HandlerError::InvalidString(e));
        },
    };
    let intent_package = match bytes_as_str(data.intent_package.as_slice()) {
        Ok(s) => s,
        Err(e) => {
            return Err(HandlerError::InvalidString(e));
        },
    };
    let intent_action = match bytes_as_str(data.intent_action.as_slice()) {
        Ok(s) => s,
        Err(e) => {
            return Err(HandlerError::InvalidString(e));
        },
    };
    let component_package = match bytes_as_str(data.intent_component_name_package.as_slice()) {
        Ok(s) => s,
        Err(e) => {
            return Err(HandlerError::InvalidString(e));
        },
    };
    let component_class = match bytes_as_str(data.intent_component_name_class.as_slice()) {
        Ok(s) => s,
        Err(e) => {
            return Err(HandlerError::InvalidString(e));
        },
    };
    if calling_package.as_str().unicode_len() == 0 && intent_package.as_str().unicode_len() == 0
        && intent_action.as_str().unicode_len() == 0 && component_package.as_str().unicode_len() == 0
        && component_class.as_str().unicode_len() == 0 {
        return Err(HandlerError::AllStringsEmpty);
    }
    Ok((calling_package, intent_package, intent_action, component_package, component_class))
}

/// The atoms the binding handler writes and what it does after them, given the device's
/// build type and the bridge service's answers. Only a binding with the background
/// activity start flag counts; the flags atom is logged on non-user builds, the uids atom
/// when both the binding and the bound package are known (the bound package being the
/// intent's package, or else its component's), and the event always.
pub open spec fn spec_bind_plan(
    data: BindServiceLocked,
    user_build: bool,
    now_ms: i64,
    ans: BindAnswers,
) -> (Seq<CodegenAtomView>, Result<Option<(BridgeEventView, bool)>, HandlerError>) {
    match spec_bind_strings(data) {
        Err(e) => (Seq::empty(), Err(e)),
        Ok((calling, intent_package, action, component_package, component_class)) => if data.bind_flags
            & BIND_ALLOW_BACKGROUND_ACTIVITY_STARTS == 0 {
            (Seq::empty(), Ok(None))
                            } else {
                                let flags_atom: Seq<CodegenAtomView> = if user_build {
                                    Seq::empty()
                                } else {
                                    seq![CodegenAtomView::BindServiceLockedWithBalFlagsReported {
                                        intent_package,
                                        flags: data.bind_flags,
                                        calling_package: calling,
                                        intent_action: action,
                                        intent_component_name_package: component_package,
                                        intent_component_name_class: component_class,
                                    }]
                                };
                                let bindee = if intent_package.len() > 0 {
                                    intent_package
                                } else {
                                    component_package
                                };
                                let tail = Ok(
                                    Some(
                                        (
                                            spec_bal_event(
                                                now_ms,
                                                calling,
                                                intent_package,
                                                action,
                                                component_package,
                                                component_class,
                                            ),
                                            false,
                                        ),
                                    ),
                                );
                                if calling.len() > 0 && bindee.len() > 0 {
                                    match ans.binder_uid {
                                        Err(e) => (flags_atom, Err(HandlerError::Bridge(e))),
                                        Ok(binder_uid) => match ans.bindee_uid {
                                            Err(e) => (flags_atom, Err(HandlerError::Bridge(e))),
                                            Ok(bindee_uid) => (
                                                flags_atom.push(
                                                    CodegenAtomView::BindServiceLockedWithBalFlagsUidsReported {
                                                        binder_uid,
                                                        bindee_uid,
                                                    },
                                                ),
                                                tail,
                                            ),
                                        },
                                    }
                                } else {
                                    (flags_atom, tail)
                                }
                            },
    }
}

/// What a binding logs follows the item and the bridge's answers: the flags atom carries the
/// item's strings and bind flags, which hold the background activity start flag; the uids
/// atom carries the uids the bridge gave for the binding and the bound package; every
/// binding with the flag (and readable, not all empty strings) sends the event, with the
/// item's strings and no uid.
pub proof fn lemma_bind_logs_follow_answers(data: BindServiceLocked, user_build: bool, now_ms: i64, ans: BindAnswers)
    ensures
        ({
            let (atoms, tail) = spec_bind_plan(data, user_build, now_ms, ans);
            &&& forall|k: int|
                0 <= k < atoms.len() ==> (#[trigger] atoms[k] matches CodegenAtomView::BindServiceLockedWithBalFlagsReported {
                    intent_package: ip,
                    flags: f,
                    calling_package: cp,
                    intent_action: ia,
                    intent_component_name_package: cnp,
                    intent_component_name_class: cnc,
                } ==> {
                    &&& !user_build
                    &&& f == data.bind_flags
                    &&& f & BIND_ALLOW_BACKGROUND_ACTIVITY_STARTS != 0
                    &&& spec_bytes_as_str(data.intent_package@) == Ok::<Seq<char>, StringError>(ip)
                    &&& spec_bytes_as_str(data.calling_package@) == Ok::<Seq<char>, StringError>(cp)
                    &&& spec_bytes_as_str(data.intent_action@) == Ok::<Seq<char>, StringError>(ia)
                    &&& spec_bytes_as_str(data.intent_component_name_package@) == Ok::<Seq<char>, StringError>(cnp)
                    &&& spec_bytes_as_str(data.intent_component_name_class@) == Ok::<Seq<char>, StringError>(cnc)
                })
            &&& forall|k: int|
                0 <= k < atoms.len() ==> (#[trigger] atoms[k] matches CodegenAtomView::BindServiceLockedWithBalFlagsUidsReported {
                    binder_uid: b,
                    bindee_uid: d,
                } ==> ans.binder_uid == Ok::<i32, BridgeError>(b) && ans.bindee_uid == Ok::<i32, BridgeError>(d))
            &&& (!user_build && spec_bind_strings(data) is Ok && data.bind_flags & BIND_ALLOW_BACKGROUND_ACTIVITY_STARTS
                != 0) ==> (atoms.len() >= 1 && atoms[0] is BindServiceLockedWithBalFlagsReported)
            &&& data.bind_flags & BIND_ALLOW_BACKGROUND_ACTIVITY_STARTS == 0 ==> atoms.len() == 0 && !(tail matches Ok(
                Some(_),
            ))
            &&& spec_bind_strings(data) is Ok && data.bind_flags & BIND_ALLOW_BACKGROUND_ACTIVITY_STARTS != 0
                && (ans.binder_uid is Ok && ans.bindee_uid is Ok) ==> (tail matches Ok(Some((ev, false))) && ev.uid == 0
                && ev.payload_id == PayloadId::BindAllowBackgroundActivityStarts)
            &&& tail matches Ok(Some((ev, flush))) ==> {
                &&& !flush
                &&& ev.uid == 0
                &&& ev.timestamp_ms == now_ms
                &&& ev.payload_id == PayloadId::BindAllowBackgroundActivityStarts
                &&& spec_bytes_as_str(data.calling_package@) matches Ok(cp) && spec_bytes_as_str(data.intent_package@) matches Ok(
                    ip,
                ) && spec_bytes_as_str(data.intent_action@) matches Ok(ia) && spec_bytes_as_str(
                    data.intent_component_name_package@,
                ) matches Ok(cnp) && spec_bytes_as_str(data.intent_component_name_class@) matches Ok(cnc) && ev.payload
                    == seq![
                    ("CALLING_PACKAGE"@, EntryValueView::StringValue(cp)),
                    ("INTENT_PACKAGE"@, EntryValueView::StringValue(ip)),
                    ("INTENT_ACTION"@, EntryValueView::StringValue(ia)),
                    ("INTENT_COMPONENT_NAME_PACKAGE"@, EntryValueView::StringValue(cnp)),
                    ("INTENT_COMPONENT_NAME_CLASS"@, EntryValueView::StringValue(cnc)),
                ]
            }
        }),
{
}

/// The answers a binding was handled with are the bridge service's answers to the
/// questions the handler asked, given that `written` atoms reached the writer: for a binding
/// with the background activity start flag, a known binding package and a known bound
/// package (the intent's package, or else its component's), once the flags atom is written,
/// the uid of the binding package and, if known, the uid of the bound package.
pub open spec fn bind_answers_asked<B: UprobeStatsBridgeService>(
    bridge: B,
    data: BindServiceLocked,
    user_build: bool,
    ans: BindAnswers,
    written: int,
) -> bool {
    data.bind_flags & BIND_ALLOW_BACKGROUND_ACTIVITY_STARTS != 0 ==> match spec_bind_strings(data) {
        Ok((calling, intent_package, _, component_package, _)) => {
            let bindee = if intent_package.len() > 0 {
                intent_package
            } else {
                component_package
            };
            calling.len() > 0 && bindee.len() > 0 && written >= setting_atoms(user_build) ==> bridge.uid_answer(
                calling,
                ans.binder_uid,
            ) && (ans.binder_uid is Ok ==> bridge.uid_answer(bindee, ans.bindee_uid))
        },
        _ => true,
    }
}

/// Handler for bind service with BAL events.
pub struct BindServiceLockedHandler<A, B, D> {
    /// Where the atoms go.
    pub writer: A,
    /// The bridge service that is asked about the packages and told of the event.
    pub bridge_service: B,
    /// The device's properties.
    pub device_properties: D,
}

impl<A: AtomWriter<CodegenAtom>, B: UprobeStatsBridgeService, D: DeviceProperties> BindServiceLockedHandler<A, B, D> {
    /// A handler writing to `writer`, asking and telling `bridge_service`.
    pub fn new(writer: A, bridge_service: B, device_properties: D) -> (r: Self)
        ensures
            r.writer == writer,
            r.bridge_service == bridge_service,
            r.device_properties == device_properties,
    {
        BindServiceLockedHandler { writer, bridge_service, device_properties }
    }

    fn handle(&mut self, data: &BindServiceLocked, now_ms: i64) -> (out: (Result<(), HandlerError>, Ghost<BindAnswers>))
        ensures
            plan_handled_as(
                spec_bind_plan(*data, old(self).device_properties.user_build(), now_ms, out.1@),
                old(self).writer.written(),
                final(self).writer.written(),
                old(self).bridge_service.enqueued(),
                final(self).bridge_service.enqueued(),
                out.0,
                old(self).writer.reliable(),
            ),
            bind_answers_asked(
                old(self).bridge_service,
                *data,
                old(self).device_properties.user_build(),
                out.1@,
                final(self).writer.written().len() - old(self).writer.written().len(),
            ),
            final(self).writer.reliable() == old(self).writer.reliable(),
            final(self).device_properties == old(self).device_properties,
    {
        let ghost mut ans = BindAnswers { binder_uid: Ok(0), bindee_uid: Ok(0) };
        let ghost w0 = self.writer.written();
        let (calling_package, intent_package, intent_action, component_package, component_class) = match bind_strings(
            data,
        ) {
            Ok(strings) => strings,
            Err(e) => {
                return (Err(e), Ghost(ans));
            },
        };
        if data.bind_flags & BIND_ALLOW_BACKGROUND_ACTIVITY_STARTS == 0 {
            return (Ok(()), Ghost(ans));
        }
        if !self.device_properties.is_user_build() {
            let atom = CodegenAtom::BindServiceLockedWithBalFlagsReported {
                intent_package: intent_package.clone(),
                flags: data.bind_flags,
                calling_package: calling_package.clone(),
                intent_action: intent_action.clone(),
                intent_component_name_package: component_package.clone(),
                intent_component_name_class: component_class.clone(),
            };
            match self.writer.write(atom) {
                Ok(()) => {},
                Err(e) => {
                    proof {
                        assert(w0 + spec_bind_plan(*data, self.device_properties.user_build(), now_ms, ans).0.take(0) =~= w0);
                        lemma_failed_write(w0, self.writer.written(), spec_bind_plan(*data, self.device_properties.user_build(), now_ms, ans).0, 0);
                    }
                    return (Err(HandlerError::Write(e)), Ghost(ans));
                },
            }
        }
        let ghost w1 = self.writer.written();
        let bindee = if intent_package.as_str().unicode_len() > 0 {
            intent_package.as_str()
        } else {
            component_package.as_str()
        };
        if calling_package.as_str().unicode_len() > 0 && bindee.unicode_len() > 0 {
            let binder = self.bridge_service.get_uid_for_package(calling_package.as_str());
            proof {
                ans = BindAnswers { binder_uid: binder, ..ans };
            }
            let binder_uid = match binder {
                Ok(u) => u,
                Err(e) => {
                    assert(w1 =~= w0 + spec_bind_plan(*data, self.device_properties.user_build(), now_ms, ans).0);
                    return (Err(HandlerError::Bridge(e)), Ghost(ans));
                },
            };
            let bound = self.bridge_service.get_uid_for_package(bindee);
            proof {
                ans = BindAnswers { bindee_uid: bound, ..ans };
            }
            let bindee_uid = match bound {
                Ok(u) => u,
                Err(e) => {
                    assert(w1 =~= w0 + spec_bind_plan(*data, self.device_properties.user_build(), now_ms, ans).0);
                    return (Err(HandlerError::Bridge(e)), Ghost(ans));
                },
            };
            match self.writer.write(CodegenAtom::BindServiceLockedWithBalFlagsUidsReported { binder_uid, bindee_uid }) {
                Ok(()) => {},
                Err(e) => {
                    proof {
                        let atoms = spec_bind_plan(*data, self.device_properties.user_build(), now_ms, ans).0;
                        assert(w1 =~= w0 + atoms.take(atoms.len() - 1));
                        lemma_failed_write(w0, self.writer.written(), atoms, atoms.len() - 1);
                    }
                    return (Err(HandlerError::Write(e)), Ghost(ans));
                },
            }
        }
        assert(self.writer.written() =~= w0 + spec_bind_plan(*data, self.device_properties.user_build(), now_ms, ans).0);
        let event = bal_event(
            now_ms,
            calling_package.as_str(),
            intent_package.as_str(),
            intent_action.as_str(),
            component_package.as_str(),
            component_class.as_str(),
        );
        match self.bridge_service.enqueue_event(event, false) {
            Ok(()) => (Ok(()), Ghost(ans)),
            Err(e) => (Err(HandlerError::Bridge(e)), Ghost(ans)),
        }
    }

    /// Handles a service binding with the bridge service's answers to the questions it asks
    /// (`bind_answers_asked`); `now_ms` is the time the event carries.
    pub fn on_item(&mut self, _task: &ResolvedTask, data: &BindServiceLocked, now_ms: i64) -> (r: Result<(), HandlerError>)
        ensures
            exists|ans: BindAnswers|
                plan_handled_as(
                    #[trigger] spec_bind_plan(*data, old(self).device_properties.user_build(), now_ms, ans),
                    old(self).writer.written(),
                    final(self).writer.written(),
                    old(self).bridge_service.enqueued(),
                    final(self).bridge_service.enqueued(),
                    r,
                    old(self).writer.reliable(),
                ) && bind_answers_asked(
                    old(self).bridge_service,
                    *data,
                    old(self).device_properties.user_build(),
                    ans,
                    final(self).writer.written().len() - old(self).writer.written().len(),
                ),
            final(self).writer.reliable() == old(self).writer.reliable(),
            final(self).device_properties == old(self).device_properties,
    {
        let (r, ans) = self.handle(data, now_ms);
        r
    }
}

} // verus!
