//! Abstraction for dealing with statsd atoms.
use vstd::prelude::*;

verus! {

/// The views of the values of `s`, in order.
pub open spec fn views<A: View>(s: Seq<A>) -> Seq<A::V> {
    s.map_values(|a: A| a@)
}

/// Why writing an atom to its destination failed.
#[derive(Debug, Clone, PartialEq, Eq)]
pub struct AtomWriteError {
    /// What the destination reported.
    pub reason: String,
}

/// Something that can write atoms. Implemented by statsd libraries, abstracted for tests.
///
/// `written` is the sequence of atoms (by their views) that reached the destination so far.
/// A writer that is `reliable` never fails; one that is not may fail any write, in which
/// case nothing reaches the destination.
pub trait AtomWriter<A: View> {
    /// The atoms written so far, oldest first.
    spec fn written(&self) -> Seq<A::V>;

    /// Whether every write is guaranteed to succeed.
    spec fn reliable(&self) -> bool;

    /// Write the atom to its destination.
    fn write(&mut self, atom: A) -> (r: Result<(), AtomWriteError>)
        ensures
            final(self).reliable() == old(self).reliable(),
            old(self).reliable() ==> r is Ok,
            r is Ok ==> final(self).written() == old(self).written().push(atom@),
            r is Err ==> final(self).written() == old(self).written(),
    ;
}

/// An atom writer that keeps every atom it is given, in order. It never fails.
pub struct RecordingAtomWriter<A> {
    /// The atoms written so far, oldest first.
    pub written: Vec<A>,
}

impl<A: View> RecordingAtomWriter<A> {
    /// An empty recorder.
    pub fn new() -> (r: Self)
        ensures
            r.written@ == Seq::<A>::empty(),
    {
        RecordingAtomWriter { written: Vec::new() }
    }

    /// Forgets the atoms recorded so far.
    pub fn clear(&mut self)
        ensures
            final(self).written@ == Seq::<A>::empty(),
    {
        self.written = Vec::new();
    }
}

impl<A: View> AtomWriter<A> for RecordingAtomWriter<A> {
    open spec fn written(&self) -> Seq<A::V> {
        self.written@.map_values(|a: A| a@)
    }

    open spec fn reliable(&self) -> bool {
        true
    }

    fn write(&mut self, atom: A) -> (r: Result<(), AtomWriteError>) {
        let ghost before = self.written@;
        self.written.push(atom);
        assert(self.written@.map_values(|a: A| a@) =~= before.map_values(|a: A| a@).push(atom@));
        Ok(())
    }
}

/// The abstract content of a `Value`.
pub enum ValueView {
    Bool(bool),
    Int32(i32),
    Int64(i64),
    String(Seq<char>),
    Int32Vec(Seq<i32>),
    Int64Vec(Seq<i64>),
}

/// A value in a field.
#[allow(missing_docs)]
#[derive(Debug, PartialEq, Clone)]
pub enum Value {
    Bool(bool),
    Int32(i32),
    Int64(i64),
    String(String),
    Int32Vec(Vec<i32>),
    Int64Vec(Vec<i64>),
}

impl View for Value {
    type V = ValueView;

    open spec fn view(&self) -> ValueView {
        match self {
            Value::Bool(b) => ValueView::Bool(*b),
            Value::Int32(v) => ValueView::Int32(*v),
            Value::Int64(v) => ValueView::Int64(*v),
            Value::String(s) => ValueView::String(s@),
            Value::Int32Vec(v) => ValueView::Int32Vec(v@),
            Value::Int64Vec(v) => ValueView::Int64Vec(v@),
        }
    }
}

/// An annotation on a field.
#[derive(Debug, PartialEq, Eq, Clone, Copy)]
pub enum FieldAnnotation {
    /// Whether the field is a uid.
    IsUid(bool),
}

/// The abstract content of a `Field`.
pub struct FieldView {
    /// The data.
    pub value: ValueView,
    /// The annotations on the field.
    pub annotations: Seq<FieldAnnotation>,
}

/// A field in an atom.
#[derive(Debug, PartialEq, Clone)]
pub struct Field {
    /// The actual data.
    pub value: Value,
    /// Any annotations on the field.
    pub annotations: Vec<FieldAnnotation>,
}

impl View for Field {
    type V = FieldView;

    open spec fn view(&self) -> FieldView {
        FieldView { value: self.value@, annotations: self.annotations@ }
    }
}

/// A field view holding `value` and no annotation.
pub open spec fn plain_field(value: ValueView) -> FieldView {
    FieldView { value, annotations: Seq::empty() }
}

/// A field view holding `value` and the single annotation `annotation`.
pub open spec fn annotated_field(value: ValueView, annotation: FieldAnnotation) -> FieldView {
    FieldView { value, annotations: seq![annotation] }
}

impl Field {
    /// Helper to create a field with no annotations.
    pub fn new(value: Value) -> (r: Self)
        ensures
            r@ == plain_field(value@),
    {
        let r = Field { value, annotations: Vec::new() };
        assert(r.annotations@ =~= Seq::<FieldAnnotation>::empty());
        r
    }

    /// Helper to create a field with a single annotation.
    pub fn new_with_annotation(value: Value, annotation: FieldAnnotation) -> (r: Self)
        ensures
            r@ == annotated_field(value@, annotation),
    {
        let mut annotations = Vec::new();
        annotations.push(annotation);
        let r = Field { value, annotations };
        assert(r.annotations@ =~= seq![annotation]);
        r
    }
}

/// The abstract content of an `UnstructuredAtom`.
pub struct AtomView {
    /// The atom id.
    pub atom_id: u32,
    /// The fields, in the order they are written.
    pub fields: Seq<FieldView>,
}

/// An unstructured atom is one that doesn't have a compile-time defined structure, and is
/// described by an atom id and a sequence of values.
#[derive(Debug, PartialEq, Clone)]
pub struct UnstructuredAtom {
    /// The atom id.
    pub atom_id: u32,
    /// Data inside the atom, *in the order it should be written*.
    pub fields: Vec<Field>,
}

impl View for UnstructuredAtom {
    type V = AtomView;

    open spec fn view(&self) -> AtomView {
        AtomView { atom_id: self.atom_id, fields: self.fields@.map_values(|f: Field| f@) }
    }
}

/// The abstract content of a `CodegenAtom`.
#[allow(missing_docs)]
pub enum CodegenAtomView {
    SetComponentEnabledSettingReported {
        package_name: Seq<char>,
        class_name: Seq<char>,
        new_state: i32,
        calling_package_name: Seq<char>,
        is_launcher_activity: bool,
    },
    DisabledLauncherActivityUidsReported { calling_uid: i32, disabled_activity_uid: i32 },
    BindServiceLockedWithBalFlagsReported {
        intent_package: Seq<char>,
        flags: i64,
        calling_package: Seq<char>,
        intent_action: Seq<char>,
        intent_component_name_package: Seq<char>,
        intent_component_name_class: Seq<char>,
    },
    BindServiceLockedWithBalFlagsUidsReported { binder_uid: i32, bindee_uid: i32 },
    AndroidGraphicsBitmapAllocated { uid: i32, width: i32, height: i32 },
    AndroidGraphicsBitmapScaled {
        uid: i32,
        width: i32,
        height: i32,
        scaled_width: i32,
        scaled_height: i32,
        pixel_storage_type: i32,
        activity_name: Seq<char>,
    },
    AndroidGraphicsBitmapAllocationSnapshot {
        uid: i32,
        width: i32,
        height: i32,
        pixel_storage_type: i32,
        snapshot_id: i64,
        snapshot_type: i32,
        activity_name: Seq<char>,
    },
}

/// The atoms of the uprobestats extension that statsd codegen supports.
#[allow(missing_docs)]
#[derive(Debug, PartialEq, Clone)]
pub enum CodegenAtom {
    SetComponentEnabledSettingReported {
        package_name: String,
        class_name: String,
        new_state: i32,
        calling_package_name: String,
        is_launcher_activity: bool,
    },
    DisabledLauncherActivityUidsReported { calling_uid: i32, disabled_activity_uid: i32 },
    BindServiceLockedWithBalFlagsReported {
        intent_package: String,
        flags: i64,
        calling_package: String,
        intent_action: String,
        intent_component_name_package: String,
        intent_component_name_class: String,
    },
    BindServiceLockedWithBalFlagsUidsReported { binder_uid: i32, bindee_uid: i32 },
    AndroidGraphicsBitmapAllocated { uid: i32, width: i32, height: i32 },
    AndroidGraphicsBitmapScaled {
        uid: i32,
        width: i32,
        height: i32,
        scaled_width: i32,
        scaled_height: i32,
        pixel_storage_type: i32,
        activity_name: String,
    },
    AndroidGraphicsBitmapAllocationSnapshot {
        uid: i32,
        width: i32,
        height: i32,
        pixel_storage_type: i32,
        snapshot_id: i64,
        snapshot_type: i32,
        activity_name: String,
    },
}

impl View for CodegenAtom {
    type V = CodegenAtomView;

    open spec fn view(&self) -> CodegenAtomView {
        match self {
            CodegenAtom::SetComponentEnabledSettingReported {
                package_name,
                class_name,
                new_state,
                calling_package_name,
                is_launcher_activity,
            } => CodegenAtomView::SetComponentEnabledSettingReported {
                package_name: package_name@,
                class_name: class_name@,
                new_state: *new_state,
                calling_package_name: calling_package_name@,
                is_launcher_activity: *is_launcher_activity,
            },
            CodegenAtom::DisabledLauncherActivityUidsReported {
                calling_uid,
                disabled_activity_uid,
            } => CodegenAtomView::DisabledLauncherActivityUidsReported {
                calling_uid: *calling_uid,
                disabled_activity_uid: *disabled_activity_uid,
            },
            CodegenAtom::BindServiceLockedWithBalFlagsReported {
                intent_package,
                flags,
                calling_package,
                intent_action,
                intent_component_name_package,
                intent_component_name_class,
            } => CodegenAtomView::BindServiceLockedWithBalFlagsReported {
                intent_package: intent_package@,
                flags: *flags,
                calling_package: calling_package@,
                intent_action: intent_action@,
                intent_component_name_package: intent_component_name_package@,
                intent_component_name_class: intent_component_name_class@,
            },
            CodegenAtom::BindServiceLockedWithBalFlagsUidsReported { binder_uid, bindee_uid } =>
                CodegenAtomView::BindServiceLockedWithBalFlagsUidsReported {
                binder_uid: *binder_uid,
                bindee_uid: *bindee_uid,
            },
            CodegenAtom::AndroidGraphicsBitmapAllocated { uid, width, height } =>
                CodegenAtomView::AndroidGraphicsBitmapAllocated {
                uid: *uid,
                width: *width,
                height: *height,
            },
            CodegenAtom::AndroidGraphicsBitmapScaled {
                uid,
                width,
                height,
                scaled_width,
                scaled_height,
                pixel_storage_type,
                activity_name,
            } => CodegenAtomView::AndroidGraphicsBitmapScaled {
                uid: *uid,
                width: *width,
                height: *height,
                scaled_width: *scaled_width,
                scaled_height: *scaled_height,
                pixel_storage_type: *pixel_storage_type,
                activity_name: activity_name@,
            },
            CodegenAtom::AndroidGraphicsBitmapAllocationSnapshot {
                uid,
                width,
                height,
                pixel_storage_type,
                snapshot_id,
                snapshot_type,
                activity_name,
            } => CodegenAtomView::AndroidGraphicsBitmapAllocationSnapshot {
                uid: *uid,
                width: *width,
                height: *height,
                pixel_storage_type: *pixel_storage_type,
                snapshot_id: *snapshot_id,
                snapshot_type: *snapshot_type,
                activity_name: activity_name@,
            },
        }
    }
}

/// The abstract content of an `AccessibilityRuntimePermissionGrantReported`.
pub struct PermissionGrantView {
    /// The uid that was granted the permission.
    pub uid: i32,
    /// When the permission was granted, in nanoseconds.
    pub timestamp_ns: u64,
    /// The permission.
    pub permission_name: Seq<char>,
    /// The accessibility calls that preceded the grant: call code and nanoseconds.
    pub preceding_a11y_calls: Seq<(i32, u64)>,
}

/// A runtime permission grant to an app with an enabled accessibility service, with the
/// accessibility calls that came shortly before it. Mirrors the atom of the same name.
#[derive(Debug, Clone, PartialEq)]
pub struct AccessibilityRuntimePermissionGrantReported {
    /// The uid that was granted the permission.
    pub uid: i32,
    /// When the permission was granted, in nanoseconds.
    pub timestamp_ns: u64,
    /// The permission.
    pub permission_name: String,
    /// The accessibility calls that preceded the grant: call code and nanoseconds.
    pub preceding_a11y_calls: Vec<(i32, u64)>,
}

impl View for AccessibilityRuntimePermissionGrantReported {
    type V = PermissionGrantView;

    open spec fn view(&self) -> PermissionGrantView {
        PermissionGrantView {
            uid: self.uid,
            timestamp_ns: self.timestamp_ns,
            permission_name: self.permission_name@,
            preceding_a11y_calls: self.preceding_a11y_calls@,
        }
    }
}

impl AccessibilityRuntimePermissionGrantReported {
    /// A grant with no preceding accessibility call.
    pub fn new(uid: i32, timestamp_ns: u64, permission_name: &str) -> (r: Self)
        ensures
            r@ == (PermissionGrantView {
                uid,
                timestamp_ns,
                permission_name: permission_name@,
                preceding_a11y_calls: Seq::empty(),
            }),
    {
        let r = AccessibilityRuntimePermissionGrantReported {
            uid,
            timestamp_ns,
            permission_name: String::from_str(permission_name),
            preceding_a11y_calls: Vec::new(),
        };
        assert(r.preceding_a11y_calls@ =~= Seq::<(i32, u64)>::empty());
        r
    }
}

} // verus!
