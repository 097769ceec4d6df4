//! The location of a method's code in an executable.
use super::process::ResolvedProcess;
use crate::string::ends_with;
use vstd::prelude::*;

verus! {

/// Identifies a Java method to probe.
#[derive(Clone, Debug, PartialEq)]
#[allow(missing_docs)]
pub struct MethodDescriptor {
    pub fully_qualified_class_name: String,
    pub method_name: String,
    pub fully_qualified_parameters: Vec<String>,
}

/// The abstract content of a `MethodDescriptor`.
pub struct MethodDescriptorView {
    /// Class of the method.
    pub class_name: Seq<char>,
    /// Name of the method.
    pub method_name: Seq<char>,
    /// Parameter types of the method.
    pub parameters: Seq<Seq<char>>,
}

impl View for MethodDescriptor {
    type V = MethodDescriptorView;

    open spec fn view(&self) -> MethodDescriptorView {
        MethodDescriptorView {
            class_name: self.fully_qualified_class_name@,
            method_name: self.method_name@,
            parameters: self.fully_qualified_parameters@.map_values(|p: String| p@),
        }
    }
}

/// Where the code of a method lies in an executable file.
#[derive(Clone, Debug, PartialEq)]
#[allow(missing_docs)]
pub struct ExecutableMethodFileOffsets {
    pub container_path: String,
    pub container_offset: u64,
    pub method_offset: u64,
}

/// Whether the code lies in a shared object (its container path ends with "so"), which is
/// where the runtime places the entry stub of JIT-compiled code.
pub open spec fn is_shared_object(container_path: Seq<char>) -> bool {
    "so"@.is_suffix_of(container_path)
}

/// The identifier of the method under instrumentation, as the BPF programs record it.
pub open spec fn spec_method_identifier(o: ExecutableMethodFileOffsets) -> int {
    if is_shared_object(o.container_path@) {
        o.container_offset as int
    } else {
        o.container_offset + o.method_offset
    }
}

impl ExecutableMethodFileOffsets {
    /// Returns a unique identifier for the method.
    ///
    /// Used to identify the method under instrumentation in the BPF maps/programs. For
    /// JIT-compiled code the container offset identifies the method; for AOT-compiled code
    /// the container offset plus the method offset is its entry point.
    pub fn method_identifier(&self) -> (r: u64)
        requires
            spec_method_identifier(*self) <= u64::MAX,
        ensures
            r == spec_method_identifier(*self),
    {
        if ends_with(self.container_path.as_str(), "so") {
            self.container_offset
        } else {
            self.container_offset + self.method_offset
        }
    }
}

/// Implementations find where a method's code lies in the target process.
///
/// What they report depends on the runtime of the device. `offsets_answer` ties an answer to
/// the question asked: it is one that the resolver may give for that process and method,
/// and nothing more is promised.
pub trait OffsetResolver {
    /// Whether `r` is an answer the resolver may give for the method of the process. A
    /// resolver that does not define it may give any answer.
    closed spec fn offsets_answer(
        &self,
        target_process: ResolvedProcess,
        method_descriptor: MethodDescriptorView,
        r: Result<Option<ExecutableMethodFileOffsets>, String>,
    ) -> bool {
        true
    }

    /// Resolves the offsets of an executable method; `Ok(None)` when the method is not found.
    fn resolve_offsets(
        &self,
        target_process: &ResolvedProcess,
        method_descriptor: &MethodDescriptor,
    ) -> (r: Result<Option<ExecutableMethodFileOffsets>, String>)
        ensures
            self.offsets_answer(*target_process, method_descriptor@, r),
    ;
}

} // verus!
