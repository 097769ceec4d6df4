//! Abstraction for userspace to read/write BPF maps, and the map of binder transaction
//! filters that the binder BPF program consults.
use crate::string::{bytes_as_str, is_first_nul, spec_bytes_as_str, c_str_bytes};
use vstd::prelude::*;
use vstd::utf8::{encode_utf8, encode_utf8_decode_utf8, encode_utf8_valid_utf8};
use vstd::string::StringSliceAdditionalSpecFns;

verus! {

/// Defines the static properties of a BPF map: the Rust types of its keys and values, their
/// C-compatible representations, and the conversions between the two.
pub trait BpfMap {
    /// The Rust type for the map key.
    type K;
    /// The Rust type for the map value.
    type V;
    /// The C-compatible representation of the key.
    type CKey;
    /// The C-compatible representation of the value.
    type CValue;

    /// The path to the BPF map in the BPF file system.
    fn map_path() -> &'static str;
    /// Converts a Rust key to its C representation.
    fn to_c_key(key: &Self::K) -> Self::CKey;
    /// Converts a Rust value to its C representation.
    fn to_c_value(value: &Self::V) -> Self::CValue;
    /// Converts a C value back to its Rust representation.
    fn from_c_value(value: &Self::CValue) -> Self::V;
    /// Converts a C key back to its Rust representation.
    fn from_c_key(key: &Self::CKey) -> Self::K;
}

/// The path of the binder interface map.
pub const BINDER_INTERFACE_MAP_PATH: &'static str = "/sys/fs/bpf/uprobestats/map_Binder_interfaces";

/// The size of the interface descriptor buffer of a key.
pub const INTERFACE_DESCRIPTOR_LEN: usize = 128;

/// The number of transaction codes a value holds.
pub const BINDER_CODES_LEN: usize = 10;

/// The key of the binder interface map: the interface descriptor in a fixed-size,
/// NUL-padded buffer.
#[derive(Debug, Clone, PartialEq, Eq)]
pub struct BinderInterfaceBpfMapKey {
    /// `INTERFACE_DESCRIPTOR_LEN` bytes.
    pub interface_descriptor: Vec<u8>,
}

/// The value of the binder interface map: the transaction codes in a fixed-size,
/// zero-padded array.
#[derive(Debug, Clone, PartialEq, Eq)]
pub struct BinderCodesBpfMapValue {
    /// `BINDER_CODES_LEN` codes.
    pub codes: Vec<u64>,
}

/// The binder interface map: interface descriptors to the transaction codes to report.
#[derive(Debug, Clone, Copy, Default)]
pub struct BinderInterfaceBpfMap {}

/// The key buffer of an interface descriptor: its UTF-8 bytes, cut to the buffer's size,
/// then NUL bytes.
pub open spec fn spec_c_key(descriptor: Seq<char>) -> Seq<u8> {
    let bytes = encode_utf8(descriptor);
    Seq::new(INTERFACE_DESCRIPTOR_LEN as nat, |i: int| if i < bytes.len() { bytes[i] } else { 0u8 })
}

/// The code array of a list of codes: the codes, cut to the array's size, then zeros.
pub open spec fn spec_c_value(codes: Seq<u64>) -> Seq<u64> {
    Seq::new(BINDER_CODES_LEN as nat, |i: int| if i < codes.len() { codes[i] } else { 0u64 })
}

/// The interface descriptor a key buffer holds, or the empty string when it holds none.
pub open spec fn spec_from_c_key(buffer: Seq<u8>) -> Seq<char> {
    match spec_bytes_as_str(buffer) {
        Ok(s) => s,
        Err(_) => Seq::empty(),
    }
}

impl BpfMap for BinderInterfaceBpfMap {
    type K = String;
    type V = Vec<u64>;
    type CKey = BinderInterfaceBpfMapKey;
    type CValue = BinderCodesBpfMapValue;

    fn map_path() -> (r: &'static str)
        ensures
            r@ == BINDER_INTERFACE_MAP_PATH@,
    {
        BINDER_INTERFACE_MAP_PATH
    }

    fn to_c_key(key: &String) -> (r: BinderInterfaceBpfMapKey)
        ensures
            r.interface_descriptor@ == spec_c_key(key@),
    {
        let bytes = key.as_str().as_bytes();
        let mut buffer: Vec<u8> = Vec::new();
        let mut i: usize = 0;
        while i < INTERFACE_DESCRIPTOR_LEN
            invariant
                i <= INTERFACE_DESCRIPTOR_LEN,
                bytes@ == encode_utf8(key@),
                buffer@ == spec_c_key(key@).take(i as int),
            decreases INTERFACE_DESCRIPTOR_LEN - i,
        {
            let b = if i < bytes.len() { bytes[i] } else { 0u8 };
            buffer.push(b);
            i = i + 1;
            assert(buffer@ =~= spec_c_key(key@).take(i as int));
        }
        assert(spec_c_key(key@).take(i as int) =~= spec_c_key(key@));
        BinderInterfaceBpfMapKey { interface_descriptor: buffer }
    }

    fn to_c_value(value: &Vec<u64>) -> (r: BinderCodesBpfMapValue)
        ensures
            r.codes@ == spec_c_value(value@),
    {
        let mut codes: Vec<u64> = Vec::new();
        let mut i: usize = 0;
        while i < BINDER_CODES_LEN
            invariant
                i <= BINDER_CODES_LEN,
                codes@ == spec_c_value(value@).take(i as int),
            decreases BINDER_CODES_LEN - i,
        {
            let c = if i < value.len() { value[i] } else { 0u64 };
            codes.push(c);
            i = i + 1;
            assert(codes@ =~= spec_c_value(value@).take(i as int));
        }
        assert(spec_c_value(value@).take(i as int) =~= spec_c_value(value@));
        BinderCodesBpfMapValue { codes }
    }

    fn from_c_value(value: &BinderCodesBpfMapValue) -> (r: Vec<u64>)
        ensures
            r@ == value.codes@,
    {
        value.codes.clone()
    }

    fn from_c_key(key: &BinderInterfaceBpfMapKey) -> (r: String)
        ensures
            r@ == spec_from_c_key(key.interface_descriptor@),
    {
        match bytes_as_str(key.interface_descriptor.as_slice()) {
            Ok(s) => s,
            Err(_) => String::new(),
        }
    }
}

/// Reading back the codes written for an interface gives the codes, padded with zeros to
/// the array's size (and cut to it).
pub proof fn lemma_codes_round_trip(codes: Seq<u64>)
    ensures
        spec_c_value(codes).len() == BINDER_CODES_LEN,
        codes.len() <= BINDER_CODES_LEN ==> spec_c_value(codes).take(codes.len() as int) == codes,
        forall|i: int| codes.len() <= i < BINDER_CODES_LEN ==> spec_c_value(codes)[i] == 0,
        codes.len() == BINDER_CODES_LEN ==> spec_c_value(codes) == codes,
{
    if codes.len() <= BINDER_CODES_LEN {
        assert(spec_c_value(codes).take(codes.len() as int) =~= codes);
    }
    if codes.len() == BINDER_CODES_LEN {
        assert(spec_c_value(codes) =~= codes);
    }
}

/// Reading back the key written for an interface descriptor gives the descriptor, when its
/// UTF-8 bytes hold no NUL and leave room for the terminating one.
pub proof fn lemma_key_round_trip(descriptor: Seq<char>)
    requires
        encode_utf8(descriptor).len() < INTERFACE_DESCRIPTOR_LEN,
        !encode_utf8(descriptor).contains(0u8),
    ensures
        spec_from_c_key(spec_c_key(descriptor)) == descriptor,
{
    let bytes = encode_utf8(descriptor);
    let buffer = spec_c_key(descriptor);
    let n = bytes.len() as int;
    assert forall|j: int| 0 <= j < n implies buffer[j] != 0 by {
        assert(bytes[j] != 0u8) by {
            if bytes[j] == 0u8 {
                assert(bytes.contains(0u8));
            }
        }
    }
    assert(is_first_nul(buffer, n));
    let k = choose|k: int| is_first_nul(buffer, k);
    assert(k == n) by {
        if k < n {
            assert(buffer[k] != 0);
        } else if k > n {
            assert(buffer[n] != 0);
        }
    }
    assert(c_str_bytes(buffer) =~= bytes);
    encode_utf8_valid_utf8(descriptor);
    encode_utf8_decode_utf8(descriptor);
}

} // verus!
