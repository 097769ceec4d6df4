//! Strings read out of fixed-size, NUL-terminated C character buffers, and the few
//! string predicates the daemon's rules are written in.
use vstd::prelude::*;
use vstd::string::StrSliceExecFns;
use vstd::utf8::{decode_utf8, valid_utf8};

verus! {

/// Why a C character buffer could not be read as a string.
#[derive(Debug, Clone, Copy, PartialEq, Eq)]
pub enum StringError {
    /// The buffer holds no NUL byte, so the string never ends.
    MissingNulTerminator,
    /// The bytes before the first NUL are not valid UTF-8.
    InvalidUtf8,
    /// The string was required to be non-empty but is empty.
    Empty,
}

/// `i` is the position of the first NUL byte of `b`.
pub open spec fn is_first_nul(b: Seq<u8>, i: int) -> bool {
    &&& 0 <= i < b.len()
    &&& b[i] == 0
    &&& forall|j: int| 0 <= j < i ==> b[j] != 0
}

/// `b` holds at least one NUL byte.
pub open spec fn has_nul(b: Seq<u8>) -> bool {
    exists|i: int| 0 <= i < b.len() && b[i] == 0
}

/// The bytes of `b` before its first NUL byte (meaningful when `has_nul(b)`).
pub open spec fn c_str_bytes(b: Seq<u8>) -> Seq<u8> {
    b.take(choose|i: int| is_first_nul(b, i))
}

/// The string held in the C character buffer `b`: the UTF-8 decoding of the bytes before
/// its first NUL, or `None` when there is no NUL or those bytes are not valid UTF-8.
pub open spec fn c_str(b: Seq<u8>) -> Option<Seq<char>> {
    if has_nul(b) && valid_utf8(c_str_bytes(b)) {
        Some(decode_utf8(c_str_bytes(b)))
    } else {
        None
    }
}

/// The string held in `b`, required to be non-empty.
pub open spec fn nonempty_c_str(b: Seq<u8>) -> Option<Seq<char>> {
    match c_str(b) {
        Some(s) => if s.len() > 0 { Some(s) } else { None },
        None => None,
    }
}

/// The error that reading `b` as a C string reports, if any.
pub open spec fn c_str_error(b: Seq<u8>) -> StringError {
    if !has_nul(b) {
        StringError::MissingNulTerminator
    } else {
        StringError::InvalidUtf8
    }
}

/// The result of reading `b` as a C string.
pub open spec fn spec_bytes_as_str(b: Seq<u8>) -> Result<Seq<char>, StringError> {
    match c_str(b) {
        Some(s) => Ok(s),
        None => Err(c_str_error(b)),
    }
}

/// The result of reading `b` as a non-empty C string.
pub open spec fn spec_bytes_as_nonempty_str(b: Seq<u8>) -> Result<Seq<char>, StringError> {
    match c_str(b) {
        Some(s) => if s.len() > 0 { Ok(s) } else { Err(StringError::Empty) },
        None => Err(c_str_error(b)),
    }
}

/// Decodes `bytes` as UTF-8 with `std::str::from_utf8`.
///
/// Trusted: std documents that `from_utf8` succeeds exactly on valid UTF-8 and then
/// yields the characters that the bytes encode; `valid_utf8` and `decode_utf8` are vstd's
/// statement of that encoding.
#[verifier::external_body]
fn utf8_to_string(bytes: &[u8]) -> (r: Option<String>)
    ensures
        r is Some <==> valid_utf8(bytes@),
        r matches Some(s) ==> s@ == decode_utf8(bytes@),
{
    match std::str::from_utf8(bytes) {
        Ok(s) => Some(String::from(s)),
        Err(_) => None,
    }
}

proof fn lemma_first_nul_unique(b: Seq<u8>, i: int, j: int)
    requires
        is_first_nul(b, i),
        is_first_nul(b, j),
    ensures
        i == j,
{
    if i < j {
        assert(b[i] != 0);
    } else if j < i {
        assert(b[j] != 0);
    }
}

/// Reads the string held in a NUL-terminated C character buffer.
pub fn bytes_as_str(bytes: &[u8]) -> (r: Result<String, StringError>)
    ensures
        match r {
            Ok(s) => spec_bytes_as_str(bytes@) == Ok::<Seq<char>, StringError>(s@),
            Err(e) => spec_bytes_as_str(bytes@) == Err::<Seq<char>, StringError>(e),
        },
{
    let n = bytes.len();
    let mut i: usize = 0;
    let mut prefix: Vec<u8> = Vec::new();
    while i < n
        invariant
            n == bytes@.len(),
            i <= n,
            prefix@ == bytes@.take(i as int),
            forall|j: int| 0 <= j < i ==> bytes@[j] != 0,
        decreases n - i,
    {
        if bytes[i] == 0 {
            proof {
                assert(is_first_nul(bytes@, i as int));
                let k = choose|k: int| is_first_nul(bytes@, k);
                lemma_first_nul_unique(bytes@, i as int, k);
                assert(c_str_bytes(bytes@) == prefix@);
            }
            return match utf8_to_string(prefix.as_slice()) {
                Some(s) => Ok(s),
                None => Err(StringError::InvalidUtf8),
            };
        }
        prefix.push(bytes[i]);
        i = i + 1;
        assert(prefix@ == bytes@.take(i as int));
    }
    Err(StringError::MissingNulTerminator)
}

/// Identical to `bytes_as_str`, but reports `StringError::Empty` for an empty string.
pub fn bytes_as_nonempty_str(bytes: &[u8]) -> (r: Result<String, StringError>)
    ensures
        match r {
            Ok(s) => spec_bytes_as_nonempty_str(bytes@) == Ok::<Seq<char>, StringError>(s@),
            Err(e) => spec_bytes_as_nonempty_str(bytes@) == Err::<Seq<char>, StringError>(e),
        },
{
    let s = bytes_as_str(bytes)?;
    if s.as_str().is_empty() {
        Err(StringError::Empty)
    } else {
        Ok(s)
    }
}

/// `needle` occurs in `hay` as a contiguous run of characters.
pub open spec fn contains_infix(hay: Seq<char>, needle: Seq<char>) -> bool {
    exists|i: int| #[trigger] occurs_at(hay, needle, i)
}

/// `needle` occurs in `hay` at character position `i`.
pub open spec fn occurs_at(hay: Seq<char>, needle: Seq<char>, i: int) -> bool {
    0 <= i && i + needle.len() <= hay.len() && hay.subrange(i, i + needle.len()) == needle
}

/// Whether `needle` occurs in `hay` at character position `at`.
fn matches_at(hay: &str, needle: &str, at: usize) -> (r: bool)
    requires
        at as int + needle@.len() <= hay@.len(),
    ensures
        r == occurs_at(hay@, needle@, at as int),
{
    let m = needle.unicode_len();
    let _n = hay.unicode_len();
    let mut k: usize = 0;
    while k < m
        invariant
            m == needle@.len(),
            _n == hay@.len(),
            at as int + m <= hay@.len(),
            k <= m,
            forall|j: int| 0 <= j < k ==> hay@[at + j] == needle@[j],
        decreases m - k,
    {
        if hay.get_char(at + k) != needle.get_char(k) {
            assert(hay@.subrange(at as int, at + m)[k as int] != needle@[k as int]);
            return false;
        }
        k = k + 1;
    }
    assert(hay@.subrange(at as int, at + m) =~= needle@);
    true
}

/// Whether the two strings hold the same characters.
pub fn str_eq(a: &str, b: &str) -> (r: bool)
    ensures
        r == (a@ == b@),
{
    let n = a.unicode_len();
    if n != b.unicode_len() {
        return false;
    }
    let r = matches_at(a, b, 0);
    proof {
        if r {
            assert(a@ =~= a@.subrange(0, n as int));
        } else {
            assert(a@.subrange(0, n as int) =~= a@);
        }
    }
    r
}

/// Whether `s` begins with `prefix`.
pub fn starts_with(s: &str, prefix: &str) -> (r: bool)
    ensures
        r == prefix@.is_prefix_of(s@),
{
    if prefix.unicode_len() > s.unicode_len() {
        return false;
    }
    let r = matches_at(s, prefix, 0);
    proof {
        if r {
            assert forall|i: int| 0 <= i < prefix@.len() implies prefix@[i] == s@[i] by {
                assert(s@.subrange(0, prefix@.len() as int)[i] == s@[i]);
            }
        } else {
            if prefix@.is_prefix_of(s@) {
                assert(s@.subrange(0, prefix@.len() as int) =~= prefix@);
            }
        }
    }
    r
}

/// Whether `s` ends with `suffix`.
pub fn ends_with(s: &str, suffix: &str) -> (r: bool)
    ensures
        r == suffix@.is_suffix_of(s@),
{
    let n = s.unicode_len();
    let m = suffix.unicode_len();
    if m > n {
        return false;
    }
    let r = matches_at(s, suffix, n - m);
    proof {
        if r {
            assert forall|i: int| 0 <= i < suffix@.len() implies suffix@[i] == s@[s@.len() - suffix@.len() + i] by {
                assert(s@.subrange(n - m, n as int)[i] == s@[n - m + i]);
            }
        } else {
            if suffix@.is_suffix_of(s@) {
                assert(s@.subrange(n - m, n as int) =~= suffix@);
            }
        }
    }
    r
}

/// Whether `needle` occurs somewhere in `hay`.
pub fn contains_str(hay: &str, needle: &str) -> (r: bool)
    ensures
        r == contains_infix(hay@, needle@),
{
    let n = hay.unicode_len();
    let m = needle.unicode_len();
    if m > n {
        return false;
    }
    if m == 0 {
        assert(hay@.subrange(0, 0) =~= needle@);
        assert(occurs_at(hay@, needle@, 0));
        return true;
    }
    let mut at: usize = 0;
    while at <= n - m
        invariant
            n == hay@.len(),
            m == needle@.len(),
            0 < m <= n,
            at <= n - m + 1,
            forall|i: int| 0 <= i < at ==> !occurs_at(hay@, needle@, i),
        decreases n - m + 1 - at,
    {
        if matches_at(hay, needle, at) {
            assert(occurs_at(hay@, needle@, at as int));
            return true;
        }
        at = at + 1;
    }
    assert forall|i: int| !occurs_at(hay@, needle@, i) by {
        if 0 <= i && i < at {
        }
    }
    false
}

} // verus!

verus! {

/// The decimal digit character for `d` (0 to 9).
pub open spec fn digit_char(d: int) -> char {
    if d == 0 {
        '0'
    } else if d == 1 {
        '1'
    } else if d == 2 {
        '2'
    } else if d == 3 {
        '3'
    } else if d == 4 {
        '4'
    } else if d == 5 {
        '5'
    } else if d == 6 {
        '6'
    } else if d == 7 {
        '7'
    } else if d == 8 {
        '8'
    } else {
        '9'
    }
}

/// The decimal representation of `n`, without leading zeros.
pub open spec fn decimal(n: nat) -> Seq<char>
    decreases n,
{
    if n < 10 {
        seq![digit_char(n as int)]
    } else {
        decimal(n / 10).push(digit_char((n % 10) as int))
    }
}

/// The decimal representation of `x`, with a leading '-' when negative.
pub open spec fn signed_decimal(x: int) -> Seq<char> {
    if x < 0 {
        seq!['-'] + decimal((-x) as nat)
    } else {
        decimal(x as nat)
    }
}

fn digit_str(d: u64) -> (r: &'static str)
    requires
        d < 10,
    ensures
        r@ == seq![digit_char(d as int)],
{
    proof {
        reveal_strlit("0");
        reveal_strlit("1");
        reveal_strlit("2");
        reveal_strlit("3");
        reveal_strlit("4");
        reveal_strlit("5");
        reveal_strlit("6");
        reveal_strlit("7");
        reveal_strlit("8");
        reveal_strlit("9");
    }
    if d == 0 {
        "0"
    } else if d == 1 {
        "1"
    } else if d == 2 {
        "2"
    } else if d == 3 {
        "3"
    } else if d == 4 {
        "4"
    } else if d == 5 {
        "5"
    } else if d == 6 {
        "6"
    } else if d == 7 {
        "7"
    } else if d == 8 {
        "8"
    } else {
        "9"
    }
}

/// Appends the decimal representation of `n` to `s`.
pub fn append_decimal(s: &mut String, n: u64)
    ensures
        final(s)@ == old(s)@ + decimal(n as nat),
    decreases n,
{
    if n >= 10 {
        append_decimal(s, n / 10);
    }
    s.append(digit_str(n % 10));
    assert(decimal(n as nat) == if n < 10 {
        seq![digit_char(n as int)]
    } else {
        decimal((n / 10) as nat).push(digit_char((n % 10) as int))
    });
    assert(final(s)@ =~= old(s)@ + decimal(n as nat));
}

/// Appends the decimal representation of `x` to `s`, with a leading '-' when negative.
pub fn append_signed_decimal(s: &mut String, x: i64)
    ensures
        final(s)@ == old(s)@ + signed_decimal(x as int),
{
    if x < 0 {
        proof {
            reveal_strlit("-");
        }
        s.append("-");
        let magnitude: u64 = if x == i64::MIN {
            9223372036854775808u64
        } else {
            (-x) as u64
        };
        append_decimal(s, magnitude);
        assert(final(s)@ =~= old(s)@ + signed_decimal(x as int));
    } else {
        append_decimal(s, x as u64);
    }
}

/// The Debug rendering of a list of strings, as `format!("{:?}", ..)` writes it.
pub uninterp spec fn debug_string_list(items: Seq<Seq<char>>) -> Seq<char>;

/// Renders a list of strings with its `Debug` implementation.
///
/// Trusted: `format!("{:?}", v)` renders a `Vec<String>` from the strings' contents alone;
/// the rendering (quoting and escaping) is named, not stated.
#[verifier::external_body]
pub(crate) fn debug_strings(v: &Vec<String>) -> (r: String)
    ensures
        r@ == debug_string_list(v@.map_values(|s: String| s@)),
{
    format!("{:?}", v)
}

} // verus!
