use vstd::prelude::*;
use vstd::slice::slice_subrange;
use vstd::string::StringSliceAdditionalSpecFns;
use vstd::utf8::{decode_utf8, encode_utf8_decode_utf8, valid_utf8};

verus! {

/// Why a fixed-size name buffer holds no name.
#[derive(Debug, Clone, Copy, PartialEq, Eq, Structural)]
pub enum NameError {
    /// The buffer holds no NUL byte.
    Unterminated,
    /// The bytes before the first NUL are not UTF-8.
    NotText,
}

/// Whether `buf` holds a NUL byte.
pub open spec fn is_terminated(buf: Seq<u8>) -> bool {
    exists|i: int| 0 <= i < buf.len() && buf[i] == 0
}

/// The index of the first NUL byte of `buf`, when `n` is one.
pub open spec fn is_first_nul(buf: Seq<u8>, n: int) -> bool {
    &&& 0 <= n < buf.len()
    &&& buf[n] == 0
    &&& forall|i: int| 0 <= i < n ==> buf[i] != 0
}

/// The bytes of `buf` before its first NUL byte.
pub open spec fn name_bytes(buf: Seq<u8>) -> Seq<u8> {
    buf.take(choose|n: int| is_first_nul(buf, n))
}

/// The name that a fixed-size, NUL-terminated buffer holds: the UTF-8 text
/// before its first NUL byte.
pub open spec fn decoded_name(buf: Seq<u8>) -> Result<Seq<char>, NameError> {
    if !is_terminated(buf) {
        Err(NameError::Unterminated)
    } else if !valid_utf8(name_bytes(buf)) {
        Err(NameError::NotText)
    } else {
        Ok(decode_utf8(name_bytes(buf)))
    }
}

/// Relies on `std::str::from_utf8`: it succeeds exactly on valid UTF-8, and
/// the text it returns has the bytes it was given.
#[verifier::external_body]
fn utf8_text(b: &[u8]) -> (r: Option<&str>)
    ensures
        r is Some <==> valid_utf8(b@),
        r matches Some(s) ==> s.spec_bytes() == b@,
{
    std::str::from_utf8(b).ok()
}

/// The index of the first NUL byte of `buf`, if it holds one.
pub fn first_nul(buf: &[u8]) -> (r: Option<usize>)
    ensures
        r is None <==> !is_terminated(buf@),
        r matches Some(n) ==> is_first_nul(buf@, n as int),
{
    let mut i: usize = 0;
    while i < buf.len()
        invariant
            0 <= i <= buf@.len(),
            forall|k: int| 0 <= k < i ==> buf@[k] != 0,
        decreases buf@.len() - i,
    {
        if buf[i] == 0 {
            return Some(i);
        }
        i = i + 1;
    }
    None
}

proof fn lemma_first_nul_unique(buf: Seq<u8>, n: int)
    requires
        is_first_nul(buf, n),
    ensures
        name_bytes(buf) == buf.take(n),
{
    let m = choose|m: int| is_first_nul(buf, m);
    assert(is_first_nul(buf, m));
    assert(m == n) by {
        if m < n {
            assert(buf[m] != 0);
        } else if n < m {
            assert(buf[n] != 0);
        }
    }
}

/// Decodes the name held in a fixed-size, NUL-terminated buffer.
pub fn decode_name(buf: &[u8]) -> (r: Result<String, NameError>)
    ensures
        r is Ok <==> decoded_name(buf@) is Ok,
        r matches Ok(s) ==> decoded_name(buf@) == Ok::<Seq<char>, NameError>(s@),
        r matches Err(e) ==> decoded_name(buf@) == Err::<Seq<char>, NameError>(e),
{
    match first_nul(buf) {
        None => Err(NameError::Unterminated),
        Some(n) => {
            proof {
                lemma_first_nul_unique(buf@, n as int);
            }
            let prefix = slice_subrange(buf, 0, n);
            assert(prefix@ == name_bytes(buf@));
            match utf8_text(prefix) {
                None => Err(NameError::NotText),
                Some(text) => {
                    proof {
                        encode_utf8_decode_utf8(text@);
                    }
                    Ok(text.to_owned())
                },
            }
        },
    }
}

} // verus!
