use vstd::prelude::*;
use vstd::slice::slice_subrange;
use vstd::utf8::{decode_utf8, pop_first_scalar, valid_utf8};

use super::error::{ErrorKind, ParserError, ParserErrorKind, ReadError};

verus! {

/// What a parser returns: the rest of its input and a value, or how it failed.
pub type ReadResult<'a, O> = Result<(&'a [u8], O), ReadError<'a>>;

/// The model of one parsing step on byte sequences.
///
/// `Aborted` marks the inputs on which the step cannot go on at all; the
/// executable parsers return `None` there and are never asked for a result.
pub enum Parsed<V> {
    Done(Seq<u8>, V),
    Error(Seq<u8>, ParserErrorKind),
    Failure(Seq<u8>, ParserErrorKind),
    Aborted,
}

/// The model of what an executable parser returned.
pub open spec fn outcome<'a, T: View>(r: ReadResult<'a, T>) -> Parsed<T::V> {
    match r {
        Ok((rest, v)) => Parsed::Done(rest@, v@),
        Err(ReadError::Error(e)) => Parsed::Error(e.0@, e.1),
        Err(ReadError::Failure(e)) => Parsed::Failure(e.0@, e.1),
    }
}

/// Like `outcome`, with `None` standing for an aborted step.
pub open spec fn outcome_opt<'a, T: View>(r: Option<ReadResult<'a, T>>) -> Parsed<T::V> {
    match r {
        None => Parsed::Aborted,
        Some(x) => outcome(x),
    }
}

/// A failed step seen as a step of another value type.
pub open spec fn fail_as<A, B>(p: Parsed<A>) -> Parsed<B> {
    match p {
        Parsed::Error(s, k) => Parsed::Error(s, k),
        Parsed::Failure(s, k) => Parsed::Failure(s, k),
        _ => Parsed::Aborted,
    }
}

/// Applies `f` to the value of a successful step.
pub open spec fn map_done<A, B>(p: Parsed<A>, f: spec_fn(A) -> B) -> Parsed<B> {
    match p {
        Parsed::Done(r, v) => Parsed::Done(r, f(v)),
        _ => fail_as(p),
    }
}

/// The first alternative, unless it was rejected with a recoverable error.
pub open spec fn or_else<V>(p: Parsed<V>, q: Parsed<V>) -> Parsed<V> {
    match p {
        Parsed::Error(_, _) => q,
        _ => p,
    }
}

/// The big-endian unsigned value of the first four bytes of `s`.
pub open spec fn be32(s: Seq<u8>) -> int
    recommends
        s.len() >= 4,
{
    s[0] as int * 0x1000000 + s[1] as int * 0x10000 + s[2] as int * 0x100 + s[3] as int
}

/// A four-byte big-endian field at the front of `i`.
pub open spec fn spec_be_u32(i: Seq<u8>) -> Parsed<u32> {
    if i.len() < 4 {
        Parsed::Error(i, ParserErrorKind::Other(ErrorKind::Eof))
    } else {
        Parsed::Done(i.skip(4), be32(i) as u32)
    }
}

/// No byte of `s` is a NUL.
pub open spec fn nul_free(s: Seq<u8>) -> bool {
    forall|j: int| 0 <= j < s.len() ==> s[j] != 0
}

/// A NUL-terminated, non-empty byte string at the front of `i`: the bytes
/// before the first NUL, and the input after that NUL.
///
/// An empty name, or input with no NUL at all (the string overflows its
/// input), is refused with the recoverable error `StringOverflow`.
pub open spec fn spec_c_string(i: Seq<u8>) -> Parsed<Seq<u8>> {
    let k = nul_index(i);
    if k == 0 || k >= i.len() {
        Parsed::Error(i, ParserErrorKind::StringOverflow)
    } else {
        Parsed::Done(i.skip(k + 1), i.take(k))
    }
}

/// The index of the first NUL of `s`, or the length of `s` where it holds none.
pub open spec fn nul_index(s: Seq<u8>) -> int
    decreases s.len(),
{
    if s.len() == 0 || s[0] == 0 {
        0
    } else {
        1 + nul_index(s.drop_first())
    }
}

/// The text that `String::from_utf8_lossy` makes of `bytes`.
pub uninterp spec fn lossy_utf8(bytes: Seq<u8>) -> Seq<char>;

/// The text of a name's bytes: their decoding where they are valid UTF-8,
/// else what `String::from_utf8_lossy` makes of them.
pub open spec fn name_text(bytes: Seq<u8>) -> Seq<char> {
    if valid_utf8(bytes) {
        decode_utf8(bytes)
    } else {
        lossy_utf8(bytes)
    }
}

/// An entry name at the front of `i`, decoded as lossy UTF-8.
pub open spec fn spec_string(i: Seq<u8>) -> Parsed<Seq<char>> {
    map_done(spec_c_string(i), |b: Seq<u8>| name_text(b))
}

/// Decodes `bytes` with `String::from_utf8_lossy`.
///
/// Trusted: the result is the function `lossy_utf8` of the bytes, and where
/// the bytes are valid UTF-8 it is their decoding (std documents that valid
/// input is returned unchanged). What replaces invalid sequences is not stated.
#[verifier::external_body]
fn utf8_lossy(bytes: &[u8]) -> (s: String)
    ensures
        s@ == lossy_utf8(bytes@),
        valid_utf8(bytes@) ==> s@ == decode_utf8(bytes@),
{
    String::from_utf8_lossy(bytes).into_owned()
}

/// Reads a NUL-terminated entry name.
pub fn string<'a>(i: &'a [u8]) -> (r: ReadResult<'a, String>)
    ensures
        outcome(r) == spec_string(i@),
{
    let n = i.len();
    if n == 0 || i[0] == 0 {
        return Err(ReadError::Error(ParserError(i, ParserErrorKind::StringOverflow)));
    }
    let mut k: usize = 0;
    while k < n && i[k] != 0
        invariant
            k <= n,
            n == i@.len(),
            nul_free(i@.take(k as int)),
        decreases n - k,
    {
        assert(i@.take(k as int + 1) =~= i@.take(k as int).push(i@[k as int]));
        k = k + 1;
    }
    if k == n {
        proof {
            lemma_nul_index(i@);
            assert(i@.take(k as int) =~= i@);
            let c = nul_index(i@);
            if c < k {
                assert(i@.take(k as int)[c] == i@[c]);
            }
        }
        return Err(ReadError::Error(ParserError(i, ParserErrorKind::StringOverflow)));
    }
    proof {
        lemma_nul_index(i@);
        let c = nul_index(i@);
        if c < k {
            assert(i@.take(k as int)[c] == i@[c]);
        }
        if k < c {
            assert(i@.take(c)[k as int] == i@[k as int]);
        }
    }
    let bytes = slice_subrange(i, 0, k);
    let rest = slice_subrange(i, k + 1, n);
    assert(bytes@ =~= i@.take(k as int));
    assert(rest@ =~= i@.skip(k as int + 1));
    Ok((rest, utf8_lossy(bytes)))
}

/// Reads a four-byte big-endian unsigned field.
pub fn be_u32<'a>(i: &'a [u8]) -> (r: ReadResult<'a, u32>)
    ensures
        outcome(r) == spec_be_u32(i@),
{
    if i.len() < 4 {
        return Err(ReadError::Error(ParserError::from_error_kind(i, ErrorKind::Eof)));
    }
    let v: u32 = (i[0] as u32) * 0x1000000 + (i[1] as u32) * 0x10000 + (i[2] as u32) * 0x100
        + (i[3] as u32);
    let rest = slice_subrange(i, 4, i.len());
    assert(rest@ =~= i@.skip(4));
    Ok((rest, v))
}

/// Reads a four-byte big-endian unsigned field as a size.
pub fn be_usize<'a>(i: &'a [u8]) -> (r: ReadResult<'a, usize>)
    ensures
        outcome(r) == map_done(spec_be_u32(i@), |v: u32| v as usize),
{
    match be_u32(i) {
        Ok((rest, v)) => Ok((rest, v as usize)),
        Err(e) => Err(e),
    }
}

/// The part `s` of `i`, or a failure (which ends the read) where `s` does
/// not lie inside `i`.
pub fn slice_input<'a>(i: &'a [u8], s: core::ops::Range<usize>) -> (r: Result<&'a [u8], ReadError<'a>>)
    ensures
        r is Ok <==> s.start <= s.end <= i@.len(),
        r matches Ok(out) ==> out@ == i@.subrange(s.start as int, s.end as int),
        r matches Err(e) ==> e == ReadError::Failure(ParserError(i, ParserErrorKind::InvalidOffset)),
{
    if s.start <= s.end && s.end <= i.len() {
        Ok(slice_subrange(i, s.start, s.end))
    } else {
        Err(ReadError::Failure(ParserError(i, ParserErrorKind::InvalidOffset)))
    }
}

} // verus!

verus! {

/// `nul_index` is the first NUL of `s`, or its length where it has none.
pub proof fn lemma_nul_index(s: Seq<u8>)
    ensures
        0 <= nul_index(s) <= s.len(),
        nul_free(s.take(nul_index(s))),
        nul_index(s) < s.len() ==> s[nul_index(s)] == 0,
    decreases s.len(),
{
    if s.len() == 0 || s[0] == 0 {
        assert(s.take(0).len() == 0);
    } else {
        let t = s.drop_first();
        lemma_nul_index(t);
        let k = nul_index(t);
        assert forall|j: int| 0 <= j < s.take(k + 1).len() implies #[trigger] s.take(k + 1)[j] != 0 by {
            if j > 0 {
                assert(s.take(k + 1)[j] == t.take(k)[j - 1]);
            }
        }
        if k < t.len() {
            assert(s[k + 1] == t[k]);
        }
    }
}

/// A name step that succeeds consumes at least its terminator.
pub proof fn lemma_string_consumes(i: Seq<u8>)
    ensures
        spec_string(i) matches Parsed::Done(r, _) ==> r.len() < i.len(),
{
    lemma_nul_index(i);
}

} // verus!

verus! {

/// Skipping `a` bytes and then `b` more is skipping `a + b`.
pub proof fn lemma_skip_skip(s: Seq<u8>, a: int, b: int)
    requires
        0 <= a,
        0 <= b,
        a + b <= s.len(),
    ensures
        s.skip(a).skip(b) == s.skip(a + b),
{
    assert(s.skip(a).skip(b) =~= s.skip(a + b));
}

} // verus!

verus! {

/// Every byte of `b` is ASCII.
pub open spec fn is_ascii_bytes(b: Seq<u8>) -> bool {
    forall|k: int| 0 <= k < b.len() ==> b[k] < 0x80
}

/// ASCII bytes are valid UTF-8 and decode to the characters of the same codes.
pub proof fn lemma_ascii_utf8(b: Seq<u8>)
    requires
        is_ascii_bytes(b),
    ensures
        valid_utf8(b),
        decode_utf8(b) == b.map_values(|x: u8| x as char),
    decreases b.len(),
{
    if b.len() > 0 {
        let x = b[0];
        assert(x < 0x80);
        assert((x & 0x7F) == x) by (bit_vector)
            requires
                x < 0x80,
        ;
        let t = b.subrange(1, b.len() as int);
        assert(pop_first_scalar(b) == t);
        assert(is_ascii_bytes(t)) by {
            assert forall|k: int| 0 <= k < t.len() implies t[k] < 0x80 by {
                assert(t[k] == b[k + 1]);
            }
        }
        lemma_ascii_utf8(t);
        assert(b.map_values(|x: u8| x as char) =~= seq![x as char] + t.map_values(
            |x: u8| x as char,
        ));
    } else {
        assert(b.map_values(|x: u8| x as char) =~= Seq::<char>::empty());
    }
}

/// An ASCII name is read as the characters of its bytes.
pub proof fn lemma_ascii_name(i: Seq<u8>)
    ensures
        spec_c_string(i) matches Parsed::Done(r, b) ==> (is_ascii_bytes(b) ==> spec_string(i)
            == Parsed::Done(r, b.map_values(|x: u8| x as char))),
{
    if let Parsed::Done(r, b) = spec_c_string(i) {
        if is_ascii_bytes(b) {
            lemma_ascii_utf8(b);
        }
    }
}

} // verus!
