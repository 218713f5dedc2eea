//! Small text-building blocks shared by the formatter and the check-in
//! client: decimal rendering of integers as ASCII bytes, byte-buffer
//! concatenation, and the conversions between byte buffers and `String`.
use vstd::prelude::*;
use vstd::utf8::{
    decode_first_scalar, decode_utf8, is_leading_byte_width_1, length_of_first_scalar,
    partial_valid_utf8_extend_ascii_block, pop_first_scalar, valid_first_scalar, valid_utf8,
};

verus! {

/// The decimal digits of `n` as ASCII bytes, most significant first,
/// with no leading zeros (a single `'0'` for zero).
pub open spec fn dec_digits(n: nat) -> Seq<u8>
    decreases n,
{
    if n < 10 {
        seq![(48 + n) as u8]
    } else {
        dec_digits(n / 10).push((48 + n % 10) as u8)
    }
}

/// The low `width` decimal digits of `n` as ASCII bytes, most significant
/// first, left-padded with `'0'` up to exactly `width` bytes.
pub open spec fn padded_digits(n: nat, width: nat) -> Seq<u8>
    decreases width,
{
    if width == 0 {
        seq![]
    } else {
        padded_digits(n / 10, (width - 1) as nat).push((48 + n % 10) as u8)
    }
}

/// Every decimal digit byte is an ASCII byte.
pub proof fn lemma_dec_digits_ascii(n: nat)
    ensures
        forall|i: int|
            0 <= i < dec_digits(n).len() ==> is_leading_byte_width_1(#[trigger] dec_digits(n)[i]),
    decreases n,
{
    if n < 10 {
        assert(dec_digits(n) =~= seq![(48 + n) as u8]);
        assert(is_leading_byte_width_1((48 + n) as u8));
    } else {
        lemma_dec_digits_ascii(n / 10);
        assert(n % 10 < 10);
        assert(is_leading_byte_width_1((48 + n % 10) as u8));
        assert(forall|i: int|
            0 <= i < dec_digits(n).len() - 1 ==> #[trigger] dec_digits(n)[i] == dec_digits(
                n / 10,
            )[i]);
    }
}

/// Every padded digit byte is an ASCII byte.
pub proof fn lemma_padded_digits_ascii(n: nat, width: nat)
    ensures
        forall|i: int|
            0 <= i < padded_digits(n, width).len() ==> is_leading_byte_width_1(
                #[trigger] padded_digits(n, width)[i],
            ),
    decreases width,
{
    if width > 0 {
        lemma_padded_digits_ascii(n / 10, (width - 1) as nat);
        assert(n % 10 < 10);
        assert(is_leading_byte_width_1((48 + n % 10) as u8));
        assert(forall|i: int|
            0 <= i < padded_digits(n, width).len() - 1 ==> #[trigger] padded_digits(n, width)[i]
                == padded_digits(n / 10, (width - 1) as nat)[i]);
    }
}

/// A sequence of ASCII bytes is a valid UTF-8 encoding.
pub proof fn lemma_ascii_bytes_valid_utf8(s: Seq<u8>)
    requires
        forall|i: int| 0 <= i < s.len() ==> is_leading_byte_width_1(#[trigger] s[i]),
    ensures
        valid_utf8(s),
{
    assert(valid_utf8(s.subrange(0, 0)));
    partial_valid_utf8_extend_ascii_block(s, 0, s.len() as int);
    assert(s.subrange(0, s.len() as int) =~= s);
}

/// ASCII bytes form valid UTF-8 and decode to their characters one for
/// one.
pub proof fn lemma_decode_ascii_bytes(bytes: Seq<u8>)
    requires
        forall|i: int| 0 <= i < bytes.len() ==> is_leading_byte_width_1(#[trigger] bytes[i]),
    ensures
        valid_utf8(bytes),
        decode_utf8(bytes).len() == bytes.len(),
        forall|i: int|
            0 <= i < bytes.len() ==> #[trigger] decode_utf8(bytes)[i] == bytes[i] as char,
    decreases bytes.len(),
{
    lemma_ascii_bytes_valid_utf8(bytes);
    if bytes.len() > 0 {
        let b0 = bytes[0];
        assert(valid_first_scalar(bytes));
        assert(length_of_first_scalar(bytes) == 1);
        assert(b0 < 0x80);
        assert(b0 & 0x7f == b0) by (bit_vector)
            requires
                b0 < 0x80,
        ;
        assert(decode_first_scalar(bytes) == b0 as u32);
        let rest = pop_first_scalar(bytes);
        assert(rest =~= bytes.drop_first());
        lemma_decode_ascii_bytes(rest);
        assert forall|i: int|
            0 <= i < bytes.len() implies #[trigger] decode_utf8(bytes)[i] == bytes[i] as char by {
            if i == 0 {
                assert(decode_utf8(bytes)[0] == (b0 as u32) as char);
            } else {
                assert(decode_utf8(bytes)[i] == decode_utf8(rest)[i - 1]);
                assert(decode_utf8(rest)[i - 1] == rest[i - 1] as char);
                assert(rest[i - 1] == bytes[i]);
            }
        }
    }
}

/// Appends the decimal rendering of `n` to `buf`.
pub fn push_dec_u64(buf: &mut Vec<u8>, n: u64)
    ensures
        final(buf)@ == old(buf)@ + dec_digits(n as nat),
    decreases n,
{
    if n < 10 {
        buf.push(48 + n as u8);
        assert(buf@ =~= old(buf)@ + dec_digits(n as nat));
    } else {
        push_dec_u64(buf, n / 10);
        buf.push(48 + (n % 10) as u8);
        assert(buf@ =~= old(buf)@ + dec_digits(n as nat));
    }
}

/// Appends the zero-padded decimal rendering of `n` to `buf`.
pub fn push_padded_u32(buf: &mut Vec<u8>, n: u32, width: usize)
    ensures
        final(buf)@ == old(buf)@ + padded_digits(n as nat, width as nat),
    decreases width,
{
    if width > 0 {
        push_padded_u32(buf, n / 10, width - 1);
        buf.push(48 + (n % 10) as u8);
        assert(buf@ =~= old(buf)@ + padded_digits(n as nat, width as nat));
    } else {
        assert(buf@ =~= old(buf)@ + padded_digits(n as nat, 0));
    }
}

/// Appends the bytes of `s` to `buf`.
pub fn append_bytes(buf: &mut Vec<u8>, s: &[u8])
    ensures
        final(buf)@ == old(buf)@ + s@,
{
    let mut i: usize = 0;
    while i < s.len()
        invariant
            i <= s@.len(),
            buf@ == old(buf)@ + s@.subrange(0, i as int),
        decreases s@.len() - i,
    {
        buf.push(s[i]);
        assert(buf@ =~= old(buf)@ + s@.subrange(0, i + 1 as int));
        i = i + 1;
    }
    assert(s@.subrange(0, s@.len() as int) =~= s@);
}

/// What `String::from_utf8_lossy` returns for a byte sequence that is
/// not valid UTF-8: the characters it encodes, with every ill-formed
/// part replaced by the replacement character.
pub uninterp spec fn lossy_decode_of(bytes: Seq<u8>) -> Seq<char>;

/// The characters a lossy decode of `bytes` yields: exactly the decoded
/// characters when the bytes are valid UTF-8, and the
/// replacement-substituted sequence otherwise.
pub open spec fn lossy_chars(bytes: Seq<u8>) -> Seq<char> {
    if valid_utf8(bytes) {
        decode_utf8(bytes)
    } else {
        lossy_decode_of(bytes)
    }
}

/// Relies on `String::from_utf8_lossy`: the result depends on the bytes
/// alone, and bytes that already are valid UTF-8 decode unchanged.
#[verifier::external_body]
pub(crate) fn lossy_string(bytes: &[u8]) -> (r: String)
    ensures
        r@ == lossy_chars(bytes@),
        !valid_utf8(bytes@) ==> r@ == lossy_decode_of(bytes@),
{
    String::from_utf8_lossy(bytes).into_owned()
}

/// Relies on `String::from_utf8`: valid UTF-8 bytes convert to exactly
/// the string they encode.
#[verifier::external_body]
pub(crate) fn utf8_string(bytes: Vec<u8>) -> (r: String)
    requires
        valid_utf8(bytes@),
    ensures
        r@ == decode_utf8(bytes@),
{
    match String::from_utf8(bytes) {
        Ok(s) => s,
        Err(_) => String::new(),
    }
}

} // verus!
