//! Truncation of report payloads to a byte budget without splitting the
//! multi-byte encoding of any character, and truncation of strings for
//! display in diagnostic logs.
use vstd::prelude::*;
use vstd::slice::{slice_subrange, slice_to_vec};
use vstd::string::{StrSliceExecFns, StringExecFns};
use vstd::utf8::*;

verus! {

broadcast use vstd::slice::group_slice_axioms;

/// Index of the first byte at or after `i` that does not have the form of
/// a UTF-8 continuation byte (or the end of the sequence).
pub open spec fn continuation_run_end(bytes: Seq<u8>, i: int) -> int
    decreases bytes.len() - i,
    when 0 <= i <= bytes.len()
{
    if i < bytes.len() && is_continuation_byte(bytes[i]) {
        continuation_run_end(bytes, i + 1)
    } else {
        i
    }
}

/// Index of the last byte at or before `i` that does not have the form of
/// a UTF-8 continuation byte (or the start of the sequence).
pub open spec fn continuation_run_start(bytes: Seq<u8>, i: int) -> int
    decreases i,
    when 0 <= i <= bytes.len()
{
    if 0 < i && i < bytes.len() && is_continuation_byte(bytes[i]) {
        continuation_run_start(bytes, i - 1)
    } else {
        i
    }
}

/// The tail-truncated view of `bytes` under `budget`: the whole sequence
/// when it fits, otherwise its last `budget` bytes with any leading
/// partial character encoding dropped.
pub open spec fn tail_truncated(bytes: Seq<u8>, budget: int) -> Seq<u8> {
    if bytes.len() <= budget {
        bytes
    } else {
        bytes.subrange(continuation_run_end(bytes, bytes.len() - budget), bytes.len() as int)
    }
}

/// The head-truncated view of `bytes` under `budget`: the whole sequence
/// when it fits, otherwise its first `budget` bytes with any trailing
/// partial character encoding dropped.
pub open spec fn head_truncated(bytes: Seq<u8>, budget: int) -> Seq<u8> {
    if bytes.len() <= budget {
        bytes
    } else {
        bytes.subrange(0, continuation_run_start(bytes, budget))
    }
}

proof fn lemma_continuation_run_end_bounds(bytes: Seq<u8>, i: int)
    requires
        0 <= i <= bytes.len(),
    ensures
        i <= continuation_run_end(bytes, i) <= bytes.len(),
        continuation_run_end(bytes, i) < bytes.len() ==> !is_continuation_byte(
            bytes[continuation_run_end(bytes, i)],
        ),
        forall|j: int|
            i <= j < continuation_run_end(bytes, i) ==> #[trigger] is_continuation_byte(bytes[j]),
    decreases bytes.len() - i,
{
    if i < bytes.len() && is_continuation_byte(bytes[i]) {
        lemma_continuation_run_end_bounds(bytes, i + 1);
    }
}

proof fn lemma_continuation_run_start_bounds(bytes: Seq<u8>, i: int)
    requires
        0 <= i <= bytes.len(),
    ensures
        0 <= continuation_run_start(bytes, i) <= i,
        0 < continuation_run_start(bytes, i) < bytes.len() ==> !is_continuation_byte(
            bytes[continuation_run_start(bytes, i)],
        ),
        forall|j: int|
            continuation_run_start(bytes, i) < j <= i && j < bytes.len()
                ==> #[trigger] is_continuation_byte(bytes[j]),
    decreases i,
{
    if 0 < i && i < bytes.len() && is_continuation_byte(bytes[i]) {
        lemma_continuation_run_start_bounds(bytes, i - 1);
    }
}

/// In a valid UTF-8 byte sequence no four consecutive bytes all have the
/// form of continuation bytes, since every character encoding is at most
/// four bytes long and starts with a leading byte.
proof fn lemma_no_four_continuation_bytes(bytes: Seq<u8>, i: int)
    requires
        valid_utf8(bytes),
        0 <= i,
        i + 3 < bytes.len(),
    ensures
        !(is_continuation_byte(bytes[i]) && is_continuation_byte(bytes[i + 1])
            && is_continuation_byte(bytes[i + 2]) && is_continuation_byte(bytes[i + 3])),
    decreases bytes.len(),
{
    let l = length_of_first_scalar(bytes);
    let rest = pop_first_scalar(bytes);
    assert(valid_first_scalar(bytes));
    assert(1 <= l <= 4);
    assert(!is_continuation_byte(bytes[0]));
    assert(rest =~= bytes.subrange(l, bytes.len() as int));
    if i >= l {
        lemma_no_four_continuation_bytes(rest, i - l);
        assert(rest[i - l] == bytes[i]);
        assert(rest[i - l + 1] == bytes[i + 1]);
        assert(rest[i - l + 2] == bytes[i + 2]);
        assert(rest[i - l + 3] == bytes[i + 3]);
    } else if i > 0 {
        assert(l < bytes.len());
        assert(rest.len() > 0);
        assert(valid_utf8(rest));
        reveal_with_fuel(valid_utf8, 2);
        assert(valid_first_scalar(rest));
        assert(!is_continuation_byte(rest[0]));
        assert(rest[0] == bytes[l]);
        assert(i < l <= i + 3);
    }
}

/// The cut index chosen by tail truncation lies within three bytes of the
/// budget limit, falls on a character boundary, and leaves a valid UTF-8
/// suffix of at most `budget` bytes: the last `budget` bytes with the
/// partial leading character encoding, if any, dropped.
pub proof fn lemma_tail_truncated_properties(bytes: Seq<u8>, budget: int)
    requires
        valid_utf8(bytes),
        0 < budget < bytes.len(),
    ensures
        ({
            let cut = continuation_run_end(bytes, bytes.len() - budget);
            &&& tail_truncated(bytes, budget) == bytes.subrange(cut, bytes.len() as int)
            &&& bytes.len() - budget <= cut <= bytes.len() - budget + 3
            &&& cut <= bytes.len()
            &&& is_char_boundary(bytes, cut)
            &&& valid_utf8(tail_truncated(bytes, budget))
            &&& tail_truncated(bytes, budget).len() <= budget
        }),
{
    let start = bytes.len() - budget;
    let cut = continuation_run_end(bytes, start);
    lemma_continuation_run_end_bounds(bytes, start);
    if cut > start + 3 {
        lemma_no_four_continuation_bytes(bytes, start);
        assert(is_continuation_byte(bytes[start]));
        assert(is_continuation_byte(bytes[start + 1]));
        assert(is_continuation_byte(bytes[start + 2]));
        assert(is_continuation_byte(bytes[start + 3]));
        assert(false);
    }
    if cut == bytes.len() {
        is_char_boundary_start_end_of_seq(bytes);
    } else {
        is_char_boundary_iff_not_is_continuation_byte(bytes, cut);
    }
    valid_utf8_split(bytes, cut);
}

/// The cut index chosen by head truncation lies within three bytes of the
/// budget limit, falls on a character boundary, and leaves a valid UTF-8
/// prefix of at most `budget` bytes: the first `budget` bytes with the
/// partial trailing character encoding, if any, dropped.
pub proof fn lemma_head_truncated_properties(bytes: Seq<u8>, budget: int)
    requires
        valid_utf8(bytes),
        0 < budget < bytes.len(),
    ensures
        ({
            let cut = continuation_run_start(bytes, budget);
            &&& head_truncated(bytes, budget) == bytes.subrange(0, cut)
            &&& budget - 3 <= cut <= budget
            &&& is_char_boundary(bytes, cut)
            &&& valid_utf8(head_truncated(bytes, budget))
            &&& head_truncated(bytes, budget).len() <= budget
        }),
{
    let cut = continuation_run_start(bytes, budget);
    lemma_continuation_run_start_bounds(bytes, budget);
    if cut < budget - 3 {
        lemma_no_four_continuation_bytes(bytes, cut + 1);
        assert(is_continuation_byte(bytes[cut + 1]));
        assert(is_continuation_byte(bytes[cut + 2]));
        assert(is_continuation_byte(bytes[cut + 3]));
        assert(is_continuation_byte(bytes[cut + 4]));
        assert(false);
    }
    if cut == 0 {
        is_char_boundary_start_end_of_seq(bytes);
        assert(is_char_boundary(bytes, 0));
    } else {
        is_char_boundary_iff_not_is_continuation_byte(bytes, cut);
    }
    valid_utf8_split(bytes, cut);
}

/// Either truncation policy yields valid UTF-8 of at most `budget` bytes
/// when it starts from valid UTF-8.
pub proof fn lemma_truncated_valid(bytes: Seq<u8>, budget: int)
    requires
        valid_utf8(bytes),
        0 < budget,
    ensures
        valid_utf8(tail_truncated(bytes, budget)),
        tail_truncated(bytes, budget).len() <= budget,
        valid_utf8(head_truncated(bytes, budget)),
        head_truncated(bytes, budget).len() <= budget,
{
    if bytes.len() > budget {
        lemma_tail_truncated_properties(bytes, budget);
        lemma_head_truncated_properties(bytes, budget);
    }
}

/// A sequence that fits in the budget is left untouched by either policy.
pub proof fn lemma_truncation_identity(bytes: Seq<u8>, budget: int)
    requires
        bytes.len() <= budget,
    ensures
        tail_truncated(bytes, budget) == bytes,
        head_truncated(bytes, budget) == bytes,
{
}

/// Keeps the most recent bytes of `bytes` that fit within `budget`,
/// dropping the partial character encoding, if any, at the cut.
pub fn truncate_tail(bytes: &Vec<u8>, budget: usize) -> (r: Vec<u8>)
    ensures
        r@ == tail_truncated(bytes@, budget as int),
{
    let len = bytes.len();
    if len <= budget {
        slice_to_vec(bytes.as_slice())
    } else {
        let mut i: usize = len - budget;
        while i < len && bytes[i] >= 0x80 && bytes[i] <= 0xbf
            invariant
                len == bytes@.len(),
                len - budget <= i <= len,
                continuation_run_end(bytes@, len - budget) == continuation_run_end(
                    bytes@,
                    i as int,
                ),
            decreases len - i,
        {
            i = i + 1;
        }
        assert(continuation_run_end(bytes@, i as int) == i);
        slice_to_vec(slice_subrange(bytes.as_slice(), i, len))
    }
}

/// Keeps the earliest bytes of `bytes` that fit within `budget`,
/// dropping the partial character encoding, if any, at the cut.
pub fn truncate_head(bytes: &Vec<u8>, budget: usize) -> (r: Vec<u8>)
    ensures
        r@ == head_truncated(bytes@, budget as int),
{
    let len = bytes.len();
    if len <= budget {
        slice_to_vec(bytes.as_slice())
    } else {
        let mut i: usize = budget;
        while i > 0 && bytes[i] >= 0x80 && bytes[i] <= 0xbf
            invariant
                len == bytes@.len(),
                0 <= i <= budget < len,
                continuation_run_start(bytes@, budget as int) == continuation_run_start(
                    bytes@,
                    i as int,
                ),
            decreases i,
        {
            i = i - 1;
        }
        assert(continuation_run_start(bytes@, i as int) == i);
        slice_to_vec(slice_subrange(bytes.as_slice(), 0, i))
    }
}

/// The display-truncated view of `s` under `max_len`: the whole string
/// when its byte length fits, otherwise its first `max_len - 3`
/// characters followed by three dots.
pub open spec fn display_truncated(s: Seq<char>, max_len: int) -> Seq<char> {
    if encode_utf8(s).len() <= max_len {
        s
    } else if s.len() < max_len - 3 {
        s + "..."@
    } else {
        s.subrange(0, max_len - 3) + "..."@
    }
}

/// For ASCII strings longer than the display budget, truncation keeps
/// exactly the first `max_len - 3` characters, appends exactly three
/// dots, and the result never exceeds the budget.
pub proof fn lemma_display_truncated_bound(s: Seq<char>, max_len: int)
    requires
        3 <= max_len,
        is_ascii_chars(s),
        encode_utf8(s).len() > max_len,
    ensures
        display_truncated(s, max_len) == s.subrange(0, max_len - 3) + "..."@,
        display_truncated(s, max_len).len() == max_len,
        encode_utf8(display_truncated(s, max_len)).len() == max_len,
{
    is_ascii_chars_encode_utf8(s);
    assert(s.len() > max_len);
    reveal_strlit("...");
    assert("..."@.len() == 3);
    let r = s.subrange(0, max_len - 3) + "..."@;
    assert(display_truncated(s, max_len) == r);
    assert(r.len() == max_len);
    assert(is_ascii_chars(r)) by {
        assert(forall|i: int|
            0 <= i < max_len - 3 ==> r[i] == s.subrange(0, max_len - 3)[i] && #[trigger] r[i]
                == s[i]);
        assert(forall|i: int| max_len - 3 <= i < max_len ==> #[trigger] r[i] == '.');
    }
    is_ascii_chars_encode_utf8(r);
}

/// Truncates a string for display.
pub fn truncate_str(s: String, max_len: usize) -> (r: String)
    requires
        3 <= max_len,
    ensures
        r@ == display_truncated(s@, max_len as int),
{
    let n_bytes = s.as_str().as_bytes().len();
    if n_bytes > max_len {
        let n = s.as_str().unicode_len();
        let k = if n < max_len - 3 {
            n
        } else {
            max_len - 3
        };
        let head = s.as_str().substring_char(0, k);
        let mut r = String::from_str(head);
        r.append("...");
        assert(r@ == s@.subrange(0, k as int) + "..."@);
        assert(encode_utf8(s@).len() > max_len);
        if k == n {
            assert(s@.subrange(0, k as int) =~= s@);
            assert(r@ == s@ + "..."@);
        } else {
            assert(k == max_len - 3 && s@.len() >= max_len - 3);
        }
        r
    } else {
        s
    }
}

} // verus!
