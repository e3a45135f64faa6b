//! Facts about UTF-8 byte sequences that the framing code relies on when it
//! cuts a string slice at a byte position.
use vstd::prelude::*;
use vstd::utf8::*;

verus! {

broadcast use vstd::seq::group_seq_axioms;

/// In a well-formed encoding, a position just after an ASCII byte starts a new scalar.
pub proof fn lemma_boundary_after_ascii(bytes: Seq<u8>, i: int)
    requires
        valid_utf8(bytes),
        0 < i <= bytes.len(),
        bytes[i - 1] < 0x80,
    ensures
        is_char_boundary(bytes, i),
    decreases bytes.len(),
{
    let w = length_of_first_scalar(bytes);
    let rest = pop_first_scalar(bytes);
    assert(valid_first_scalar(bytes));
    assert(1 <= w <= 4 && w <= bytes.len());
    if i - 1 < w {
        if i - 1 != 0 {
            assert(is_continuation_byte(bytes[i - 1]));
        }
        assert(w == 1);
        assert(rest.len() == bytes.len() - 1);
        assert(is_char_boundary(rest, 0));
    } else {
        assert(rest.len() == bytes.len() - w);
        assert(rest[i - w - 1] == bytes[i - 1]);
        lemma_boundary_after_ascii(rest, i - w);
    }
}

/// Two well-formed encodings placed one after the other form a well-formed
/// encoding, and the junction is a boundary of it.
pub proof fn lemma_concat_valid(a: Seq<u8>, b: Seq<u8>)
    requires
        valid_utf8(a),
        valid_utf8(b),
    ensures
        valid_utf8(a + b),
        is_char_boundary(a + b, a.len() as int),
    decreases a.len(),
{
    if a.len() == 0 {
        assert(a + b =~= b);
        assert(is_char_boundary(b, 0));
    } else {
        let ab = a + b;
        let w = length_of_first_scalar(a);
        assert(valid_first_scalar(a));
        assert(ab[0] == a[0]);
        assert(w <= a.len());
        assert(forall|j: int| 0 <= j < w ==> ab[j] == a[j]);
        assert(valid_leading_and_continuation_bytes_first_codepoint(ab));
        assert(length_of_first_scalar(ab) == w);
        assert(decode_first_codepoint(ab) == decode_first_codepoint(a));
        assert(valid_first_scalar(ab));
        assert(pop_first_scalar(ab) =~= pop_first_scalar(a) + b);
        lemma_concat_valid(pop_first_scalar(a), b);
        assert(pop_first_scalar(a).len() == a.len() - w);
    }
}

} // verus!
