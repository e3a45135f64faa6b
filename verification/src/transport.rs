//! Framing of the chart websocket protocol: every message travels as
//! `~m~<byte length>~m~<payload>`, and one websocket frame may hold several
//! such messages back to back.
use vstd::prelude::*;
use vstd::string::StringSliceAdditionalSpecFns;
use vstd::utf8::*;

use crate::error::Error;
use crate::text::{decimal_text, hex_fixed, push_char, push_decimal, push_hex_fixed};
use crate::utf8_facts::{lemma_boundary_after_ascii, lemma_concat_valid};

verus! {

broadcast use vstd::seq::group_seq_axioms, vstd::utf8::encode_utf8_valid_utf8;

/// `~`
pub open spec fn tilde() -> u8 {
    126u8
}

/// `m`
pub open spec fn letter_m() -> u8 {
    109u8
}

/// The three bytes `~m~` start at position `i` of `b`.
pub open spec fn marker_at(b: Seq<u8>, i: int) -> bool {
    &&& 0 <= i
    &&& i + 3 <= b.len()
    &&& b[i] == tilde()
    &&& b[i + 1] == letter_m()
    &&& b[i + 2] == tilde()
}

/// The first position at or after `from` where `~m~` starts, if any.
pub open spec fn marker_search(b: Seq<u8>, from: int) -> Option<int>
    decreases b.len() - from,
{
    if from < 0 || from + 3 > b.len() {
        None
    } else if marker_at(b, from) {
        Some(from)
    } else {
        marker_search(b, from + 1)
    }
}

pub proof fn lemma_marker_search(b: Seq<u8>, from: int)
    requires
        0 <= from,
    ensures
        marker_search(b, from) matches Some(k) ==> {
            &&& from <= k
            &&& marker_at(b, k)
            &&& forall|j: int| from <= j < k ==> !marker_at(b, j)
        },
        marker_search(b, from) is None ==> forall|j: int| from <= j ==> !marker_at(b, j),
    decreases b.len() - from,
{
    if from + 3 <= b.len() && !marker_at(b, from) {
        lemma_marker_search(b, from + 1);
    }
}

pub open spec fn is_digit(c: u8) -> bool {
    48 <= c <= 57
}

/// The number written by a sequence of decimal digits.
pub open spec fn digits_value(d: Seq<u8>) -> nat
    decreases d.len(),
{
    if d.len() == 0 {
        0
    } else {
        digits_value(d.drop_last()) * 10 + (d.last() - 48) as nat
    }
}

pub open spec fn all_digits(d: Seq<u8>) -> bool {
    forall|i: int| 0 <= i < d.len() ==> is_digit(d[i])
}

/// What `str::parse::<usize>` gives for the given bytes: an optional `+`,
/// then at least one decimal digit and nothing else, with a value that fits.
pub open spec fn parse_usize_spec(s: Seq<u8>) -> Option<usize> {
    let d = if s.len() > 0 && s[0] == 43u8 {
        s.drop_first()
    } else {
        s
    };
    if d.len() == 0 || !all_digits(d) || digits_value(d) > usize::MAX {
        None
    } else {
        Some(digits_value(d) as usize)
    }
}

/// Why a frame was rejected.
pub enum FrameFault {
    MissingLengthSeparator,
    InvalidLength,
    LengthExceedsPayload,
    UnexpectedPrefix,
}

/// The message that the library's [`Error::Protocol`] carries for each fault.
pub open spec fn fault_message(f: FrameFault) -> &'static str {
    match f {
        FrameFault::MissingLengthSeparator => "missing websocket frame length separator",
        FrameFault::InvalidLength => "invalid websocket frame length",
        FrameFault::LengthExceedsPayload => "declared websocket frame length exceeds payload",
        FrameFault::UnexpectedPrefix => "unexpected websocket frame prefix",
    }
}

/// Outcome of reading a websocket frame as a series of messages.
pub enum FrameScan {
    /// The payload bytes of each message, in order.
    Payloads(Seq<Seq<u8>>),
    Fault(FrameFault),
    /// A declared length ends in the middle of a UTF-8 scalar.
    CutsScalar,
}

/// Puts `front` before the payloads of a scan; faults pass through unchanged.
pub open spec fn prepend_payloads(front: Seq<Seq<u8>>, scan: FrameScan) -> FrameScan {
    match scan {
        FrameScan::Payloads(ps) => FrameScan::Payloads(front + ps),
        other => other,
    }
}

/// Reads `b` from the start: a message begins with `~m~`, its decimal byte
/// length and `~m~`; anything else up to and including the next `~m~` is
/// skipped; an input with no further `~m~` is rejected.
pub open spec fn scan_frames(b: Seq<u8>) -> FrameScan
    decreases b.len(),
{
    if b.len() == 0 {
        FrameScan::Payloads(seq![])
    } else if marker_at(b, 0) {
        match marker_search(b, 3) {
            None => FrameScan::Fault(FrameFault::MissingLengthSeparator),
            Some(m) => {
                proof {
                    lemma_marker_search(b, 3);
                }
                match parse_usize_spec(b.subrange(3, m)) {
                    None => FrameScan::Fault(FrameFault::InvalidLength),
                    Some(len) => {
                        let tail = b.subrange(m + 3, b.len() as int);
                        if tail.len() < len {
                            FrameScan::Fault(FrameFault::LengthExceedsPayload)
                        } else if !is_char_boundary(tail, len as int) {
                            FrameScan::CutsScalar
                        } else {
                            prepend_payloads(
                                seq![tail.take(len as int)],
                                scan_frames(tail.skip(len as int)),
                            )
                        }
                    },
                }
            },
        }
    } else {
        match marker_search(b, 0) {
            None => FrameScan::Fault(FrameFault::UnexpectedPrefix),
            Some(k) => {
                proof {
                    lemma_marker_search(b, 0);
                }
                scan_frames(b.subrange(k + 3, b.len() as int))
            },
        }
    }
}

proof fn lemma_prepend_twice(a: Seq<Seq<u8>>, b: Seq<Seq<u8>>, scan: FrameScan)
    ensures
        prepend_payloads(a, prepend_payloads(b, scan)) == prepend_payloads(a + b, scan),
{
    if let FrameScan::Payloads(ps) = scan {
        assert(a + (b + ps) =~= (a + b) + ps);
    }
}

/// The UTF-8 bytes of each string.
pub open spec fn payload_bytes(v: Seq<&str>) -> Seq<Seq<u8>> {
    v.map_values(|p: &str| p.spec_bytes())
}

/// The first position at or after `from` where `~m~` starts.
fn find_marker(b: &[u8], from: usize) -> (r: Option<usize>)
    ensures
        r matches Some(k) ==> marker_search(b@, from as int) == Some(k as int),
        r is None ==> marker_search(b@, from as int) is None,
{
    let n = b.len();
    let mut i = from;
    while i < n && n - i >= 3
        invariant
            n == b@.len(),
            from <= i,
            marker_search(b@, from as int) == marker_search(b@, i as int),
        decreases n - i,
    {
        if b[i] == 126 && b[i + 1] == 109 && b[i + 2] == 126 {
            return Some(i);
        }
        i = i + 1;
    }
    None
}

proof fn lemma_digits_value_push(d: Seq<u8>, c: u8)
    ensures
        digits_value(d.push(c)) == digits_value(d) * 10 + (c - 48) as nat,
{
    assert(d.push(c).drop_last() =~= d);
}

/// Reads the decimal length written in `b[start..end]` as `str::parse::<usize>` does.
fn parse_length(b: &[u8], start: usize, end: usize) -> (r: Option<usize>)
    requires
        start <= end <= b@.len(),
    ensures
        r == parse_usize_spec(b@.subrange(start as int, end as int)),
{
    let ghost s = b@.subrange(start as int, end as int);
    let mut i = start;
    if i < end && b[i] == 43 {
        i = i + 1;
    }
    let ghost d = b@.subrange(i as int, end as int);
    assert(d =~= (if s.len() > 0 && s[0] == 43u8 { s.drop_first() } else { s }));
    if i == end {
        return None;
    }
    let first = i;
    let mut value: usize = 0;
    let mut fits = true;
    while i < end
        invariant
            first <= i <= end <= b@.len(),
            d == b@.subrange(first as int, end as int),
            s == b@.subrange(start as int, end as int),
            d == (if s.len() > 0 && s[0] == 43u8 { s.drop_first() } else { s }),
            d.len() > 0,
            all_digits(b@.subrange(first as int, i as int)),
            fits ==> value as nat == digits_value(b@.subrange(first as int, i as int)),
            !fits ==> digits_value(b@.subrange(first as int, i as int)) > usize::MAX,
        decreases end - i,
    {
        let c = b[i];
        if c < 48 || c > 57 {
            assert(d[i - first] == c);
            assert(!all_digits(d));
            return None;
        }
        let ghost prefix = b@.subrange(first as int, i as int);
        assert(b@.subrange(first as int, i + 1) =~= prefix.push(c));
        proof {
            lemma_digits_value_push(prefix, c);
        }
        if fits {
            match value.checked_mul(10) {
                Some(v10) => match v10.checked_add((c - 48) as usize) {
                    Some(v) => {
                        value = v;
                    },
                    None => {
                        fits = false;
                    },
                },
                None => {
                    fits = false;
                },
            }
        } else {
            assert(digits_value(prefix.push(c)) >= digits_value(prefix) * 10) by (nonlinear_arith)
                requires
                    digits_value(prefix.push(c)) == digits_value(prefix) * 10 + (c - 48) as nat,
            ;
        }
        i = i + 1;
    }
    assert(b@.subrange(first as int, i as int) =~= d);
    if fits {
        Some(value)
    } else {
        None
    }
}

/// Splits a websocket frame into the payloads of the messages it carries,
/// or gives `None` where a declared length ends inside a UTF-8 scalar (the
/// text cannot be sliced there).
///
/// Text between messages that does not start with `~m~` is skipped up to
/// the next `~m~`.
pub fn scan_framed_messages(frame: &str) -> (r: Option<Result<Vec<&str>, Error>>)
    ensures
        match scan_frames(frame.spec_bytes()) {
            FrameScan::Payloads(ps) => r matches Some(Ok(v)) && payload_bytes(v@) == ps,
            FrameScan::Fault(f) => r matches Some(Err(e)) && e == Error::Protocol(fault_message(f)),
            FrameScan::CutsScalar => r is None,
        },
{
    let mut rest: &str = frame;
    let mut payloads: Vec<&str> = Vec::new();
    while !rest.is_empty()
        invariant
            scan_frames(frame.spec_bytes()) == prepend_payloads(
                payload_bytes(payloads@),
                scan_frames(rest.spec_bytes()),
            ),
        decreases rest.spec_bytes().len(),
    {
        let ghost b = rest.spec_bytes();
        let bytes = rest.as_bytes();
        let n = rest.len();
        assert(bytes@ == b);
        if n >= 3 && bytes[0] == 126 && bytes[1] == 109 && bytes[2] == 126 {
            assert(marker_at(b, 0));
            let m = match find_marker(bytes, 3) {
                Some(m) => m,
                None => {
                    return Some(Err(Error::Protocol("missing websocket frame length separator")));
                },
            };
            proof {
                lemma_marker_search(b, 3);
            }
            let len = match parse_length(bytes, 3, m) {
                Some(len) => len,
                None => {
                    return Some(Err(Error::Protocol("invalid websocket frame length")));
                },
            };
            let start = m + 3;
            if n - start < len {
                return Some(
                    Err(Error::Protocol("declared websocket frame length exceeds payload")),
                );
            }
            proof {
                lemma_boundary_after_ascii(b, start as int);
            }
            let (_, tail) = rest.split_at(start);
            assert(tail.spec_bytes() =~= b.subrange(start as int, b.len() as int));
            if !tail.is_char_boundary(len) {
                return None;
            }
            let (payload, remainder) = tail.split_at(len);
            let ghost before = payloads@;
            payloads.push(payload);
            assert(payload_bytes(payloads@) =~= payload_bytes(before) + seq![payload.spec_bytes()]);
            assert(payload.spec_bytes() =~= tail.spec_bytes().take(len as int));
            assert(remainder.spec_bytes() =~= tail.spec_bytes().skip(len as int));
            proof {
                let tb = tail.spec_bytes();
                assert(scan_frames(b) == prepend_payloads(
                    seq![tb.take(len as int)],
                    scan_frames(tb.skip(len as int)),
                ));
                lemma_prepend_twice(
                    payload_bytes(before),
                    seq![tb.take(len as int)],
                    scan_frames(tb.skip(len as int)),
                );
            }
            rest = remainder;
        } else {
            assert(n == b.len());
            if n >= 3 {
                assert(bytes[0] == b[0]);
                assert(!(b[0] == 126u8 && b[1] == 109u8 && b[2] == 126u8));
            }
            assert(!marker_at(b, 0));
            match find_marker(bytes, 0) {
                Some(k) => {
                    assert(marker_search(b, 0) == Some(k as int));
                    proof {
                        lemma_marker_search(b, 0);
                        lemma_boundary_after_ascii(b, k + 3);
                    }
                    let (_, remainder) = rest.split_at(k + 3);
                    assert(remainder.spec_bytes() =~= b.subrange(k + 3, b.len() as int));
                    rest = remainder;
                },
                None => {
                    return Some(Err(Error::Protocol("unexpected websocket frame prefix")));
                },
            }
        }
    }
    assert(payload_bytes(payloads@) + seq![] =~= payload_bytes(payloads@));
    Some(Ok(payloads))
}

/// Splits a websocket frame into the payloads of the messages it carries.
///
/// A frame whose declared length would end inside a UTF-8 scalar is outside
/// the domain (see [`scan_framed_messages`] for a check).
pub fn parse_framed_messages(frame: &str) -> (r: Result<Vec<&str>, Error>)
    requires
        !(scan_frames(frame.spec_bytes()) is CutsScalar),
    ensures
        match scan_frames(frame.spec_bytes()) {
            FrameScan::Payloads(ps) => r matches Ok(v) && payload_bytes(v@) == ps,
            FrameScan::Fault(f) => r matches Err(e) && e == Error::Protocol(fault_message(f)),
            FrameScan::CutsScalar => false,
        },
{
    match scan_framed_messages(frame) {
        Some(r) => r,
        None => {
            assert(false);
            Ok(Vec::new())
        },
    }
}

// ---------------------------------------------------------------- writing

/// `~m~`
pub open spec fn marker_text() -> Seq<char> {
    seq!['~', 'm', '~']
}

/// How a payload travels: `~m~<byte length>~m~<payload>`.
pub open spec fn framed_text(payload: Seq<char>) -> Seq<char> {
    marker_text() + decimal_text(encode_utf8(payload).len()) + marker_text() + payload
}

/// Wraps a payload in the message framing of the chart websocket.
pub fn frame_payload(payload: &str) -> (framed: String)
    ensures
        framed@ == framed_text(payload@),
{
    let mut out = String::new();
    proof {
        reveal_strlit("~m~");
    }
    assert("~m~"@ =~= marker_text());
    out.append("~m~");
    let n = payload.as_bytes().len();
    assert(n as nat == encode_utf8(payload@).len());
    push_decimal(&mut out, n as u64);
    assert(out@ == marker_text() + decimal_text(encode_utf8(payload@).len()));
    out.append("~m~");
    out.append(payload);
    assert(out@ =~= framed_text(payload@));
    out
}

/// The identifier of a chart or quote session: the prefix, `_`, and the
/// counter as sixteen lower-case hexadecimal digits.
pub open spec fn session_id_text(prefix: Seq<char>, counter: u64) -> Seq<char> {
    prefix.push('_') + hex_fixed(counter as nat, 16)
}

/// Renders a session identifier from its prefix and the value of the session counter.
pub fn format_session_id(prefix: &str, counter: u64) -> (id: String)
    ensures
        id@ == session_id_text(prefix@, counter),
{
    let mut out = String::new();
    out.append(prefix);
    push_char(&mut out, '_');
    push_hex_fixed(&mut out, counter, 16);
    out
}

// ---------------------------------------------------------------- laws

/// The bytes of `~m~`.
pub open spec fn marker_bytes() -> Seq<u8> {
    seq![126u8, 109u8, 126u8]
}

/// Decimal digits of `n` as ASCII bytes.
pub open spec fn decimal_bytes(n: nat) -> Seq<u8>
    decreases n,
{
    if n < 10 {
        seq![(48 + n) as u8]
    } else {
        decimal_bytes(n / 10).push((48 + n % 10) as u8)
    }
}

/// One framed message, as bytes.
pub open spec fn frame_bytes(payload: Seq<u8>) -> Seq<u8> {
    marker_bytes() + decimal_bytes(payload.len()) + marker_bytes() + payload
}

/// Several framed messages back to back, as bytes.
pub open spec fn concat_frames(payloads: Seq<Seq<u8>>) -> Seq<u8>
    decreases payloads.len(),
{
    if payloads.len() == 0 {
        Seq::empty()
    } else {
        frame_bytes(payloads[0]) + concat_frames(payloads.drop_first())
    }
}

proof fn lemma_decimal_bytes(n: nat)
    ensures
        decimal_bytes(n).len() >= 1,
        all_digits(decimal_bytes(n)),
        digits_value(decimal_bytes(n)) == n,
        encode_utf8(decimal_text(n)) == decimal_bytes(n),
        is_ascii_chars(decimal_text(n)),
        decimal_text(n).len() == decimal_bytes(n).len(),
    decreases n,
{
    if n >= 10 {
        lemma_decimal_bytes(n / 10);
        let d = decimal_bytes(n / 10);
        let c = (48 + n % 10) as u8;
        assert(d.push(c).drop_last() =~= d);
        assert(decimal_bytes(n).drop_last() =~= d);
        lemma_digits_value_push(d, c);
        assert(digits_value(decimal_bytes(n)) == (n / 10) * 10 + n % 10);
    } else {
        assert(decimal_bytes(n).drop_last() =~= Seq::<u8>::empty());
        assert(decimal_bytes(n).last() == (48 + n) as u8);
        assert(digits_value(decimal_bytes(n)) == digits_value(Seq::<u8>::empty()) * 10 + n);
    }
    let t = decimal_text(n);
    assert(is_ascii_chars(t)) by {
        if n >= 10 {
            assert forall|i: int| 0 <= i < t.len() implies '\0' <= #[trigger] t[i] <= '\u{7f}' by {
                if i < t.len() - 1 {
                    assert(t[i] == decimal_text(n / 10)[i]);
                }
            }
        }
    }
    is_ascii_chars_encode_utf8(t);
    assert(encode_utf8(t) =~= decimal_bytes(n)) by {
        assert forall|i: int| 0 <= i < t.len() implies encode_utf8(t)[i] == decimal_bytes(n)[i] by {
            if n >= 10 && i < t.len() - 1 {
                assert(t[i] == decimal_text(n / 10)[i]);
                assert(decimal_bytes(n)[i] == decimal_bytes(n / 10)[i]);
                assert(encode_utf8(decimal_text(n / 10))[i] == decimal_text(n / 10)[i] as u8) by {
                    is_ascii_chars_encode_utf8(decimal_text(n / 10));
                }
            }
        }
    }
}

/// Decimal rendering is read back by the length parser.
pub proof fn law_decimal_roundtrip(n: nat)
    requires
        n <= usize::MAX,
    ensures
        parse_usize_spec(decimal_bytes(n)) == Some(n as usize),
{
    lemma_decimal_bytes(n);
}

proof fn lemma_ascii_valid(b: Seq<u8>)
    requires
        forall|i: int| 0 <= i < b.len() ==> b[i] < 0x80,
    ensures
        valid_utf8(b),
    decreases b.len(),
{
    if b.len() > 0 {
        let rest = pop_first_scalar(b);
        assert(rest =~= b.subrange(1, b.len() as int));
        lemma_ascii_valid(rest);
    }
}

proof fn lemma_encode_concat(a: Seq<char>, b: Seq<char>)
    ensures
        encode_utf8(a + b) == encode_utf8(a) + encode_utf8(b),
    decreases a.len(),
{
    if a.len() == 0 {
        assert(a + b =~= b);
        assert(encode_utf8(a) + encode_utf8(b) =~= encode_utf8(b));
    } else {
        assert((a + b).drop_first() =~= a.drop_first() + b);
        lemma_encode_concat(a.drop_first(), b);
        assert(encode_utf8(a + b) =~= encode_scalar(a[0] as u32) + encode_utf8(a.drop_first() + b));
        assert(encode_utf8(a) + encode_utf8(b) =~= encode_scalar(a[0] as u32) + (encode_utf8(
            a.drop_first(),
        ) + encode_utf8(b)));
    }
}

/// The text of a framed message encodes to its byte form.
pub proof fn law_framed_text_bytes(payload: Seq<char>)
    requires
        encode_utf8(payload).len() <= usize::MAX,
    ensures
        encode_utf8(framed_text(payload)) == frame_bytes(encode_utf8(payload)),
{
    let m = marker_text();
    let d = decimal_text(encode_utf8(payload).len());
    lemma_decimal_bytes(encode_utf8(payload).len());
    assert(is_ascii_chars(m));
    is_ascii_chars_encode_utf8(m);
    assert(encode_utf8(m) =~= marker_bytes());
    lemma_encode_concat(m, d);
    lemma_encode_concat(m + d, m);
    lemma_encode_concat(m + d + m, payload);
}

proof fn lemma_frame_valid(p: Seq<u8>)
    requires
        valid_utf8(p),
    ensures
        valid_utf8(frame_bytes(p)),
{
    let n = p.len();
    lemma_decimal_bytes(n);
    let head = marker_bytes() + decimal_bytes(n) + marker_bytes();
    assert forall|i: int| 0 <= i < head.len() implies head[i] < 0x80 by {
        if 3 <= i < 3 + decimal_bytes(n).len() {
            assert(head[i] == decimal_bytes(n)[i - 3]);
            assert(is_digit(decimal_bytes(n)[i - 3]));
        }
    }
    lemma_ascii_valid(head);
    lemma_concat_valid(head, p);
    assert(frame_bytes(p) =~= head + p);
}

proof fn lemma_search_finds(b: Seq<u8>, from: int, m: int)
    requires
        0 <= from <= m,
        marker_at(b, m),
        forall|j: int| from <= j < m ==> !marker_at(b, j),
    ensures
        marker_search(b, from) == Some(m),
    decreases m - from,
{
    if from < m {
        lemma_search_finds(b, from + 1, m);
    }
}

/// Reading a framed message followed by more input yields the message's
/// payload, then whatever the rest yields.
pub proof fn law_frame_then_rest(p: Seq<u8>, rest: Seq<u8>)
    requires
        valid_utf8(p),
        valid_utf8(rest),
        p.len() <= usize::MAX,
    ensures
        scan_frames(frame_bytes(p) + rest) == prepend_payloads(seq![p], scan_frames(rest)),
{
    let n = p.len();
    let d = decimal_bytes(n);
    lemma_decimal_bytes(n);
    let b = frame_bytes(p) + rest;
    let m: int = 3 + d.len() as int;
    assert(b =~= marker_bytes() + d + marker_bytes() + (p + rest));
    assert(marker_at(b, 0));
    assert forall|j: int| 3 <= j < m implies !marker_at(b, j) by {
        assert(b[j] == d[j - 3]);
        assert(is_digit(d[j - 3]));
    }
    assert(marker_at(b, m));
    lemma_search_finds(b, 3, m);
    assert(b.subrange(3, m) =~= d);
    law_decimal_roundtrip(n);
    let tail = b.subrange(m + 3, b.len() as int);
    assert(tail =~= p + rest);
    lemma_concat_valid(p, rest);
    assert(tail.take(n as int) =~= p);
    assert(tail.skip(n as int) =~= rest);
}

/// Reading back a series of framed messages yields exactly their payloads.
pub proof fn law_parse_undoes_framing(payloads: Seq<Seq<u8>>)
    requires
        forall|i: int| 0 <= i < payloads.len() ==> valid_utf8(#[trigger] payloads[i]),
        forall|i: int| 0 <= i < payloads.len() ==> (#[trigger] payloads[i]).len() <= usize::MAX,
    ensures
        valid_utf8(concat_frames(payloads)),
        scan_frames(concat_frames(payloads)) == FrameScan::Payloads(payloads),
    decreases payloads.len(),
{
    if payloads.len() > 0 {
        let p = payloads[0];
        let others = payloads.drop_first();
        law_parse_undoes_framing(others);
        law_frame_then_rest(p, concat_frames(others));
        lemma_frame_valid(p);
        lemma_concat_valid(frame_bytes(p), concat_frames(others));
        assert(concat_frames(payloads) == frame_bytes(p) + concat_frames(others));
        assert(seq![p] + others =~= payloads);
    } else {
        assert(payloads =~= Seq::<Seq<u8>>::empty());
    }
}

/// Framing a string and reading the result back yields the string's bytes.
pub proof fn law_frame_payload_roundtrip(payload: Seq<char>)
    requires
        encode_utf8(payload).len() <= usize::MAX,
    ensures
        scan_frames(encode_utf8(framed_text(payload))) == FrameScan::Payloads(
            seq![encode_utf8(payload)],
        ),
{
    law_framed_text_bytes(payload);
    let p = encode_utf8(payload);
    law_parse_undoes_framing(seq![p]);
    assert(seq![p].drop_first() =~= Seq::<Seq<u8>>::empty());
    assert(concat_frames(Seq::<Seq<u8>>::empty()) == Seq::<u8>::empty());
    assert(concat_frames(seq![p]) == frame_bytes(p) + concat_frames(seq![p].drop_first()));
    assert(concat_frames(seq![p]) =~= frame_bytes(p));
}

proof fn lemma_hex_fixed_len(n: nat, width: nat)
    ensures
        hex_fixed(n, width).len() == width,
    decreases width,
{
    if width > 0 {
        lemma_hex_fixed_len(n / 16, (width - 1) as nat);
    }
}

/// A session identifier is its prefix, `_` and exactly sixteen hexadecimal digits.
pub proof fn law_session_id_shape(prefix: Seq<char>, counter: u64)
    ensures
        session_id_text(prefix, counter).len() == prefix.len() + 17,
        session_id_text(prefix, counter).subrange(0, prefix.len() as int) == prefix,
        session_id_text(prefix, counter)[prefix.len() as int] == '_',
{
    lemma_hex_fixed_len(counter as nat, 16);
    assert(session_id_text(prefix, counter).subrange(0, prefix.len() as int) =~= prefix);
}

} // verus!
