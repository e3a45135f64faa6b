//! Character-level building blocks for the identifiers and wire strings the
//! library composes: ASCII case mapping, Unicode whitespace trimming, and
//! decimal and hexadecimal rendering of integers.
use vstd::prelude::*;

verus! {

broadcast use vstd::seq::group_seq_axioms;

/// Appends one character (`String::push`).
#[verifier::external_body]
pub(crate) fn push_char(s: &mut String, c: char)
    ensures
        final(s)@ == old(s)@.push(c),
{
    s.push(c);
}

/// The characters of a string slice, in order.
pub fn chars_of(s: &str) -> (v: Vec<char>)
    ensures
        v@ == s@,
{
    let mut out: Vec<char> = Vec::new();
    for c in it: s.chars()
        invariant
            it.seq() == s@,
            out@ == s@.take(it.index() as int),
    {
        out.push(c);
        assert(s@.take(it.index() as int + 1) == s@.take(it.index() as int).push(c));
    }
    assert(s@.take(s@.len() as int) == s@);
    out
}

/// A string made of the characters `v[from..to]`.
pub fn string_from_range(v: &Vec<char>, from: usize, to: usize) -> (s: String)
    requires
        from <= to <= v@.len(),
    ensures
        s@ == v@.subrange(from as int, to as int),
{
    let mut out = String::new();
    let mut i = from;
    while i < to
        invariant
            from <= i <= to <= v@.len(),
            out@ == v@.subrange(from as int, i as int),
        decreases to - i,
    {
        push_char(&mut out, v[i]);
        assert(v@.subrange(from as int, i + 1) == v@.subrange(from as int, i as int).push(v@[i as int]));
        i = i + 1;
    }
    out
}

// ---------------------------------------------------------------- ASCII case

pub open spec fn is_ascii_lower(c: char) -> bool {
    'a' <= c <= 'z'
}

pub open spec fn is_ascii_alnum(c: char) -> bool {
    ('a' <= c <= 'z') || ('A' <= c <= 'Z') || ('0' <= c <= '9')
}

/// `char::to_ascii_uppercase`: `a`..`z` become `A`..`Z`, every other character stays.
pub open spec fn ascii_upper(c: char) -> char {
    if is_ascii_lower(c) {
        ((c as u32) - 32) as char
    } else {
        c
    }
}

pub open spec fn ascii_upper_seq(s: Seq<char>) -> Seq<char> {
    s.map_values(|c: char| ascii_upper(c))
}

pub fn to_ascii_upper_char(c: char) -> (r: char)
    ensures
        r == ascii_upper(c),
{
    if 'a' <= c && c <= 'z' {
        ((c as u8) - 32) as char
    } else {
        c
    }
}

/// `str::to_ascii_uppercase`.
pub fn to_ascii_uppercase(s: &str) -> (r: String)
    ensures
        r@ == ascii_upper_seq(s@),
{
    let mut out = String::new();
    for c in it: s.chars()
        invariant
            it.seq() == s@,
            out@ == ascii_upper_seq(s@.take(it.index() as int)),
    {
        push_char(&mut out, to_ascii_upper_char(c));
        assert(ascii_upper_seq(s@.take(it.index() as int + 1)) == ascii_upper_seq(
            s@.take(it.index() as int),
        ).push(ascii_upper(c)));
    }
    assert(s@.take(s@.len() as int) == s@);
    out
}

pub proof fn lemma_ascii_upper_char(c: char)
    ensures
        !is_ascii_lower(ascii_upper(c)),
        ascii_upper(ascii_upper(c)) == ascii_upper(c),
        is_ascii_alnum(ascii_upper(c)) == is_ascii_alnum(c),
        is_white_space(ascii_upper(c)) == is_white_space(c),
        ascii_upper(c) == '-' <==> c == '-',
        ascii_upper(c) == '.' <==> c == '.',
{
    if is_ascii_lower(c) {
        let u = (c as u32) - 32;
        assert(65 <= u <= 90);
        assert((u as char) as u32 == u);
    }
}

// ---------------------------------------------------------------- whitespace

/// The Unicode `White_Space` property, as `char::is_whitespace` decides it.
pub open spec fn is_white_space(c: char) -> bool {
    let u = c as u32;
    ||| 0x09 <= u <= 0x0d
    ||| u == 0x20
    ||| u == 0x85
    ||| u == 0xa0
    ||| u == 0x1680
    ||| 0x2000 <= u <= 0x200a
    ||| u == 0x2028
    ||| u == 0x2029
    ||| u == 0x202f
    ||| u == 0x205f
    ||| u == 0x3000
}

pub fn is_whitespace_char(c: char) -> (r: bool)
    ensures
        r == is_white_space(c),
{
    let u = c as u32;
    (0x09 <= u && u <= 0x0d) || u == 0x20 || u == 0x85 || u == 0xa0 || u == 0x1680 || (0x2000 <= u
        && u <= 0x200a) || u == 0x2028 || u == 0x2029 || u == 0x202f || u == 0x205f || u == 0x3000
}

/// Number of whitespace characters at the start of `s`.
pub open spec fn leading_ws(s: Seq<char>) -> nat
    decreases s.len(),
{
    if s.len() > 0 && is_white_space(s[0]) {
        1 + leading_ws(s.drop_first())
    } else {
        0
    }
}

/// Number of whitespace characters at the end of `s`.
pub open spec fn trailing_ws(s: Seq<char>) -> nat
    decreases s.len(),
{
    if s.len() > 0 && is_white_space(s.last()) {
        1 + trailing_ws(s.drop_last())
    } else {
        0
    }
}

/// `str::trim`: `s` without its leading and trailing whitespace.
pub open spec fn trim_spec(s: Seq<char>) -> Seq<char> {
    let a = leading_ws(s);
    if a >= s.len() {
        Seq::empty()
    } else {
        s.subrange(a as int, s.len() - trailing_ws(s))
    }
}

proof fn lemma_leading_ws_bound(s: Seq<char>)
    ensures
        leading_ws(s) <= s.len(),
        leading_ws(s) < s.len() ==> !is_white_space(s[leading_ws(s) as int]),
        forall|j: int| 0 <= j < leading_ws(s) ==> is_white_space(s[j]),
    decreases s.len(),
{
    if s.len() > 0 && is_white_space(s[0]) {
        lemma_leading_ws_bound(s.drop_first());
        assert forall|j: int| 0 <= j < leading_ws(s) implies is_white_space(s[j]) by {
            if j > 0 {
                assert(s[j] == s.drop_first()[j - 1]);
            }
        }
    }
}

proof fn lemma_trailing_ws_bound(s: Seq<char>)
    ensures
        trailing_ws(s) <= s.len(),
        trailing_ws(s) < s.len() ==> !is_white_space(s[s.len() - 1 - trailing_ws(s)]),
        forall|j: int| s.len() - trailing_ws(s) <= j < s.len() ==> is_white_space(s[j]),
    decreases s.len(),
{
    if s.len() > 0 && is_white_space(s.last()) {
        lemma_trailing_ws_bound(s.drop_last());
        assert forall|j: int| s.len() - trailing_ws(s) <= j < s.len() implies is_white_space(
            s[j],
        ) by {
            if j < s.len() - 1 {
                assert(s[j] == s.drop_last()[j]);
            }
        }
    }
}

/// `leading_ws` counted from position `i` on.
proof fn lemma_leading_ws_step(s: Seq<char>, i: int)
    requires
        0 <= i < s.len(),
    ensures
        is_white_space(s[i]) ==> leading_ws(s.skip(i)) == 1 + leading_ws(s.skip(i + 1)),
        !is_white_space(s[i]) ==> leading_ws(s.skip(i)) == 0,
{
    assert(s.skip(i).drop_first() =~= s.skip(i + 1));
}

proof fn lemma_trailing_ws_step(s: Seq<char>, j: int)
    requires
        0 < j <= s.len(),
    ensures
        is_white_space(s[j - 1]) ==> trailing_ws(s.take(j)) == 1 + trailing_ws(s.take(j - 1)),
        !is_white_space(s[j - 1]) ==> trailing_ws(s.take(j)) == 0,
{
    assert(s.take(j).drop_last() =~= s.take(j - 1));
}

/// No whitespace at either end.
pub open spec fn is_trimmed(s: Seq<char>) -> bool {
    s.len() == 0 || (!is_white_space(s[0]) && !is_white_space(s.last()))
}

pub proof fn lemma_trim_spec_trimmed(s: Seq<char>)
    ensures
        is_trimmed(trim_spec(s)),
{
    lemma_leading_ws_bound(s);
    lemma_trailing_ws_bound(s);
    let a = leading_ws(s);
    if a < s.len() {
        let t = trim_spec(s);
        let b = s.len() - trailing_ws(s);
        if b <= a {
            assert(is_white_space(s[a as int]));
        }
        assert(t[0] == s[a as int]);
        assert(t.last() == s[b - 1]);
    }
}

pub proof fn lemma_trim_spec_of_trimmed(s: Seq<char>)
    requires
        is_trimmed(s),
    ensures
        trim_spec(s) == s,
{
    if s.len() > 0 {
        assert(leading_ws(s) == 0);
        assert(trailing_ws(s) == 0);
        assert(s.subrange(0, s.len() as int) =~= s);
    }
}

pub proof fn lemma_ascii_upper_seq(s: Seq<char>)
    ensures
        ascii_upper_seq(ascii_upper_seq(s)) == ascii_upper_seq(s),
        is_trimmed(s) ==> is_trimmed(ascii_upper_seq(s)),
        forall|i: int| 0 <= i < s.len() ==> !is_ascii_lower(#[trigger] ascii_upper_seq(s)[i]),
{
    assert forall|i: int| 0 <= i < s.len() implies ascii_upper_seq(ascii_upper_seq(s))[i]
        == ascii_upper_seq(s)[i] && !is_ascii_lower(#[trigger] ascii_upper_seq(s)[i]) by {
        lemma_ascii_upper_char(s[i]);
    }
    assert(ascii_upper_seq(ascii_upper_seq(s)) =~= ascii_upper_seq(s));
    if s.len() > 0 {
        lemma_ascii_upper_char(s[0]);
        lemma_ascii_upper_char(s.last());
    }
}

/// Upper-casing a text that has no lower-case ASCII letter changes nothing.
pub proof fn lemma_ascii_upper_of_upper(s: Seq<char>)
    requires
        forall|i: int| 0 <= i < s.len() ==> !is_ascii_lower(#[trigger] s[i]),
    ensures
        ascii_upper_seq(s) == s,
{
    assert(ascii_upper_seq(s) =~= s);
}

/// `str::trim` followed by `to_owned`.
pub fn trim_owned(s: &str) -> (r: String)
    ensures
        r@ == trim_spec(s@),
{
    let v = chars_of(s);
    let n = v.len();
    let mut a: usize = 0;
    assert(v@.skip(0) =~= v@);
    while a < n && is_whitespace_char(v[a])
        invariant
            a <= n == v@.len(),
            v@ == s@,
            leading_ws(v@) == a + leading_ws(v@.skip(a as int)),
        decreases n - a,
    {
        proof {
            lemma_leading_ws_step(v@, a as int);
        }
        a = a + 1;
    }
    if a < n {
        proof {
            lemma_leading_ws_step(v@, a as int);
        }
    } else {
        assert(v@.skip(a as int).len() == 0);
    }
    assert(leading_ws(v@) == a);
    if a == n {
        return String::new();
    }
    let mut b: usize = n;
    assert(v@.take(n as int) =~= v@);
    while b > a && is_whitespace_char(v[b - 1])
        invariant
            a < n == v@.len(),
            a < b <= n,
            v@ == s@,
            leading_ws(v@) == a,
            !is_white_space(v@[a as int]),
            trailing_ws(v@) == (n - b) + trailing_ws(v@.take(b as int)),
        decreases b,
    {
        proof {
            lemma_trailing_ws_step(v@, b as int);
        }
        b = b - 1;
    }
    proof {
        lemma_trailing_ws_step(v@, b as int);
    }
    assert(trailing_ws(v@) == n - b);
    string_from_range(&v, a, b)
}

// ---------------------------------------------------------------- numbers

pub open spec fn digit_char(d: nat) -> char {
    ((48 + d) as u32) as char
}

/// Decimal rendering of `n`, as `format!("{}", n)` writes it.
pub open spec fn decimal_text(n: nat) -> Seq<char>
    decreases n,
{
    if n < 10 {
        seq![digit_char(n)]
    } else {
        decimal_text(n / 10).push(digit_char(n % 10))
    }
}

pub open spec fn hex_char(d: nat) -> char {
    if d < 10 {
        ((48 + d) as u32) as char
    } else {
        ((87 + d) as u32) as char
    }
}

/// The `width` low hexadecimal digits of `n`, lower case, most significant
/// first; this is `format!("{:0width$x}", n)` when `n` has at most `width` digits.
pub open spec fn hex_fixed(n: nat, width: nat) -> Seq<char>
    decreases width,
{
    if width == 0 {
        Seq::empty()
    } else {
        hex_fixed(n / 16, (width - 1) as nat).push(hex_char(n % 16))
    }
}

fn digit_to_char(d: u64) -> (c: char)
    requires
        d < 10,
    ensures
        c == digit_char(d as nat),
{
    ((d as u8) + 48) as char
}

fn hex_digit_to_char(d: u64) -> (c: char)
    requires
        d < 16,
    ensures
        c == hex_char(d as nat),
{
    if d < 10 {
        ((d as u8) + 48) as char
    } else {
        ((d as u8) + 87) as char
    }
}

/// Appends the decimal rendering of `n`.
pub fn push_decimal(out: &mut String, n: u64)
    ensures
        final(out)@ == old(out)@ + decimal_text(n as nat),
    decreases n,
{
    if n >= 10 {
        push_decimal(out, n / 10);
    }
    push_char(out, digit_to_char(n % 10));
}

/// Appends the `width` low hexadecimal digits of `n`.
pub fn push_hex_fixed(out: &mut String, n: u64, width: u32)
    ensures
        final(out)@ == old(out)@ + hex_fixed(n as nat, width as nat),
    decreases width,
{
    if width > 0 {
        push_hex_fixed(out, n / 16, width - 1);
        push_char(out, hex_digit_to_char(n % 16));
    }
}

} // verus!
