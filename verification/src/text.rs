use vstd::prelude::*;
use vstd::string::StringExecFns;
use vstd::utf8::{encode_utf8, encode_utf8_decode_utf8};

verus! {

/// `String::push` appends one character to the end of the string.
pub assume_specification[ String::push ](s: &mut String, ch: char)
    ensures
        final(s)@ == old(s)@.push(ch),
;

/// `String::pop` removes the last character and returns it; on an empty
/// string it returns `None` and leaves the string as it is.
pub assume_specification[ String::pop ](s: &mut String) -> (ch: Option<char>)
    ensures
        old(s)@.len() == 0 ==> ch is None && final(s)@ == old(s)@,
        old(s)@.len() > 0 ==> ch == Some(old(s)@.last()) && final(s)@ == old(s)@.drop_last(),
;

/// The character of the decimal digit `d`.
pub open spec fn digit(d: int) -> char {
    (d + 48) as char
}

/// `n` in decimal, without leading zeros.
pub open spec fn decimal(n: nat) -> Seq<char>
    decreases n,
{
    if n < 10 {
        seq![digit(n as int)]
    } else {
        decimal(n / 10).push(digit((n % 10) as int))
    }
}

/// `n` in decimal, with a minus sign in front when it is negative.
pub open spec fn signed_decimal(n: int) -> Seq<char> {
    if n < 0 {
        seq!['-'] + decimal((-n) as nat)
    } else {
        decimal(n as nat)
    }
}

/// `n` in decimal, filled up with a zero to a width of two. A minus sign
/// counts towards the width, so only `0` to `9` get the zero.
pub open spec fn two_digits(n: int) -> Seq<char> {
    if 0 <= n < 10 {
        seq!['0', digit(n)]
    } else {
        signed_decimal(n)
    }
}

/// The character of the decimal digit `d`.
pub fn digit_char(d: u8) -> (c: char)
    requires
        d < 10,
    ensures
        c == digit(d as int),
{
    (d + 48) as char
}

/// Appends `n` in decimal.
pub fn push_decimal(out: &mut String, n: u128)
    ensures
        final(out)@ == old(out)@ + decimal(n as nat),
    decreases n,
{
    if n >= 10 {
        push_decimal(out, n / 10);
    }
    out.push(digit_char((n % 10) as u8));
}

/// Appends `n` in decimal, with its sign if it is negative.
pub fn push_signed_decimal(out: &mut String, n: i128)
    ensures
        final(out)@ == old(out)@ + signed_decimal(n as int),
{
    if n < 0 {
        out.push('-');
        // -(n + 1) avoids negating the smallest value
        push_decimal(out, (-(n + 1)) as u128 + 1);
    } else {
        push_decimal(out, n as u128);
    }
}

/// Appends `n` in decimal, filled up with a zero to a width of two.
pub fn push_two_digits(out: &mut String, n: i128)
    ensures
        final(out)@ == old(out)@ + two_digits(n as int),
{
    if 0 <= n && n < 10 {
        out.push('0');
        out.push(digit_char(n as u8));
    } else {
        push_signed_decimal(out, n);
    }
}

/// The parts laid end to end with `separator` between each two of them.
pub open spec fn joined(parts: Seq<Seq<char>>, separator: Seq<char>) -> Seq<char>
    decreases parts.len(),
{
    if parts.len() == 0 {
        Seq::empty()
    } else if parts.len() == 1 {
        parts[0]
    } else {
        joined(parts.drop_last(), separator) + separator + parts.last()
    }
}

/// The view of each string, in order.
pub open spec fn views(parts: Seq<String>) -> Seq<Seq<char>> {
    parts.map_values(|part: String| part@)
}

/// `itertools::Itertools::join` on the strings of `parts`: the first part,
/// then for every further part the separator and that part; the empty
/// string for no parts.
#[verifier::external_body]
pub(crate) fn join(parts: &Vec<String>, separator: &str) -> (line: String)
    ensures
        line@ == joined(views(parts@), separator@),
{
    itertools::Itertools::join(&mut parts.iter(), separator)
}

/// `k` is a place where `a` falls before `b`: they agree on the first `k`
/// bytes, and there `a` ends while `b` goes on, or `a` has the smaller byte.
pub open spec fn precedes_at(a: Seq<u8>, b: Seq<u8>, k: int) -> bool {
    &&& 0 <= k <= a.len()
    &&& k < b.len()
    &&& forall|i: int| 0 <= i < k ==> a[i] == b[i]
    &&& k < a.len() ==> a[k] < b[k]
}

/// Lexicographic order on byte strings.
pub open spec fn bytes_lt(a: Seq<u8>, b: Seq<u8>) -> bool {
    exists|k: int| precedes_at(a, b, k)
}

/// The order of labels: that of their UTF-8 bytes, which is the order of
/// `str` and puts the code points in the order of their numbers.
pub open spec fn label_lt(a: Seq<char>, b: Seq<char>) -> bool {
    bytes_lt(encode_utf8(a), encode_utf8(b))
}

/// No byte string precedes itself.
pub proof fn bytes_lt_irreflexive(a: Seq<u8>)
    ensures
        !bytes_lt(a, a),
{
}

/// What precedes a byte string precedes all that the byte string precedes.
pub proof fn bytes_lt_transitive(a: Seq<u8>, b: Seq<u8>, c: Seq<u8>)
    requires
        bytes_lt(a, b),
        bytes_lt(b, c),
    ensures
        bytes_lt(a, c),
{
    let k1 = choose|k: int| precedes_at(a, b, k);
    let k2 = choose|k: int| precedes_at(b, c, k);
    let k = if k1 <= k2 { k1 } else { k2 };
    assert(precedes_at(a, c, k));
}

/// No label precedes itself.
pub proof fn label_lt_irreflexive(a: Seq<char>)
    ensures
        !label_lt(a, a),
{
    bytes_lt_irreflexive(encode_utf8(a));
}

/// What precedes a label precedes all that the label precedes.
pub proof fn label_lt_transitive(a: Seq<char>, b: Seq<char>, c: Seq<char>)
    requires
        label_lt(a, b),
        label_lt(b, c),
    ensures
        label_lt(a, c),
{
    bytes_lt_transitive(encode_utf8(a), encode_utf8(b), encode_utf8(c));
}

/// Of two labels one precedes the other, or they are the same.
pub proof fn label_lt_total(a: Seq<char>, b: Seq<char>)
    ensures
        label_lt(a, b) || a == b || label_lt(b, a),
{
    let x = encode_utf8(a);
    let y = encode_utf8(b);
    if x =~= y {
        encode_utf8_decode_utf8(a);
        encode_utf8_decode_utf8(b);
    } else {
        first_difference(x, y, 0);
    }
}

/// Two different byte strings that agree on their first `from` bytes are
/// ordered one way or the other.
proof fn first_difference(x: Seq<u8>, y: Seq<u8>, from: int)
    requires
        x != y,
        0 <= from <= x.len(),
        from <= y.len(),
        forall|i: int| 0 <= i < from ==> x[i] == y[i],
    ensures
        bytes_lt(x, y) || bytes_lt(y, x),
    decreases x.len() - from,
{
    if from == x.len() {
        if from == y.len() {
            assert(x =~= y);
        } else {
            assert(precedes_at(x, y, from));
        }
    } else if from == y.len() {
        assert(precedes_at(y, x, from));
    } else if x[from] < y[from] {
        assert(precedes_at(x, y, from));
    } else if y[from] < x[from] {
        assert(precedes_at(y, x, from));
    } else {
        first_difference(x, y, from + 1);
    }
}

/// How one label stands to another in the order of labels.
#[derive(Clone, Copy, PartialEq, Eq, Structural, Debug)]
pub enum LabelOrder {
    Before,
    Same,
    After,
}

/// Compares two byte strings lexicographically.
pub fn compare_bytes(x: &[u8], y: &[u8]) -> (order: LabelOrder)
    ensures
        order == LabelOrder::Before <==> bytes_lt(x@, y@),
        order == LabelOrder::Same <==> x@ == y@,
        order == LabelOrder::After <==> bytes_lt(y@, x@),
{
    proof {
        bytes_lt_irreflexive(x@);
        if bytes_lt(x@, y@) && bytes_lt(y@, x@) {
            bytes_lt_transitive(x@, y@, x@);
        }
    }
    let mut i: usize = 0;
    while i < x.len() && i < y.len()
        invariant
            i <= x.len(),
            i <= y.len(),
            forall|k: int| 0 <= k < i ==> x@[k] == y@[k],
            !bytes_lt(x@, x@),
            !(bytes_lt(x@, y@) && bytes_lt(y@, x@)),
        decreases x.len() - i,
    {
        if x[i] < y[i] {
            assert(precedes_at(x@, y@, i as int));
            return LabelOrder::Before;
        }
        if y[i] < x[i] {
            assert(precedes_at(y@, x@, i as int));
            return LabelOrder::After;
        }
        i = i + 1;
    }
    if i < y.len() {
        assert(precedes_at(x@, y@, i as int));
        LabelOrder::Before
    } else if i < x.len() {
        assert(precedes_at(y@, x@, i as int));
        LabelOrder::After
    } else {
        assert(x@ =~= y@);
        LabelOrder::Same
    }
}

/// Compares two labels by their bytes.
pub fn compare_labels(a: &str, b: &str) -> (order: LabelOrder)
    ensures
        order == LabelOrder::Before <==> label_lt(a@, b@),
        order == LabelOrder::Same <==> a@ == b@,
        order == LabelOrder::After <==> label_lt(b@, a@),
{
    proof {
        encode_utf8_decode_utf8(a@);
        encode_utf8_decode_utf8(b@);
    }
    compare_bytes(a.as_bytes(), b.as_bytes())
}

/// Whether two strings hold the same characters.
pub fn same_text(a: &str, b: &str) -> (same: bool)
    ensures
        same == (a@ == b@),
{
    compare_labels(a, b) == LabelOrder::Same
}

} // verus!
