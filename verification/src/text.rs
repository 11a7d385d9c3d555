//! The order on names and the decimal rendering of indices.
//!
//! Names are compared the way Rust compares strings: lexicographically by
//! the bytes of their UTF-8 encoding.

use vstd::prelude::*;
use vstd::string::*;
use vstd::utf8::*;

verus! {

/// `a` and `b` agree on their first `k` bytes, and at position `k` either
/// `a` ends while `b` goes on, or `a` holds the smaller byte.
pub open spec fn bytes_part_at(a: Seq<u8>, b: Seq<u8>, k: int) -> bool {
    &&& 0 <= k <= a.len()
    &&& k < b.len()
    &&& forall|j: int| 0 <= j < k ==> a[j] == b[j]
    &&& k < a.len() ==> a[k] < b[k]
}

/// Strict lexicographic order on byte strings.
pub open spec fn bytes_precede(a: Seq<u8>, b: Seq<u8>) -> bool {
    exists|k: int| bytes_part_at(a, b, k)
}

/// Strict order on names: lexicographic by UTF-8 bytes.
pub open spec fn name_precedes(a: Seq<char>, b: Seq<char>) -> bool {
    bytes_precede(encode_utf8(a), encode_utf8(b))
}

/// The names of `s` are strictly increasing.
pub open spec fn names_increasing(s: Seq<Seq<char>>) -> bool {
    forall|i: int, j: int| 0 <= i < j < s.len() ==> name_precedes(s[i], s[j])
}

/// Where two names stand relative to each other.
#[derive(Clone, Copy, Debug, PartialEq, Eq, Structural)]
pub enum NameOrder {
    Before,
    Same,
    After,
}

/// No byte string precedes itself.
pub proof fn lemma_bytes_precede_irreflexive(a: Seq<u8>)
    ensures
        !bytes_precede(a, a),
{
}

/// The order on byte strings is transitive.
pub proof fn lemma_bytes_precede_transitive(a: Seq<u8>, b: Seq<u8>, c: Seq<u8>)
    requires
        bytes_precede(a, b),
        bytes_precede(b, c),
    ensures
        bytes_precede(a, c),
{
    let k1 = choose|k: int| bytes_part_at(a, b, k);
    let k2 = choose|k: int| bytes_part_at(b, c, k);
    let k = if k1 <= k2 { k1 } else { k2 };
    assert(bytes_part_at(a, c, k));
}

/// The first position from `i` on at which `a` and `b` differ or one of them ends.
pub open spec fn first_mismatch(a: Seq<u8>, b: Seq<u8>, i: int) -> int
    decreases a.len() - i,
{
    if 0 <= i < a.len() && i < b.len() && a[i] == b[i] {
        first_mismatch(a, b, i + 1)
    } else {
        i
    }
}

proof fn lemma_first_mismatch(a: Seq<u8>, b: Seq<u8>, i: int)
    requires
        0 <= i <= a.len(),
        i <= b.len(),
    ensures
        i <= first_mismatch(a, b, i) <= a.len(),
        first_mismatch(a, b, i) <= b.len(),
        forall|j: int| i <= j < first_mismatch(a, b, i) ==> a[j] == b[j],
        first_mismatch(a, b, i) < a.len() && first_mismatch(a, b, i) < b.len() ==> a[first_mismatch(
            a,
            b,
            i,
        )] != b[first_mismatch(a, b, i)],
    decreases a.len() - i,
{
    if i < a.len() && i < b.len() && a[i] == b[i] {
        lemma_first_mismatch(a, b, i + 1);
    }
}

/// Of two different byte strings one precedes the other.
pub proof fn lemma_bytes_precede_total(a: Seq<u8>, b: Seq<u8>)
    ensures
        a == b || bytes_precede(a, b) || bytes_precede(b, a),
{
    lemma_first_mismatch(a, b, 0);
    let m = first_mismatch(a, b, 0);
    if m == a.len() && m == b.len() {
        assert(a =~= b);
    } else if m == a.len() {
        assert(bytes_part_at(a, b, m));
    } else if m == b.len() {
        assert(bytes_part_at(b, a, m));
    } else if a[m] < b[m] {
        assert(bytes_part_at(a, b, m));
    } else {
        assert(bytes_part_at(b, a, m));
    }
}

/// No name precedes itself.
pub proof fn lemma_name_precedes_irreflexive(a: Seq<char>)
    ensures
        !name_precedes(a, a),
{
    lemma_bytes_precede_irreflexive(encode_utf8(a));
}

/// The order on names is transitive.
pub proof fn lemma_name_precedes_transitive(a: Seq<char>, b: Seq<char>, c: Seq<char>)
    requires
        name_precedes(a, b),
        name_precedes(b, c),
    ensures
        name_precedes(a, c),
{
    lemma_bytes_precede_transitive(encode_utf8(a), encode_utf8(b), encode_utf8(c));
}

/// Two names with the same encoding are the same name.
pub proof fn lemma_encoding_injective(a: Seq<char>, b: Seq<char>)
    requires
        encode_utf8(a) == encode_utf8(b),
    ensures
        a == b,
{
    encode_utf8_decode_utf8(a);
    encode_utf8_decode_utf8(b);
}

/// Of two different names one precedes the other.
pub proof fn lemma_name_precedes_total(a: Seq<char>, b: Seq<char>)
    ensures
        a == b || name_precedes(a, b) || name_precedes(b, a),
{
    lemma_bytes_precede_total(encode_utf8(a), encode_utf8(b));
    if encode_utf8(a) == encode_utf8(b) {
        lemma_encoding_injective(a, b);
    }
}

/// No two names precede each other.
pub proof fn lemma_name_precedes_asymmetric(a: Seq<char>, b: Seq<char>)
    requires
        name_precedes(a, b),
    ensures
        !name_precedes(b, a),
        a != b,
{
    if name_precedes(b, a) {
        lemma_name_precedes_transitive(a, b, a);
    }
    lemma_name_precedes_irreflexive(a);
}

/// Compares two names.
pub fn compare_names(a: &str, b: &str) -> (r: NameOrder)
    ensures
        r == NameOrder::Before <==> name_precedes(a@, b@),
        r == NameOrder::Same <==> a@ == b@,
        r == NameOrder::After <==> name_precedes(b@, a@),
{
    let x = a.as_bytes();
    let y = b.as_bytes();
    let mut i: usize = 0;
    while i < x.len() && i < y.len() && x[i] == y[i]
        invariant
            i <= x.len(),
            i <= y.len(),
            forall|j: int| 0 <= j < i ==> x@[j] == y@[j],
        decreases x.len() - i,
    {
        i += 1;
    }
    proof {
        assert(x@ == encode_utf8(a@));
        assert(y@ == encode_utf8(b@));
        if name_precedes(a@, b@) {
            lemma_name_precedes_asymmetric(a@, b@);
        }
        if name_precedes(b@, a@) {
            lemma_name_precedes_asymmetric(b@, a@);
        }
    }
    if i == x.len() && i == y.len() {
        proof {
            assert(x@ =~= y@);
            lemma_encoding_injective(a@, b@);
        }
        NameOrder::Same
    } else if i == x.len() {
        assert(bytes_part_at(x@, y@, i as int));
        NameOrder::Before
    } else if i == y.len() {
        assert(bytes_part_at(y@, x@, i as int));
        NameOrder::After
    } else if x[i] < y[i] {
        assert(bytes_part_at(x@, y@, i as int));
        NameOrder::Before
    } else {
        assert(bytes_part_at(y@, x@, i as int));
        NameOrder::After
    }
}

/// The decimal digit `d` as a character.
pub open spec fn digit_char(d: nat) -> char {
    if d == 0 {
        '0'
    } else if d == 1 {
        '1'
    } else if d == 2 {
        '2'
    } else if d == 3 {
        '3'
    } else if d == 4 {
        '4'
    } else if d == 5 {
        '5'
    } else if d == 6 {
        '6'
    } else if d == 7 {
        '7'
    } else if d == 8 {
        '8'
    } else {
        '9'
    }
}

/// The decimal numeral of `n`, without leading zeros.
pub open spec fn decimal(n: nat) -> Seq<char>
    decreases n,
{
    if n < 10 {
        seq![digit_char(n)]
    } else {
        decimal(n / 10).push(digit_char(n % 10))
    }
}

fn digit_str(d: usize) -> (s: &'static str)
    requires
        d < 10,
    ensures
        s@ == seq![digit_char(d as nat)],
{
    proof {
        reveal_strlit("0");
        reveal_strlit("1");
        reveal_strlit("2");
        reveal_strlit("3");
        reveal_strlit("4");
        reveal_strlit("5");
        reveal_strlit("6");
        reveal_strlit("7");
        reveal_strlit("8");
        reveal_strlit("9");
    }
    let s = if d == 0 {
        "0"
    } else if d == 1 {
        "1"
    } else if d == 2 {
        "2"
    } else if d == 3 {
        "3"
    } else if d == 4 {
        "4"
    } else if d == 5 {
        "5"
    } else if d == 6 {
        "6"
    } else if d == 7 {
        "7"
    } else if d == 8 {
        "8"
    } else {
        "9"
    };
    assert(s@ =~= seq![digit_char(d as nat)]);
    s
}

/// Appends the decimal numeral of `n` to `out`.
pub fn append_decimal(out: &mut String, n: usize)
    ensures
        final(out)@ == old(out)@ + decimal(n as nat),
    decreases n,
{
    if n >= 10 {
        append_decimal(out, n / 10);
    }
    out.append(digit_str(n % 10));
    proof {
        if n >= 10 {
            assert(old(out)@ + decimal((n / 10) as nat) + seq![digit_char((n % 10) as nat)] =~= old(
                out,
            )@ + decimal((n / 10) as nat).push(digit_char((n % 10) as nat)));
        }
    }
}

} // verus!
