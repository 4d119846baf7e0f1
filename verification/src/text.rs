//! Text building blocks: equality and ordering of strings, decimal
//! rendering of numbers, and concatenation.

use vstd::prelude::*;
use vstd::std_specs::iter::IteratorSpec;
use vstd::string::*;
use vstd::utf8::*;

verus! {

/// `String::push` appends one character to the end of the string.
pub assume_specification[ String::push ](s: &mut String, ch: char)
    ensures
        final(s)@ == old(s)@.push(ch),
;

/// Two character sequences with the same UTF-8 encoding are the same
/// sequence.
pub proof fn lemma_encoding_is_injective(a: Seq<char>, b: Seq<char>)
    requires
        encode_utf8(a) == encode_utf8(b),
    ensures
        a == b,
{
    encode_utf8_decode_utf8(a);
    encode_utf8_decode_utf8(b);
}

/// Whether two strings hold the same characters.
pub fn str_eq(a: &str, b: &str) -> (same: bool)
    ensures
        same == (a@ == b@),
{
    let x = a.as_bytes();
    let y = b.as_bytes();
    if x.len() != y.len() {
        return false;
    }
    let mut i: usize = 0;
    while i < x.len()
        invariant
            x@ == encode_utf8(a@),
            y@ == encode_utf8(b@),
            x@.len() == y@.len(),
            i <= x@.len(),
            forall|k: int| 0 <= k < i ==> x@[k] == y@[k],
        decreases x@.len() - i,
    {
        if x[i] != y[i] {
            return false;
        }
        i += 1;
    }
    proof {
        assert(x@ =~= y@);
        lemma_encoding_is_injective(a@, b@);
    }
    true
}

/// Whether position `k` shows that `a` comes before `b`: the two agree on
/// their first `k` bytes, and there `a` ends while `b` goes on, or `a` holds
/// the smaller byte.
pub open spec fn decides_at(a: Seq<u8>, b: Seq<u8>, k: int) -> bool {
    &&& 0 <= k <= a.len()
    &&& k < b.len()
    &&& a.subrange(0, k) == b.subrange(0, k)
    &&& (k == a.len() || a[k] < b[k])
}

/// Strict lexicographic order on byte sequences: a proper prefix comes
/// first, otherwise the first differing byte decides.
pub open spec fn bytes_before(a: Seq<u8>, b: Seq<u8>) -> bool {
    exists|k: int| decides_at(a, b, k)
}

/// The order in which names are listed: by their UTF-8 bytes.
pub open spec fn text_before(a: Seq<char>, b: Seq<char>) -> bool {
    bytes_before(encode_utf8(a), encode_utf8(b))
}

/// The byte order is transitive.
pub proof fn lemma_bytes_before_transitive(a: Seq<u8>, b: Seq<u8>, c: Seq<u8>)
    requires
        bytes_before(a, b),
        bytes_before(b, c),
    ensures
        bytes_before(a, c),
{
    let k1 = choose|k: int| decides_at(a, b, k);
    let k2 = choose|k: int| decides_at(b, c, k);
    let k = if k1 <= k2 {
        k1
    } else {
        k2
    };
    assert forall|j: int| 0 <= j < k implies a[j] == c[j] by {
        assert(a.subrange(0, k1)[j] == b.subrange(0, k1)[j]);
        assert(b.subrange(0, k2)[j] == c.subrange(0, k2)[j]);
    }
    assert(a.subrange(0, k) =~= c.subrange(0, k));
    if k1 < k2 {
        assert(b.subrange(0, k2)[k1] == c.subrange(0, k2)[k1]);
    } else if k2 < k1 {
        assert(a.subrange(0, k1)[k2] == b.subrange(0, k1)[k2]);
    }
    assert(decides_at(a, c, k));
}

/// Of two different byte sequences one comes before the other.
pub proof fn lemma_bytes_before_total(a: Seq<u8>, b: Seq<u8>)
    ensures
        a == b || bytes_before(a, b) || bytes_before(b, a),
{
    let k = common_prefix_len(a, b);
    lemma_common_prefix(a, b);
    if k == a.len() && k == b.len() {
        assert(a =~= a.subrange(0, k));
        assert(b =~= b.subrange(0, k));
    } else if k == a.len() || (k < b.len() && a[k] < b[k]) {
        assert(decides_at(a, b, k));
    } else {
        assert(decides_at(b, a, k));
    }
}

/// The length of the longest prefix that two byte sequences share.
pub open spec fn common_prefix_len(a: Seq<u8>, b: Seq<u8>) -> int
    decreases a.len(),
{
    if a.len() == 0 || b.len() == 0 || a[0] != b[0] {
        0
    } else {
        1 + common_prefix_len(a.drop_first(), b.drop_first())
    }
}

/// The shared prefix ends where one sequence ends or the two differ.
pub proof fn lemma_common_prefix(a: Seq<u8>, b: Seq<u8>)
    ensures
        0 <= common_prefix_len(a, b) <= a.len(),
        common_prefix_len(a, b) <= b.len(),
        a.subrange(0, common_prefix_len(a, b)) == b.subrange(0, common_prefix_len(a, b)),
        common_prefix_len(a, b) < a.len() && common_prefix_len(a, b) < b.len() ==> a[common_prefix_len(
            a,
            b,
        )] != b[common_prefix_len(a, b)],
    decreases a.len(),
{
    if a.len() == 0 || b.len() == 0 || a[0] != b[0] {
        assert(a.subrange(0, 0) =~= b.subrange(0, 0));
    } else {
        let ta = a.drop_first();
        let tb = b.drop_first();
        lemma_common_prefix(ta, tb);
        let k = common_prefix_len(ta, tb);
        assert forall|j: int| 0 <= j < k + 1 implies a[j] == b[j] by {
            if j > 0 {
                assert(ta.subrange(0, k)[j - 1] == tb.subrange(0, k)[j - 1]);
            }
        }
        assert(a.subrange(0, k + 1) =~= b.subrange(0, k + 1));
        if k < ta.len() && k < tb.len() {
            assert(ta[k] == a[k + 1]);
            assert(tb[k] == b[k + 1]);
        }
    }
}

/// Whether `a` is listed before `b`.
pub fn str_before(a: &str, b: &str) -> (before: bool)
    ensures
        before == text_before(a@, b@),
{
    let x = a.as_bytes();
    let y = b.as_bytes();
    let mut i: usize = 0;
    while i < x.len() && i < y.len()
        invariant
            x@ == encode_utf8(a@),
            y@ == encode_utf8(b@),
            i <= x@.len(),
            i <= y@.len(),
            x@.subrange(0, i as int) == y@.subrange(0, i as int),
        decreases x@.len() - i,
    {
        if x[i] != y[i] {
            let before = x[i] < y[i];
            proof {
                lemma_decided_at(x@, y@, i as int);
            }
            return before;
        }
        proof {
            assert(x@.subrange(0, i + 1) =~= x@.subrange(0, i as int).push(x@[i as int]));
            assert(y@.subrange(0, i + 1) =~= y@.subrange(0, i as int).push(y@[i as int]));
        }
        i += 1;
    }
    proof {
        lemma_decided_at(x@, y@, i as int);
    }
    i < y.len()
}

/// Where two byte sequences share their first `k` bytes and then end or
/// differ, position `k` alone decides their order.
pub proof fn lemma_decided_at(a: Seq<u8>, b: Seq<u8>, k: int)
    requires
        0 <= k <= a.len(),
        k <= b.len(),
        a.subrange(0, k) == b.subrange(0, k),
        k == a.len() || k == b.len() || a[k] != b[k],
    ensures
        bytes_before(a, b) == decides_at(a, b, k),
{
    if bytes_before(a, b) {
        let j = choose|j: int| decides_at(a, b, j);
        assert(decides_at(a, b, j));
        if j < k {
            assert(a.subrange(0, k)[j] == a[j]);
            assert(b.subrange(0, k)[j] == b[j]);
        } else if k < j {
            assert(a.subrange(0, j)[k] == a[k]);
            assert(b.subrange(0, j)[k] == b[k]);
        }
        assert(j == k);
    }
    if decides_at(a, b, k) {
        assert(bytes_before(a, b));
    }
}

/// The character that shows one decimal digit.
pub open spec fn digit_char(d: nat) -> char
    recommends
        d < 10,
{
    if d == 0 {
        '0'
    } else if d == 1 {
        '1'
    } else if d == 2 {
        '2'
    } else if d == 3 {
        '3'
    } else if d == 4 {
        '4'
    } else if d == 5 {
        '5'
    } else if d == 6 {
        '6'
    } else if d == 7 {
        '7'
    } else if d == 8 {
        '8'
    } else {
        '9'
    }
}

/// The decimal numeral of a natural number, without leading zeros.
pub open spec fn decimal(n: nat) -> Seq<char>
    decreases n,
{
    if n < 10 {
        seq![digit_char(n)]
    } else {
        decimal(n / 10).push(digit_char(n % 10))
    }
}

/// The numeral of `n`, filled with zeros on the left up to `width` digits.
pub open spec fn zero_padded(n: nat, width: nat) -> Seq<char>
    decreases width,
{
    if decimal(n).len() >= width {
        decimal(n)
    } else {
        seq!['0'] + zero_padded(n, (width - 1) as nat)
    }
}

/// One decimal digit as a character.
pub fn digit(d: u8) -> (c: char)
    requires
        d < 10,
    ensures
        c == digit_char(d as nat),
{
    if d == 0 {
        '0'
    } else if d == 1 {
        '1'
    } else if d == 2 {
        '2'
    } else if d == 3 {
        '3'
    } else if d == 4 {
        '4'
    } else if d == 5 {
        '5'
    } else if d == 6 {
        '6'
    } else if d == 7 {
        '7'
    } else if d == 8 {
        '8'
    } else {
        '9'
    }
}

/// Appends the decimal numeral of `n` to `out`.
pub fn push_decimal(out: &mut String, n: u64)
    ensures
        final(out)@ == old(out)@ + decimal(n as nat),
    decreases n,
{
    if n >= 10 {
        push_decimal(out, n / 10);
    }
    let d: u8 = (n % 10) as u8;
    out.push(digit(d));
    proof {
        if n >= 10 {
            assert(old(out)@ + decimal(n as nat) =~= (old(out)@ + decimal((n / 10) as nat)).push(
                digit_char((n % 10) as nat),
            ));
        } else {
            assert(old(out)@ + decimal(n as nat) =~= old(out)@.push(digit_char(n as nat)));
        }
    }
}

/// Appends the numeral of a number below one hundred as two digits.
pub fn push_two_digits(out: &mut String, n: u64)
    requires
        n < 100,
    ensures
        final(out)@ == old(out)@ + zero_padded(n as nat, 2),
{
    let tens: u8 = (n / 10) as u8;
    let ones: u8 = (n % 10) as u8;
    out.push(digit(tens));
    out.push(digit(ones));
    proof {
        lemma_two_digits(n as nat);
        assert(old(out)@ + zero_padded(n as nat, 2) =~= old(out)@.push(digit_char(tens as nat)).push(
            digit_char(ones as nat),
        ));
    }
}

/// A number below one hundred, padded to two digits, is its tens digit
/// followed by its ones digit.
pub proof fn lemma_two_digits(n: nat)
    requires
        n < 100,
    ensures
        zero_padded(n, 2) == seq![digit_char(n / 10), digit_char(n % 10)],
{
    reveal_with_fuel(zero_padded, 3);
    reveal_with_fuel(decimal, 3);
    if n < 10 {
        assert(decimal(n).len() == 1);
        assert(zero_padded(n, 1) == decimal(n));
        assert(zero_padded(n, 2) =~= seq!['0'] + decimal(n));
        assert(zero_padded(n, 2) =~= seq![digit_char(n / 10), digit_char(n % 10)]);
    } else {
        assert(decimal(n / 10) == seq![digit_char(n / 10)]);
        assert(decimal(n) =~= seq![digit_char(n / 10), digit_char(n % 10)]);
    }
}

/// The decimal numeral of `n` as a string.
pub fn decimal_string(n: u64) -> (s: String)
    ensures
        s@ == decimal(n as nat),
{
    let mut s = String::new();
    push_decimal(&mut s, n);
    s
}

/// The characters of a string, one by one.
pub fn chars_of(s: &str) -> (all: Vec<char>)
    ensures
        all@ == s@,
{
    let mut rest = s.chars();
    let mut all: Vec<char> = Vec::new();
    loop
        invariant
            rest.obeys_prophetic_iter_laws(),
            rest.decrease() is Some,
            all@ + rest.remaining() == s@,
        ensures
            all@ == s@,
        decreases rest.decrease()->0,
    {
        let ghost ahead = rest.remaining();
        let ghost taken = all@;
        match rest.next() {
            Some(c) => {
                all.push(c);
                proof {
                    assert(ahead =~= seq![c] + ahead.drop_first());
                    assert(all@ + rest.remaining() =~= taken + ahead);
                }
            },
            None => {
                proof {
                    assert(all@ + ahead =~= all@);
                }
                break ;
            },
        }
    }
    all
}

/// The string that holds the given characters.
pub fn string_of(all: &Vec<char>) -> (s: String)
    ensures
        s@ == all@,
{
    let mut s = String::new();
    let mut i: usize = 0;
    while i < all.len()
        invariant
            i <= all.len(),
            s@ == all@.subrange(0, i as int),
        decreases all.len() - i,
    {
        s.push(all[i]);
        proof {
            assert(all@.subrange(0, i + 1) =~= all@.subrange(0, i as int).push(all@[i as int]));
        }
        i += 1;
    }
    proof {
        assert(all@.subrange(0, i as int) =~= all@);
    }
    s
}

} // verus!
