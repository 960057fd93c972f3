//! Character-level helpers on strings: ordering of keys, trimming, decimal digits.

use vstd::prelude::*;
use vstd::std_specs::iter::IteratorSpec;

verus! {

/// Strict lexicographic order on character sequences, by code point.
pub open spec fn key_less(a: Seq<char>, b: Seq<char>) -> bool
    decreases a.len(),
{
    if b.len() == 0 {
        false
    } else if a.len() == 0 {
        true
    } else if a[0] != b[0] {
        a[0] < b[0]
    } else {
        key_less(a.drop_first(), b.drop_first())
    }
}

/// How one key stands relative to another.
#[derive(Clone, Copy, Debug, PartialEq, Eq, Structural)]
pub enum KeyOrder {
    Before,
    Same,
    After,
}

pub open spec fn key_order(a: Seq<char>, b: Seq<char>) -> KeyOrder {
    if a == b {
        KeyOrder::Same
    } else if key_less(a, b) {
        KeyOrder::Before
    } else {
        KeyOrder::After
    }
}

/// Two sequences that agree on their first `i` characters compare as their
/// remainders do.
pub proof fn lemma_key_less_skip(a: Seq<char>, b: Seq<char>, i: int)
    requires
        0 <= i <= a.len(),
        i <= b.len(),
        forall|j: int| 0 <= j < i ==> a[j] == b[j],
    ensures
        key_less(a, b) == key_less(a.skip(i), b.skip(i)),
    decreases i,
{
    if i == 0 {
        assert(a.skip(0) =~= a);
        assert(b.skip(0) =~= b);
    } else {
        assert(a[0] == b[0]);
        lemma_key_less_skip(a.drop_first(), b.drop_first(), i - 1);
        assert(a.drop_first().skip(i - 1) =~= a.skip(i));
        assert(b.drop_first().skip(i - 1) =~= b.skip(i));
    }
}

/// No key is less than itself.
pub proof fn lemma_key_less_irreflexive(a: Seq<char>)
    ensures
        !key_less(a, a),
    decreases a.len(),
{
    if a.len() > 0 {
        lemma_key_less_irreflexive(a.drop_first());
    }
}

/// Of two keys, at most one is less than the other.
pub proof fn lemma_key_less_asymmetric(a: Seq<char>, b: Seq<char>)
    requires
        key_less(a, b),
    ensures
        !key_less(b, a),
    decreases a.len(),
{
    if a.len() > 0 && b.len() > 0 && a[0] == b[0] {
        lemma_key_less_asymmetric(a.drop_first(), b.drop_first());
    }
}

/// The order on keys is transitive.
pub proof fn lemma_key_less_transitive(a: Seq<char>, b: Seq<char>, c: Seq<char>)
    requires
        key_less(a, b),
        key_less(b, c),
    ensures
        key_less(a, c),
    decreases a.len(),
{
    if a.len() > 0 && b.len() > 0 && c.len() > 0 && a[0] == b[0] && b[0] == c[0] {
        lemma_key_less_transitive(a.drop_first(), b.drop_first(), c.drop_first());
    }
}

/// Two different keys are ordered one way or the other.
pub proof fn lemma_key_less_total(a: Seq<char>, b: Seq<char>)
    ensures
        a == b || key_less(a, b) || key_less(b, a),
    decreases a.len(),
{
    if a.len() > 0 && b.len() > 0 && a[0] == b[0] {
        lemma_key_less_total(a.drop_first(), b.drop_first());
        if a.drop_first() == b.drop_first() {
            assert(a =~= seq![a[0]] + a.drop_first());
            assert(b =~= seq![b[0]] + b.drop_first());
        }
    } else if a.len() == 0 && b.len() == 0 {
        assert(a =~= b);
    }
}

pub fn order_keys(a: &str, b: &str) -> (r: KeyOrder)
    ensures
        r == key_order(a@, b@),
{
    let mut ia = a.chars();
    let mut ib = b.chars();
    let ghost mut i: int = 0;
    loop
        invariant
            0 <= i <= a@.len(),
            i <= b@.len(),
            forall|j: int| 0 <= j < i ==> a@[j] == b@[j],
            ia.remaining() == a@.skip(i),
            ib.remaining() == b@.skip(i),
        decreases a@.len() - i,
    {
        proof {
            lemma_key_less_skip(a@, b@, i);
        }
        let x = ia.next();
        let y = ib.next();
        match (x, y) {
            (None, None) => {
                assert(a@ =~= b@);
                return KeyOrder::Same;
            },
            (None, Some(_)) => {
                return KeyOrder::Before;
            },
            (Some(_), None) => {
                return KeyOrder::After;
            },
            (Some(p), Some(q)) => {
                if p != q {
                    assert(a@[i] != b@[i]);
                    if p < q {
                        return KeyOrder::Before;
                    } else {
                        return KeyOrder::After;
                    }
                }
                proof {
                    assert(a@.skip(i).drop_first() =~= a@.skip(i + 1));
                    assert(b@.skip(i).drop_first() =~= b@.skip(i + 1));
                    i = i + 1;
                }
            },
        }
    }
}

/// Whether two strings hold the same characters.
pub fn same_text(a: &str, b: &str) -> (r: bool)
    ensures
        r == (a@ == b@),
{
    match order_keys(a, b) {
        KeyOrder::Same => true,
        _ => false,
    }
}

/// Whether `c` is white space: the code points to which Unicode gives the
/// property `White_Space`.
pub open spec fn is_whitespace(c: char) -> bool {
    ||| ('\u{9}' <= c && c <= '\u{d}')
    ||| c == ' '
    ||| c == '\u{85}'
    ||| c == '\u{a0}'
    ||| c == '\u{1680}'
    ||| ('\u{2000}' <= c && c <= '\u{200a}')
    ||| c == '\u{2028}'
    ||| c == '\u{2029}'
    ||| c == '\u{202f}'
    ||| c == '\u{205f}'
    ||| c == '\u{3000}'
}

/// Whether `c` is white space.
pub fn whitespace(c: char) -> (r: bool)
    ensures
        r == is_whitespace(c),
{
    ('\u{9}' <= c && c <= '\u{d}') || c == ' ' || c == '\u{85}' || c == '\u{a0}' || c
        == '\u{1680}' || ('\u{2000}' <= c && c <= '\u{200a}') || c == '\u{2028}' || c
        == '\u{2029}' || c == '\u{202f}' || c == '\u{205f}' || c == '\u{3000}'
}

/// `s` without its leading white space.
pub open spec fn trim_start(s: Seq<char>) -> Seq<char>
    decreases s.len(),
{
    if s.len() > 0 && is_whitespace(s[0]) {
        trim_start(s.drop_first())
    } else {
        s
    }
}

/// `s` without its trailing white space.
pub open spec fn trim_end(s: Seq<char>) -> Seq<char>
    decreases s.len(),
{
    if s.len() > 0 && is_whitespace(s.last()) {
        trim_end(s.drop_last())
    } else {
        s
    }
}

/// `s` without the white space that surrounds it.
pub open spec fn trimmed(s: Seq<char>) -> Seq<char> {
    trim_end(trim_start(s))
}

/// Leading white space up to the first other character is what `trim_start`
/// drops.
pub proof fn lemma_trim_start_is(s: Seq<char>, start: int)
    requires
        0 <= start <= s.len(),
        forall|i: int| 0 <= i < start ==> is_whitespace(#[trigger] s[i]),
        start < s.len() ==> !is_whitespace(s[start]),
    ensures
        trim_start(s) == s.skip(start),
    decreases start,
{
    if start == 0 {
        assert(s.skip(0) =~= s);
    } else {
        let t = s.drop_first();
        assert forall|i: int| 0 <= i < start - 1 implies is_whitespace(#[trigger] t[i]) by {
            assert(t[i] == s[i + 1]);
        }
        lemma_trim_start_is(t, start - 1);
        assert(t.skip(start - 1) =~= s.skip(start));
    }
}

/// Trailing white space behind the last other character is what `trim_end`
/// drops.
pub proof fn lemma_trim_end_is(s: Seq<char>, end: int)
    requires
        0 <= end <= s.len(),
        forall|i: int| end <= i < s.len() ==> is_whitespace(#[trigger] s[i]),
        end > 0 ==> !is_whitespace(s[end - 1]),
    ensures
        trim_end(s) == s.take(end),
    decreases s.len() - end,
{
    if end == s.len() {
        assert(s.take(end) =~= s);
    } else {
        let t = s.drop_last();
        assert(is_whitespace(s[s.len() - 1]));
        assert forall|i: int| end <= i < t.len() implies is_whitespace(#[trigger] t[i]) by {
            assert(t[i] == s[i]);
        }
        lemma_trim_end_is(t, end);
        assert(t.take(end) =~= s.take(end));
    }
}

/// Trimming leaves no white space at either end, and a string without any at
/// its ends is left as it is.
pub proof fn lemma_trimmed_ends(s: Seq<char>)
    ensures
        trimmed(s).len() > 0 ==> !is_whitespace(trimmed(s)[0]) && !is_whitespace(
            trimmed(s).last(),
        ),
        trimmed(trimmed(s)) == trimmed(s),
{
    lemma_trim_start_head(s);
    lemma_trim_end_keeps_head(trim_start(s));
    lemma_trim_end_tail(trim_start(s));
    let t = trimmed(s);
    if t.len() > 0 {
        lemma_trim_start_is(t, 0);
        assert(t.skip(0) =~= t);
        lemma_trim_end_is(t, t.len() as int);
        assert(t.take(t.len() as int) =~= t);
    } else {
        assert(trim_start(t) == t);
        assert(trim_end(t) == t);
    }
}

/// What `trim_start` leaves does not begin with white space.
proof fn lemma_trim_start_head(s: Seq<char>)
    ensures
        trim_start(s).len() > 0 ==> !is_whitespace(trim_start(s)[0]),
    decreases s.len(),
{
    if s.len() > 0 && is_whitespace(s[0]) {
        lemma_trim_start_head(s.drop_first());
    }
}

/// What `trim_end` leaves does not end with white space.
proof fn lemma_trim_end_tail(s: Seq<char>)
    ensures
        trim_end(s).len() > 0 ==> !is_whitespace(trim_end(s).last()),
    decreases s.len(),
{
    if s.len() > 0 && is_whitespace(s.last()) {
        lemma_trim_end_tail(s.drop_last());
    }
}

/// `trim_end` leaves a prefix, so the first character stays the first.
proof fn lemma_trim_end_keeps_head(s: Seq<char>)
    ensures
        trim_end(s).len() <= s.len(),
        trim_end(s).len() > 0 ==> trim_end(s)[0] == s[0],
    decreases s.len(),
{
    if s.len() > 0 && is_whitespace(s.last()) {
        lemma_trim_end_keeps_head(s.drop_last());
    }
}

/// `text` without the white space that surrounds it.
pub fn trim(text: &str) -> (r: String)
    ensures
        r@ == trimmed(text@),
{
    let n = text.unicode_len();
    let mut it = text.chars();
    let mut i: usize = 0;
    let mut start: usize = 0;
    let mut end: usize = 0;
    let mut seen = false;
    loop
        invariant
            n == text@.len(),
            0 <= i <= n,
            it.remaining() == text@.skip(i as int),
            !seen ==> start == i && end == 0,
            !seen ==> forall|j: int| 0 <= j < i ==> is_whitespace(#[trigger] text@[j]),
            seen ==> start < end <= i,
            seen ==> forall|j: int| 0 <= j < start ==> is_whitespace(#[trigger] text@[j]),
            seen ==> !is_whitespace(text@[start as int]),
            seen ==> !is_whitespace(text@[end - 1]),
            seen ==> forall|j: int| end <= j < i ==> is_whitespace(#[trigger] text@[j]),
        ensures
            i == n,
        decreases text@.len() - i,
    {
        match it.next() {
            None => {
                assert(text@.skip(i as int).len() == 0);
                break ;
            },
            Some(c) => {
                assert(text@.skip(i as int).drop_first() =~= text@.skip(i + 1));
                assert(c == text@[i as int]);
                if !whitespace(c) {
                    if !seen {
                        start = i;
                        seen = true;
                    }
                    end = i + 1;
                } else if !seen {
                    start = i + 1;
                }
                i = i + 1;
            },
        }
    }
    proof {
        assert(i == text@.len());
        if seen {
            lemma_trim_start_is(text@, start as int);
            let t = text@.skip(start as int);
            assert forall|j: int| end - start <= j < t.len() implies is_whitespace(
                #[trigger] t[j],
            ) by {
                assert(t[j] == text@[j + start]);
            }
            assert(t[end - start - 1] == text@[end - 1]);
            lemma_trim_end_is(t, end - start);
            assert(t.take(end - start) =~= text@.subrange(start as int, end as int));
        } else {
            lemma_trim_start_is(text@, i as int);
            assert(text@.skip(i as int) =~= Seq::<char>::empty());
            assert(text@.subrange(start as int, start as int) =~= Seq::<char>::empty());
        }
    }
    if seen {
        text.substring_char(start, end).to_owned()
    } else {
        String::new()
    }
}

/// The decimal digit for `d`, which is below ten.
pub open spec fn digit(d: nat) -> char {
    if d == 0 {
        '0'
    } else if d == 1 {
        '1'
    } else if d == 2 {
        '2'
    } else if d == 3 {
        '3'
    } else if d == 4 {
        '4'
    } else if d == 5 {
        '5'
    } else if d == 6 {
        '6'
    } else if d == 7 {
        '7'
    } else if d == 8 {
        '8'
    } else {
        '9'
    }
}

/// `n` in decimal digits, without leading zeros.
pub open spec fn decimal(n: nat) -> Seq<char>
    decreases n,
{
    if n < 10 {
        seq![digit(n)]
    } else {
        decimal(n / 10).push(digit(n % 10))
    }
}

/// `count` zeros.
pub open spec fn zeros(count: nat) -> Seq<char> {
    Seq::new(count, |i: int| '0')
}

/// `n` in decimal digits, with zeros in front up to `width` digits.
pub open spec fn zero_padded(n: nat, width: nat) -> Seq<char> {
    if decimal(n).len() >= width {
        decimal(n)
    } else {
        zeros((width - decimal(n).len()) as nat) + decimal(n)
    }
}

/// The text of one decimal digit.
fn digit_text(d: u64) -> (r: &'static str)
    requires
        d < 10,
    ensures
        r@ == seq![digit(d as nat)],
{
    proof {
        reveal_strlit("0");
        reveal_strlit("1");
        reveal_strlit("2");
        reveal_strlit("3");
        reveal_strlit("4");
        reveal_strlit("5");
        reveal_strlit("6");
        reveal_strlit("7");
        reveal_strlit("8");
        reveal_strlit("9");
    }
    let r = if d == 0 {
        "0"
    } else if d == 1 {
        "1"
    } else if d == 2 {
        "2"
    } else if d == 3 {
        "3"
    } else if d == 4 {
        "4"
    } else if d == 5 {
        "5"
    } else if d == 6 {
        "6"
    } else if d == 7 {
        "7"
    } else if d == 8 {
        "8"
    } else {
        "9"
    };
    assert(r@ =~= seq![digit(d as nat)]);
    r
}

/// Appends `n` in decimal digits to `out` and returns how many digits it has.
pub fn push_decimal(out: &mut String, n: u64) -> (count: usize)
    ensures
        final(out)@ == old(out)@ + decimal(n as nat),
        count == decimal(n as nat).len(),
        1 <= count <= 20,
    decreases n,
{
    if n < 10 {
        out.append(digit_text(n));
        1
    } else {
        let head = push_decimal(out, n / 10);
        out.append(digit_text(n % 10));
        proof {
            assert(out@ =~= old(out)@ + decimal(n as nat));
            lemma_decimal_len(n as nat);
        }
        head + 1
    }
}

/// A number below `10^20` has at most twenty digits; every `u64` is one.
pub proof fn lemma_decimal_len(n: nat)
    ensures
        decimal(n).len() >= 1,
        n <= u64::MAX ==> decimal(n).len() <= 20,
{
    reveal_with_fuel(decimal, 21);
}

/// Appends `n` in decimal digits to `out`, with zeros in front up to `width`
/// digits.
pub fn push_zero_padded(out: &mut String, n: u64, width: usize)
    ensures
        final(out)@ == old(out)@ + zero_padded(n as nat, width as nat),
{
    let mut digits = String::new();
    let count = push_decimal(&mut digits, n);
    assert(digits@ =~= decimal(n as nat));
    let mut i: usize = count;
    while i < width
        invariant
            count <= i,
            i <= width || i == count,
            out@ == old(out)@ + zeros((i - count) as nat),
        decreases width - i,
    {
        out.append("0");
        proof {
            reveal_strlit("0");
            assert(out@ =~= old(out)@ + zeros((i + 1 - count) as nat));
        }
        i = i + 1;
    }
    out.append(digits.as_str());
    proof {
        if count >= width {
            assert(out@ =~= old(out)@ + decimal(n as nat));
        } else {
            assert(out@ =~= old(out)@ + (zeros((width - count) as nat) + decimal(n as nat)));
        }
    }
}

} // verus!
