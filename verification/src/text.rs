//! Character-level reading and writing of instruction text: Unicode
//! whitespace, trimming, whitespace-separated words, ASCII case folding and
//! decimal integers.
use vstd::prelude::*;

verus! {

broadcast use vstd::string::group_string_axioms;

/// The characters of `s`, one per element.
pub fn chars_of(s: &str) -> (v: Vec<char>)
    ensures
        v@ == s@,
{
    let mut v: Vec<char> = Vec::new();
    for c in it: s.chars()
        invariant
            it.seq() == s@,
            v@ == it.seq().take(it.index()),
    {
        v.push(c);
    }
    v
}

// ---------------------------------------------------------------------------
// Whitespace and trimming
// ---------------------------------------------------------------------------

/// `char::is_whitespace`: the characters with the Unicode `White_Space` property.
pub open spec fn is_ws(c: char) -> bool {
    ||| ('\t' <= c && c <= '\r')
    ||| c == ' '
    ||| c == '\u{85}'
    ||| c == '\u{a0}'
    ||| c == '\u{1680}'
    ||| ('\u{2000}' <= c && c <= '\u{200a}')
    ||| c == '\u{2028}'
    ||| c == '\u{2029}'
    ||| c == '\u{202f}'
    ||| c == '\u{205f}'
    ||| c == '\u{3000}'
}

pub fn char_is_ws(c: char) -> (r: bool)
    ensures
        r == is_ws(c),
{
    ('\t' <= c && c <= '\r') || c == ' ' || c == '\u{85}' || c == '\u{a0}' || c == '\u{1680}'
        || ('\u{2000}' <= c && c <= '\u{200a}') || c == '\u{2028}' || c == '\u{2029}'
        || c == '\u{202f}' || c == '\u{205f}' || c == '\u{3000}'
}

/// `s` with its leading whitespace removed.
pub open spec fn trim_start(s: Seq<char>) -> Seq<char>
    decreases s.len(),
{
    if s.len() > 0 && is_ws(s[0]) {
        trim_start(s.drop_first())
    } else {
        s
    }
}

/// `s` with its trailing whitespace removed.
pub open spec fn trim_end(s: Seq<char>) -> Seq<char>
    decreases s.len(),
{
    if s.len() > 0 && is_ws(s.last()) {
        trim_end(s.drop_last())
    } else {
        s
    }
}

/// `str::trim`: `s` without leading and trailing whitespace.
pub open spec fn trim(s: Seq<char>) -> Seq<char> {
    trim_end(trim_start(s))
}

/// True when every character of `s` is whitespace.
pub open spec fn all_ws(s: Seq<char>) -> bool {
    forall|i: int| 0 <= i < s.len() ==> is_ws(#[trigger] s[i])
}

pub proof fn lemma_trim_start_shape(s: Seq<char>)
    ensures
        trim_start(s).len() <= s.len(),
        trim_start(s) == s.skip(s.len() - trim_start(s).len()),
        trim_start(s).len() > 0 ==> !is_ws(trim_start(s)[0]),
        all_ws(s.take(s.len() - trim_start(s).len())),
    decreases s.len(),
{
    if s.len() > 0 && is_ws(s[0]) {
        lemma_trim_start_shape(s.drop_first());
        let t = trim_start(s.drop_first());
        assert(s.drop_first().skip(s.drop_first().len() - t.len()) =~= s.skip(s.len() - t.len()));
        let k = s.len() - t.len();
        assert forall|i: int| 0 <= i < k implies is_ws(#[trigger] s.take(k)[i]) by {
            if i > 0 {
                assert(s.take(k)[i] == s.drop_first().take(k - 1)[i - 1]);
            }
        }
    } else {
        assert(s.skip(0) =~= s);
        assert(s.take(0).len() == 0);
    }
}

proof fn lemma_trim_end_prefix(s: Seq<char>)
    ensures
        trim_end(s) == s.take(trim_end(s).len() as int),
        trim_end(s).len() <= s.len(),
        trim_end(s).len() > 0 ==> !is_ws(trim_end(s).last()),
    decreases s.len(),
{
    if s.len() > 0 && is_ws(s.last()) {
        lemma_trim_end_prefix(s.drop_last());
        let t = trim_end(s.drop_last());
        assert(s.drop_last().take(t.len() as int) =~= s.take(t.len() as int));
    } else {
        assert(s.take(s.len() as int) =~= s);
    }
}

/// A trimmed text neither starts nor ends with whitespace.
pub proof fn lemma_trim_ends(s: Seq<char>)
    ensures
        trim(s).len() > 0 ==> !is_ws(trim(s)[0]) && !is_ws(trim(s).last()),
{
    lemma_trim_start_shape(s);
    lemma_trim_end_prefix(trim_start(s));
    if trim(s).len() > 0 {
        assert(trim(s)[0] == trim_start(s)[0]);
    }
}

/// A sequence that neither starts nor ends with whitespace is its own trim.
pub proof fn lemma_trim_fixed(s: Seq<char>)
    requires
        s.len() > 0 ==> !is_ws(s[0]) && !is_ws(s.last()),
    ensures
        trim(s) == s,
{
}

/// Indices `(a, b)` such that `cs[a..b]` is `cs[lo..hi]` trimmed.
pub fn trim_bounds(cs: &Vec<char>, lo: usize, hi: usize) -> (r: (usize, usize))
    requires
        lo <= hi <= cs@.len(),
    ensures
        lo <= r.0 <= r.1 <= hi,
        cs@.subrange(r.0 as int, r.1 as int) == trim(cs@.subrange(lo as int, hi as int)),
        trim_start(cs@.subrange(lo as int, hi as int)) == cs@.subrange(r.0 as int, hi as int),
{
    let mut a = lo;
    while a < hi && char_is_ws(cs[a])
        invariant
            lo <= a <= hi <= cs@.len(),
            trim_start(cs@.subrange(lo as int, hi as int)) == trim_start(
                cs@.subrange(a as int, hi as int),
            ),
        decreases hi - a,
    {
        assert(cs@.subrange(a as int, hi as int).drop_first() =~= cs@.subrange(
            a + 1,
            hi as int,
        ));
        a = a + 1;
    }
    let mut b = hi;
    while b > a && char_is_ws(cs[b - 1])
        invariant
            lo <= a <= b <= hi <= cs@.len(),
            trim_end(cs@.subrange(a as int, hi as int)) == trim_end(
                cs@.subrange(a as int, b as int),
            ),
        decreases b - a,
    {
        assert(cs@.subrange(a as int, b as int).drop_last() =~= cs@.subrange(
            a as int,
            b - 1,
        ));
        b = b - 1;
    }
    (a, b)
}

// ---------------------------------------------------------------------------
// Words (`str::split_whitespace`)
// ---------------------------------------------------------------------------

/// Length of the run of non-whitespace characters that begins `s`.
pub open spec fn word_len(s: Seq<char>) -> nat
    decreases s.len(),
{
    if s.len() > 0 && !is_ws(s[0]) {
        1 + word_len(s.drop_first())
    } else {
        0
    }
}

pub proof fn lemma_word_len_bound(s: Seq<char>)
    ensures
        word_len(s) <= s.len(),
        s.len() > 0 && !is_ws(s[0]) ==> word_len(s) >= 1,
        forall|i: int| 0 <= i < word_len(s) ==> !is_ws(#[trigger] s[i]),
        word_len(s) < s.len() ==> is_ws(s[word_len(s) as int]),
    decreases s.len(),
{
    if s.len() > 0 && !is_ws(s[0]) {
        lemma_word_len_bound(s.drop_first());
        assert forall|i: int| 0 <= i < word_len(s) implies !is_ws(#[trigger] s[i]) by {
            if i > 0 {
                assert(s[i] == s.drop_first()[i - 1]);
            }
        }
        if word_len(s) < s.len() {
            assert(s[word_len(s) as int] == s.drop_first()[word_len(s.drop_first()) as int]);
        }
    }
}

/// `str::split_whitespace`: the maximal runs of non-whitespace characters of `s`, in order.
pub open spec fn words(s: Seq<char>) -> Seq<Seq<char>>
    decreases s.len(),
{
    let t = trim_start(s);
    if t.len() == 0 {
        Seq::empty()
    } else {
        proof {
            lemma_trim_start_shape(s);
            lemma_word_len_bound(t);
        }
        let n = word_len(t);
        seq![t.take(n as int)] + words(t.skip(n as int))
    }
}

/// Finds the first word of `cs[lo..hi]`: `None` when there is none, else its bounds `(a, b)`,
/// and the words of `cs[lo..hi]` are that word followed by the words of `cs[b..hi]`.
pub fn next_word(cs: &Vec<char>, lo: usize, hi: usize) -> (r: Option<(usize, usize)>)
    requires
        lo <= hi <= cs@.len(),
    ensures
        r is None <==> words(cs@.subrange(lo as int, hi as int)).len() == 0,
        r matches Some((a, b)) ==> {
            &&& lo <= a < b <= hi
            &&& words(cs@.subrange(lo as int, hi as int)) == seq![cs@.subrange(a as int, b as int)]
                + words(cs@.subrange(b as int, hi as int))
        },
{
    let mut a = lo;
    while a < hi && char_is_ws(cs[a])
        invariant
            lo <= a <= hi <= cs@.len(),
            trim_start(cs@.subrange(lo as int, hi as int)) == trim_start(
                cs@.subrange(a as int, hi as int),
            ),
        decreases hi - a,
    {
        assert(cs@.subrange(a as int, hi as int).drop_first() =~= cs@.subrange(
            a + 1,
            hi as int,
        ));
        a = a + 1;
    }
    let ghost t = cs@.subrange(a as int, hi as int);
    assert(trim_start(t) == t);
    if a == hi {
        assert(t.len() == 0);
        return None;
    }
    let mut b = a;
    while b < hi && !char_is_ws(cs[b])
        invariant
            a <= b <= hi <= cs@.len(),
            t == cs@.subrange(a as int, hi as int),
            word_len(t) == (b - a) + word_len(cs@.subrange(b as int, hi as int)),
        decreases hi - b,
    {
        assert(cs@.subrange(b as int, hi as int).drop_first() =~= cs@.subrange(
            b + 1,
            hi as int,
        ));
        b = b + 1;
    }
    proof {
        lemma_word_len_bound(t);
        assert(t.take(word_len(t) as int) =~= cs@.subrange(a as int, b as int));
        assert(t.skip(word_len(t) as int) =~= cs@.subrange(b as int, hi as int));
    }
    Some((a, b))
}

// ---------------------------------------------------------------------------
// Decimal integers (`str::parse` and `Display` for integers)
// ---------------------------------------------------------------------------

pub open spec fn is_digit(c: char) -> bool {
    '0' <= c && c <= '9'
}

pub open spec fn digit_val(c: char) -> int {
    c as int - '0' as int
}

pub open spec fn all_digits(s: Seq<char>) -> bool {
    forall|i: int| 0 <= i < s.len() ==> is_digit(#[trigger] s[i])
}

/// The number that the decimal digits `s` denote (0 for no digits).
pub open spec fn digits_value(s: Seq<char>) -> int
    decreases s.len(),
{
    if s.len() == 0 {
        0
    } else {
        digits_value(s.drop_last()) * 10 + digit_val(s.last())
    }
}

/// `str::parse::<i32>`: an optional `+` or `-`, then one or more ASCII digits whose value,
/// with its sign, lies in the range of `i32`.
pub open spec fn parse_i32(s: Seq<char>) -> Option<i32> {
    let neg = s.len() > 0 && s[0] == '-';
    let ds = if s.len() > 0 && (s[0] == '-' || s[0] == '+') {
        s.drop_first()
    } else {
        s
    };
    let v = if neg {
        -digits_value(ds)
    } else {
        digits_value(ds)
    };
    if ds.len() > 0 && all_digits(ds) && i32::MIN <= v <= i32::MAX {
        Some(v as i32)
    } else {
        None
    }
}

/// `str::parse::<u64>`: an optional `+`, then one or more ASCII digits whose value fits in `u64`.
pub open spec fn parse_u64(s: Seq<char>) -> Option<u64> {
    let ds = if s.len() > 0 && s[0] == '+' {
        s.drop_first()
    } else {
        s
    };
    if ds.len() > 0 && all_digits(ds) && digits_value(ds) <= u64::MAX {
        Some(digits_value(ds) as u64)
    } else {
        None
    }
}

pub proof fn lemma_digits_value_nonneg(s: Seq<char>)
    requires
        all_digits(s),
    ensures
        digits_value(s) >= 0,
    decreases s.len(),
{
    if s.len() > 0 {
        assert(all_digits(s.drop_last())) by {
            assert forall|i: int| 0 <= i < s.drop_last().len() implies is_digit(
                #[trigger] s.drop_last()[i],
            ) by {
                assert(s.drop_last()[i] == s[i]);
            }
        }
        lemma_digits_value_nonneg(s.drop_last());
        assert(is_digit(s[s.len() - 1]));
    }
}

/// Appending digits never makes the value smaller.
pub proof fn lemma_digits_value_prefix(s: Seq<char>, k: int)
    requires
        all_digits(s),
        0 <= k <= s.len(),
    ensures
        digits_value(s.take(k)) <= digits_value(s),
    decreases s.len(),
{
    if k == s.len() {
        assert(s.take(k) =~= s);
    } else {
        let p = s.drop_last();
        assert(all_digits(p)) by {
            assert forall|i: int| 0 <= i < p.len() implies is_digit(#[trigger] p[i]) by {
                assert(p[i] == s[i]);
            }
        }
        lemma_digits_value_prefix(p, k);
        assert(p.take(k) =~= s.take(k));
        lemma_digits_value_nonneg(p);
        assert(is_digit(s[s.len() - 1]));
    }
}

/// Value of the ASCII digits `cs[a..b]`, or `None` when it exceeds `bound`.
fn digits_upto(cs: &Vec<char>, a: usize, b: usize, bound: u64) -> (r: Option<u64>)
    requires
        a <= b <= cs@.len(),
        all_digits(cs@.subrange(a as int, b as int)),
    ensures
        r matches Some(v) ==> v == digits_value(cs@.subrange(a as int, b as int)) && v <= bound,
        r is None ==> digits_value(cs@.subrange(a as int, b as int)) > bound,
{
    let ghost s = cs@.subrange(a as int, b as int);
    let mut acc: u128 = 0;
    let mut i = a;
    assert(s.take(0).len() == 0);
    while i < b
        invariant
            a <= i <= b <= cs@.len(),
            s == cs@.subrange(a as int, b as int),
            all_digits(s),
            acc == digits_value(s.take(i - a)),
            acc <= bound,
        decreases b - i,
    {
        let c = cs[i];
        assert(c == s[i - a]);
        assert(is_digit(s[i - a]));
        let d = (c as u32 - '0' as u32) as u128;
        assert(s.take(i - a + 1).drop_last() =~= s.take(i - a));
        let next = acc * 10 + d;
        if next > bound as u128 {
            proof {
                lemma_digits_value_prefix(s, i - a + 1);
            }
            return None;
        }
        acc = next;
        i = i + 1;
    }
    assert(s.take(b - a) =~= s);
    Some(acc as u64)
}

/// Checks that `cs[a..b]` holds ASCII digits only.
fn digits_only(cs: &Vec<char>, a: usize, b: usize) -> (r: bool)
    requires
        a <= b <= cs@.len(),
    ensures
        r == all_digits(cs@.subrange(a as int, b as int)),
{
    let mut i = a;
    while i < b
        invariant
            a <= i <= b <= cs@.len(),
            forall|j: int| a <= j < i ==> is_digit(#[trigger] cs@[j]),
        decreases b - i,
    {
        if !('0' <= cs[i] && cs[i] <= '9') {
            assert(!is_digit(cs@.subrange(a as int, b as int)[i - a]));
            return false;
        }
        i = i + 1;
    }
    assert forall|j: int| 0 <= j < b - a implies is_digit(
        #[trigger] cs@.subrange(a as int, b as int)[j],
    ) by {
        assert(cs@.subrange(a as int, b as int)[j] == cs@[a + j]);
    }
    true
}

/// `str::parse::<i32>` on `cs[a..b]`.
pub fn parse_i32_at(cs: &Vec<char>, a: usize, b: usize) -> (r: Option<i32>)
    requires
        a <= b <= cs@.len(),
    ensures
        r == parse_i32(cs@.subrange(a as int, b as int)),
{
    let ghost s = cs@.subrange(a as int, b as int);
    let mut start = a;
    let mut neg = false;
    if a < b && (cs[a] == '-' || cs[a] == '+') {
        neg = cs[a] == '-';
        start = a + 1;
        assert(s.drop_first() =~= cs@.subrange(start as int, b as int));
    } else {
        assert(s =~= cs@.subrange(start as int, b as int));
    }
    if start == b || !digits_only(cs, start, b) {
        return None;
    }
    match digits_upto(cs, start, b, 2147483648) {
        None => None,
        Some(v) => {
            if neg {
                Some((-(v as i64)) as i32)
            } else if v <= 2147483647 {
                Some(v as i32)
            } else {
                None
            }
        },
    }
}

/// `str::parse::<u64>` on `cs[a..b]`.
pub fn parse_u64_at(cs: &Vec<char>, a: usize, b: usize) -> (r: Option<u64>)
    requires
        a <= b <= cs@.len(),
    ensures
        r == parse_u64(cs@.subrange(a as int, b as int)),
{
    let ghost s = cs@.subrange(a as int, b as int);
    let mut start = a;
    if a < b && cs[a] == '+' {
        start = a + 1;
        assert(s.drop_first() =~= cs@.subrange(start as int, b as int));
    } else {
        assert(s =~= cs@.subrange(start as int, b as int));
    }
    if start == b || !digits_only(cs, start, b) {
        return None;
    }
    digits_upto(cs, start, b, u64::MAX)
}

/// The character of the decimal digit `d`.
pub open spec fn digit_char(d: int) -> char {
    (d + '0' as int) as char
}

/// `Display` for a natural number: its decimal digits, most significant first, no leading zeros.
pub open spec fn dec_nat(n: nat) -> Seq<char>
    decreases n,
{
    if n < 10 {
        seq![digit_char(n as int)]
    } else {
        dec_nat(n / 10).push(digit_char((n % 10) as int))
    }
}

/// `Display` for an integer: `-` before the digits of a negative number.
pub open spec fn dec_int(v: int) -> Seq<char> {
    if v < 0 {
        seq!['-'] + dec_nat((-v) as nat)
    } else {
        dec_nat(v as nat)
    }
}

pub proof fn lemma_dec_nat_digits(n: nat)
    ensures
        dec_nat(n).len() >= 1,
        all_digits(dec_nat(n)),
        digits_value(dec_nat(n)) == n,
    decreases n,
{
    if n >= 10 {
        lemma_dec_nat_digits(n / 10);
        let p = dec_nat(n / 10);
        let s = p.push(digit_char((n % 10) as int));
        assert(s.drop_last() =~= p);
        assert forall|i: int| 0 <= i < s.len() implies is_digit(#[trigger] s[i]) by {
            if i < p.len() {
                assert(s[i] == p[i]);
            }
        }
        assert((n / 10) * 10 + n % 10 == n) by (nonlinear_arith);
        assert(digit_val(s.last()) == n % 10);
        assert(dec_nat(n) == s);
        assert(digits_value(s) == digits_value(p) * 10 + digit_val(s.last()));
    } else {
        assert(digit_val(dec_nat(n).last()) == n);
        assert(dec_nat(n).drop_last() =~= Seq::<char>::empty());
        assert(digits_value(dec_nat(n)) == digits_value(dec_nat(n).drop_last()) * 10 + digit_val(
            dec_nat(n).last(),
        ));
    }
}

/// Reading back the decimal form of a `u64` gives the number.
pub proof fn lemma_parse_u64_dec(n: u64)
    ensures
        parse_u64(dec_nat(n as nat)) == Some(n),
{
    lemma_dec_nat_digits(n as nat);
    assert(is_digit(dec_nat(n as nat)[0]));
}

/// Reading back the decimal form of an `i32` gives the number.
pub proof fn lemma_parse_i32_dec(v: i32)
    ensures
        parse_i32(dec_int(v as int)) == Some(v),
{
    if v < 0 {
        let d = dec_nat((-v) as nat);
        lemma_dec_nat_digits((-v) as nat);
        assert((seq!['-'] + d).drop_first() =~= d);
    } else {
        lemma_dec_nat_digits(v as nat);
        assert(is_digit(dec_nat(v as nat)[0]));
    }
}

/// A decimal numeral holds no whitespace.
pub proof fn lemma_dec_int_no_ws(v: int)
    ensures
        dec_int(v).len() >= 1,
        forall|i: int| 0 <= i < dec_int(v).len() ==> !is_ws(#[trigger] dec_int(v)[i]),
        is_digit(dec_int(v).last()),
{
    if v < 0 {
        lemma_dec_nat_digits((-v) as nat);
        let d = dec_nat((-v) as nat);
        assert forall|i: int| 0 <= i < dec_int(v).len() implies !is_ws(#[trigger] dec_int(v)[i]) by {
            if i > 0 {
                assert(dec_int(v)[i] == d[i - 1]);
                assert(is_digit(d[i - 1]));
            }
        }
        assert(dec_int(v).last() == d.last());
        assert(is_digit(d[d.len() - 1]));
    } else {
        lemma_dec_nat_digits(v as nat);
        let d = dec_nat(v as nat);
        assert forall|i: int| 0 <= i < d.len() implies !is_ws(#[trigger] d[i]) by {
            assert(is_digit(d[i]));
        }
        assert(is_digit(d[d.len() - 1]));
    }
}

fn digit_str(d: u64) -> (r: &'static str)
    requires
        d < 10,
    ensures
        r@ == seq![digit_char(d as int)],
{
    proof {
        reveal_strlit("0");
        reveal_strlit("1");
        reveal_strlit("2");
        reveal_strlit("3");
        reveal_strlit("4");
        reveal_strlit("5");
        reveal_strlit("6");
        reveal_strlit("7");
        reveal_strlit("8");
        reveal_strlit("9");
    }
    match d {
        0 => "0",
        1 => "1",
        2 => "2",
        3 => "3",
        4 => "4",
        5 => "5",
        6 => "6",
        7 => "7",
        8 => "8",
        _ => "9",
    }
}

/// Appends the decimal form of `n` to `out`.
pub fn push_u64(out: &mut String, n: u64)
    ensures
        final(out)@ == old(out)@ + dec_nat(n as nat),
    decreases n,
{
    if n >= 10 {
        push_u64(out, n / 10);
    }
    out.append(digit_str(n % 10));
    proof {
        if n >= 10 {
            assert(dec_nat(n as nat) == dec_nat((n / 10) as nat).push(digit_char((n % 10) as int)));
        }
    }
    assert(final(out)@ =~= old(out)@ + dec_nat(n as nat));
}

/// Appends the decimal form of `v` to `out`.
pub fn push_i32(out: &mut String, v: i32)
    ensures
        final(out)@ == old(out)@ + dec_int(v as int),
{
    if v < 0 {
        proof {
            reveal_strlit("-");
        }
        out.append("-");
        let ghost mid = out@;
        push_u64(out, (-(v as i64)) as u64);
        assert(out@ =~= old(out)@ + dec_int(v as int));
    } else {
        push_u64(out, v as u64);
    }
}

// ---------------------------------------------------------------------------
// Surrounding whitespace
// ---------------------------------------------------------------------------

proof fn lemma_trim_start_ws_prefix(pre: Seq<char>, x: Seq<char>)
    requires
        all_ws(pre),
    ensures
        trim_start(pre + x) == trim_start(x),
    decreases pre.len(),
{
    if pre.len() > 0 {
        assert((pre + x)[0] == pre[0]);
        assert((pre + x).drop_first() =~= pre.drop_first() + x);
        assert(all_ws(pre.drop_first())) by {
            assert forall|i: int| 0 <= i < pre.drop_first().len() implies is_ws(
                #[trigger] pre.drop_first()[i],
            ) by {
                assert(pre.drop_first()[i] == pre[i + 1]);
            }
        }
        lemma_trim_start_ws_prefix(pre.drop_first(), x);
    } else {
        assert(pre + x =~= x);
    }
}

proof fn lemma_trim_end_ws_suffix(x: Seq<char>, post: Seq<char>)
    requires
        all_ws(post),
    ensures
        trim_end(x + post) == trim_end(x),
    decreases post.len(),
{
    if post.len() > 0 {
        assert((x + post).last() == post.last());
        assert((x + post).drop_last() =~= x + post.drop_last());
        assert(all_ws(post.drop_last())) by {
            assert forall|i: int| 0 <= i < post.drop_last().len() implies is_ws(
                #[trigger] post.drop_last()[i],
            ) by {
                assert(post.drop_last()[i] == post[i]);
            }
        }
        lemma_trim_end_ws_suffix(x, post.drop_last());
    } else {
        assert(x + post =~= x);
    }
}

proof fn lemma_trim_start_all_ws(s: Seq<char>)
    requires
        all_ws(s),
    ensures
        trim_start(s).len() == 0,
{
    lemma_trim_start_ws_prefix(s, Seq::empty());
    assert(s + Seq::<char>::empty() =~= s);
}

proof fn lemma_trim_start_append(s: Seq<char>, t: Seq<char>)
    ensures
        trim_start(s + t) == if trim_start(s).len() > 0 {
            trim_start(s) + t
        } else {
            trim_start(t)
        },
    decreases s.len(),
{
    if s.len() == 0 {
        assert(s + t =~= t);
    } else {
        assert((s + t)[0] == s[0]);
        assert((s + t).drop_first() =~= s.drop_first() + t);
        if is_ws(s[0]) {
            lemma_trim_start_append(s.drop_first(), t);
        }
    }
}

/// Whitespace around a text does not change its trimmed form.
pub proof fn lemma_trim_padding(pre: Seq<char>, s: Seq<char>, post: Seq<char>)
    requires
        all_ws(pre),
        all_ws(post),
    ensures
        trim(pre + s + post) == trim(s),
{
    assert(pre + s + post =~= pre + (s + post));
    lemma_trim_start_ws_prefix(pre, s + post);
    lemma_trim_start_append(s, post);
    if trim_start(s).len() > 0 {
        lemma_trim_end_ws_suffix(trim_start(s), post);
    } else {
        lemma_trim_start_all_ws(post);
    }
}

// ---------------------------------------------------------------------------
// Prefixes and ASCII case
// ---------------------------------------------------------------------------

/// `str::starts_with` for a string pattern.
pub open spec fn has_prefix(s: Seq<char>, p: Seq<char>) -> bool {
    p.len() <= s.len() && s.take(p.len() as int) == p
}

/// Whether `cs[a..b]` starts with `p`.
pub fn prefix_at(cs: &Vec<char>, a: usize, b: usize, p: &str) -> (r: bool)
    requires
        a <= b <= cs@.len(),
    ensures
        r == has_prefix(cs@.subrange(a as int, b as int), p@),
{
    let n = p.unicode_len();
    if n > b - a {
        return false;
    }
    let mut i: usize = 0;
    while i < n
        invariant
            n == p@.len(),
            a + n <= b <= cs@.len(),
            i <= n,
            forall|j: int| 0 <= j < i ==> cs@[a + j] == p@[j],
        decreases n - i,
    {
        if cs[a + i] != p.get_char(i) {
            assert(cs@.subrange(a as int, b as int).take(n as int)[i as int] != p@[i as int]);
            return false;
        }
        i = i + 1;
    }
    assert(cs@.subrange(a as int, b as int).take(n as int) =~= p@);
    true
}

/// `char::to_ascii_lowercase`.
pub open spec fn ascii_lower(c: char) -> char {
    if 'A' <= c && c <= 'Z' {
        ((c as int) + 32) as char
    } else {
        c
    }
}

/// `char::to_ascii_uppercase`.
pub open spec fn ascii_upper(c: char) -> char {
    if 'a' <= c && c <= 'z' {
        ((c as int) - 32) as char
    } else {
        c
    }
}

/// `str::to_ascii_uppercase`.
pub open spec fn upper(s: Seq<char>) -> Seq<char> {
    s.map_values(|c: char| ascii_upper(c))
}

/// `str::eq_ignore_ascii_case` (comparing characters is the same as comparing the UTF-8 bytes,
/// since only ASCII letters change case).
pub open spec fn eq_ignore_case(s: Seq<char>, t: Seq<char>) -> bool {
    s.len() == t.len() && forall|i: int| 0 <= i < s.len() ==> ascii_lower(#[trigger] s[i])
        == ascii_lower(t[i])
}

pub fn char_upper(c: char) -> (r: char)
    ensures
        r == ascii_upper(c),
{
    if 'a' <= c && c <= 'z' {
        ((c as u32) - 32) as u8 as char
    } else {
        c
    }
}

pub fn char_lower(c: char) -> (r: char)
    ensures
        r == ascii_lower(c),
{
    if 'A' <= c && c <= 'Z' {
        ((c as u32) + 32) as u8 as char
    } else {
        c
    }
}

/// Whether `cs[a..b]` equals `p` ignoring ASCII case.
pub fn eq_ignore_case_at(cs: &Vec<char>, a: usize, b: usize, p: &str) -> (r: bool)
    requires
        a <= b <= cs@.len(),
    ensures
        r == eq_ignore_case(cs@.subrange(a as int, b as int), p@),
{
    let n = p.unicode_len();
    if n != b - a {
        return false;
    }
    let ghost s = cs@.subrange(a as int, b as int);
    let mut i: usize = 0;
    while i < n
        invariant
            n == p@.len(),
            a + n == b <= cs@.len(),
            s == cs@.subrange(a as int, b as int),
            i <= n,
            forall|j: int| 0 <= j < i ==> ascii_lower(#[trigger] s[j]) == ascii_lower(p@[j]),
        decreases n - i,
    {
        assert(s[i as int] == cs@[a + i]);
        if char_lower(cs[a + i]) != char_lower(p.get_char(i)) {
            return false;
        }
        i = i + 1;
    }
    true
}

/// Whether `cs[a..b]`, in ASCII upper case, equals `p`.
pub fn upper_eq_at(cs: &Vec<char>, a: usize, b: usize, p: &str) -> (r: bool)
    requires
        a <= b <= cs@.len(),
    ensures
        r == (upper(cs@.subrange(a as int, b as int)) == p@),
{
    let n = p.unicode_len();
    let ghost s = cs@.subrange(a as int, b as int);
    if n != b - a {
        assert(upper(s).len() != p@.len());
        return false;
    }
    let mut i: usize = 0;
    while i < n
        invariant
            n == p@.len(),
            a + n == b <= cs@.len(),
            s == cs@.subrange(a as int, b as int),
            i <= n,
            forall|j: int| 0 <= j < i ==> upper(s)[j] == p@[j],
        decreases n - i,
    {
        assert(s[i as int] == cs@[a + i]);
        if char_upper(cs[a + i]) != p.get_char(i) {
            assert(upper(s)[i as int] != p@[i as int]);
            return false;
        }
        i = i + 1;
    }
    assert(upper(s) =~= p@);
    true
}

} // verus!
