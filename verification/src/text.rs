//! Character-level string helpers shared by the FGD writer and parsers:
//! pushing onto strings, decimal formatting, Unicode whitespace trimming,
//! and Rust-compatible decimal integer parsing.
use vstd::prelude::*;
use vstd::string::*;

verus! {

/// Appends one character to `s` (`String::push`).
#[verifier::external_body]
pub(crate) fn push_char(s: &mut String, c: char)
    ensures
        final(s)@ == old(s)@.push(c),
{
    s.push(c);
}

/// `(o + a) + p == o + (a + p)`: one more piece appended to text already written.
pub proof fn lemma_extend(o: Seq<char>, a: Seq<char>, p: Seq<char>)
    ensures
        o + a + p == o + (a + p),
{
    assert(o + a + p =~= o + (a + p));
}

/// Appends `t` to `s`.
pub fn push_str(s: &mut String, t: &str)
    ensures
        final(s)@ == old(s)@ + t@,
{
    s.append(t);
}

/// The characters of `s`, in order.
pub fn chars_of(s: &str) -> (v: Vec<char>)
    ensures
        v@ == s@,
{
    let mut v: Vec<char> = Vec::new();
    for c in it: s.chars()
        invariant
            it.seq() == s@,
            v@ == it.seq().take(it.index() as int),
    {
        v.push(c);
    }
    v
}

/// Builds a string from the characters `v[lo..hi]`.
pub fn string_from_chars(v: &Vec<char>, lo: usize, hi: usize) -> (s: String)
    requires
        lo <= hi <= v@.len(),
    ensures
        s@ == v@.subrange(lo as int, hi as int),
{
    let mut s = String::new();
    let mut i = lo;
    while i < hi
        invariant
            lo <= i <= hi <= v@.len(),
            s@ == v@.subrange(lo as int, i as int),
        decreases hi - i,
    {
        push_char(&mut s, v[i]);
        i = i + 1;
    }
    s
}

// ---------------------------------------------------------------------------
// Decimal formatting
// ---------------------------------------------------------------------------

/// The ASCII digit for `d` (`0 <= d < 10`).
pub open spec fn digit_char(d: nat) -> char {
    if d == 0 { '0' }
    else if d == 1 { '1' }
    else if d == 2 { '2' }
    else if d == 3 { '3' }
    else if d == 4 { '4' }
    else if d == 5 { '5' }
    else if d == 6 { '6' }
    else if d == 7 { '7' }
    else if d == 8 { '8' }
    else { '9' }
}

/// The decimal representation of a natural number, without leading zeros.
pub open spec fn nat_to_dec(n: nat) -> Seq<char>
    decreases n,
{
    if n < 10 {
        seq![digit_char(n)]
    } else {
        nat_to_dec(n / 10).push(digit_char(n % 10))
    }
}

/// The decimal representation of an integer, with a leading `-` when negative
/// (what `Display` prints for Rust integers).
pub open spec fn int_to_dec(i: int) -> Seq<char> {
    if i < 0 {
        seq!['-'] + nat_to_dec((-i) as nat)
    } else {
        nat_to_dec(i as nat)
    }
}

fn digit_to_char(d: u64) -> (c: char)
    requires
        d < 10,
    ensures
        c == digit_char(d as nat),
{
    if d == 0 { '0' }
    else if d == 1 { '1' }
    else if d == 2 { '2' }
    else if d == 3 { '3' }
    else if d == 4 { '4' }
    else if d == 5 { '5' }
    else if d == 6 { '6' }
    else if d == 7 { '7' }
    else if d == 8 { '8' }
    else { '9' }
}

/// Appends the decimal representation of `n` to `s`.
pub fn push_u64_dec(s: &mut String, n: u64)
    ensures
        final(s)@ == old(s)@ + nat_to_dec(n as nat),
    decreases n,
{
    if n < 10 {
        push_char(s, digit_to_char(n));
    } else {
        push_u64_dec(s, n / 10);
        push_char(s, digit_to_char(n % 10));
        assert(old(s)@ + nat_to_dec(n as nat) == old(s)@ + nat_to_dec((n / 10) as nat) + seq![
            digit_char((n % 10) as nat),
        ]);
    }
}

/// Appends the decimal representation of `i` to `s`.
pub fn push_i64_dec(s: &mut String, i: i64)
    ensures
        final(s)@ == old(s)@ + int_to_dec(i as int),
{
    if i < 0 {
        push_char(s, '-');
        let mag: u64 = if i == i64::MIN {
            9223372036854775808u64
        } else {
            (-i) as u64
        };
        push_u64_dec(s, mag);
        assert(old(s)@ + int_to_dec(i as int) == old(s)@.push('-') + nat_to_dec(mag as nat));
    } else {
        push_u64_dec(s, i as u64);
    }
}

/// The decimal representation of `n`.
pub fn u64_to_string(n: u64) -> (s: String)
    ensures
        s@ == nat_to_dec(n as nat),
{
    let mut s = String::new();
    push_u64_dec(&mut s, n);
    s
}

/// The decimal representation of `i`.
pub fn i64_to_string(i: i64) -> (s: String)
    ensures
        s@ == int_to_dec(i as int),
{
    let mut s = String::new();
    push_i64_dec(&mut s, i);
    s
}

// ---------------------------------------------------------------------------
// Whitespace and trimming
// ---------------------------------------------------------------------------

/// The Unicode `White_Space` property, as used by `char::is_whitespace` and `str::trim`.
pub open spec fn is_unicode_whitespace(c: char) -> bool {
    let u = c as u32;
    ||| 0x09 <= u <= 0x0D
    ||| u == 0x20
    ||| u == 0x85
    ||| u == 0xA0
    ||| u == 0x1680
    ||| 0x2000 <= u <= 0x200A
    ||| u == 0x2028
    ||| u == 0x2029
    ||| u == 0x202F
    ||| u == 0x205F
    ||| u == 0x3000
}

/// Whether `c` has the Unicode `White_Space` property.
pub fn is_whitespace(c: char) -> (b: bool)
    ensures
        b == is_unicode_whitespace(c),
{
    let u = c as u32;
    (0x09 <= u && u <= 0x0D) || u == 0x20 || u == 0x85 || u == 0xA0 || u == 0x1680 || (0x2000 <= u
        && u <= 0x200A) || u == 0x2028 || u == 0x2029 || u == 0x202F || u == 0x205F || u == 0x3000
}

/// `s` without its leading whitespace.
pub open spec fn trim_start(s: Seq<char>) -> Seq<char>
    decreases s.len(),
{
    if s.len() > 0 && is_unicode_whitespace(s[0]) {
        trim_start(s.drop_first())
    } else {
        s
    }
}

/// `s` without its trailing whitespace.
pub open spec fn trim_end(s: Seq<char>) -> Seq<char>
    decreases s.len(),
{
    if s.len() > 0 && is_unicode_whitespace(s.last()) {
        trim_end(s.drop_last())
    } else {
        s
    }
}

/// `s` without leading and trailing whitespace (`str::trim`).
pub open spec fn trim(s: Seq<char>) -> Seq<char> {
    trim_end(trim_start(s))
}

/// The bounds of `v` once leading and trailing whitespace are removed.
pub fn trim_bounds(v: &Vec<char>) -> (r: (usize, usize))
    ensures
        r.0 <= r.1 <= v@.len(),
        v@.subrange(r.0 as int, r.1 as int) == trim(v@),
{
    let n = v.len();
    let mut lo: usize = 0;
    assert(v@.subrange(0, n as int) == v@);
    while lo < n && is_whitespace(v[lo])
        invariant
            lo <= n == v@.len(),
            trim_start(v@.subrange(lo as int, n as int)) == trim_start(v@),
        decreases n - lo,
    {
        assert(v@.subrange(lo as int, n as int).drop_first() == v@.subrange(lo + 1, n as int));
        lo = lo + 1;
    }
    let mut hi: usize = n;
    while hi > lo && is_whitespace(v[hi - 1])
        invariant
            lo <= hi <= n == v@.len(),
            trim_end(v@.subrange(lo as int, hi as int)) == trim(v@),
            trim_start(v@.subrange(lo as int, n as int)) == v@.subrange(lo as int, n as int),
        decreases hi - lo,
    {
        assert(v@.subrange(lo as int, hi as int).drop_last() == v@.subrange(lo as int, hi - 1));
        hi = hi - 1;
    }
    (lo, hi)
}

/// ASCII whitespace as `u8::is_ascii_whitespace` has it: space, tab, line feed, form feed and
/// carriage return.
pub open spec fn is_ascii_ws(c: char) -> bool {
    c == ' ' || c == '\t' || c == '\n' || c == '\x0C' || c == '\r'
}

/// The words of `s`: its longest runs of characters that are not ASCII whitespace, in order
/// (`str::split_ascii_whitespace`).
pub open spec fn ascii_words(s: Seq<char>) -> Seq<Seq<char>>
    decreases s.len(),
{
    if s.len() == 0 {
        Seq::empty()
    } else {
        let w = ascii_words(s.drop_last());
        let c = s.last();
        if is_ascii_ws(c) {
            w
        } else if s.len() > 1 && !is_ascii_ws(s[s.len() - 2]) {
            w.drop_last().push(w.last().push(c))
        } else {
            w.push(seq![c])
        }
    }
}

/// The character sequences of `v`.
pub open spec fn strings_view(v: Seq<String>) -> Seq<Seq<char>> {
    Seq::new(v.len(), |i: int| v[i]@)
}

/// The words of `s`, split at ASCII whitespace (`str::split_ascii_whitespace`).
pub fn split_ascii_whitespace(s: &str) -> (r: Vec<String>)
    ensures
        strings_view(r@) == ascii_words(s@),
{
    let v = chars_of(s);
    let mut words: Vec<String> = Vec::new();
    let mut cur = String::new();
    let mut in_word = false;
    let mut i: usize = 0;
    while i < v.len()
        invariant
            v@ == s@,
            i <= v@.len(),
            in_word == (i > 0 && !is_ascii_ws(v@[i - 1])),
            in_word ==> cur@.len() > 0,
            (if in_word { strings_view(words@).push(cur@) } else { strings_view(words@) }) == ascii_words(v@.take(i as int)),
        decreases v@.len() - i,
    {
        let c = v[i];
        let ghost prev = v@.take(i as int);
        assert(v@.take(i + 1).drop_last() == prev);
        assert(v@.take(i + 1).last() == c);
        proof {
            if i > 0 {
                assert(v@.take(i + 1)[i - 1] == v@[i - 1]);
            }
        }
        let ws = c == ' ' || c == '\t' || c == '\n' || c == '\x0C' || c == '\r';
        let ghost old_words = strings_view(words@);
        let ghost old_cur = cur@;
        if ws {
            if in_word {
                words.push(cur);
                cur = String::new();
                assert(strings_view(words@) =~= old_words.push(old_cur));
            }
            in_word = false;
        } else {
            if in_word {
                push_char(&mut cur, c);
                assert(old_words.push(old_cur).drop_last() =~= old_words);
            } else {
                cur = String::new();
                push_char(&mut cur, c);
                assert(cur@ =~= seq![c]);
                in_word = true;
            }
        }
        i = i + 1;
    }
    if in_word {
        let ghost old_words = strings_view(words@);
        let ghost old_cur = cur@;
        words.push(cur);
        assert(strings_view(words@) =~= old_words.push(old_cur));
    }
    assert(v@.take(v@.len() as int) == v@);
    words
}

// ---------------------------------------------------------------------------
// Integer parsing
// ---------------------------------------------------------------------------

/// Why a decimal integer could not be parsed (the kinds of `core::num::ParseIntError`).
#[derive(Debug, Clone, Copy, PartialEq, Eq, Structural)]
pub enum IntErrorKind {
    /// The string is empty.
    Empty,
    /// The string holds a character that is not a digit where a digit is expected.
    InvalidDigit,
    /// The value is larger than the target type can hold.
    PosOverflow,
    /// The value is smaller than the target type can hold.
    NegOverflow,
}

pub open spec fn is_digit(c: char) -> bool {
    '0' <= c <= '9'
}

pub open spec fn digit_value(c: char) -> int {
    (c as u32) - ('0' as u32)
}

/// Reads the digits `d` left to right, accumulating the value and stopping at the
/// first non-digit or at the first step that leaves `[min, max]`.
pub open spec fn digits_value(d: Seq<char>, neg: bool, min: int, max: int) -> Result<int, IntErrorKind>
    decreases d.len(),
{
    if d.len() == 0 {
        Ok(0)
    } else {
        match digits_value(d.drop_last(), neg, min, max) {
            Err(e) => Err(e),
            Ok(v) => {
                let c = d.last();
                if !is_digit(c) {
                    Err(IntErrorKind::InvalidDigit)
                } else {
                    let n = if neg { v * 10 - digit_value(c) } else { v * 10 + digit_value(c) };
                    if n > max {
                        Err(IntErrorKind::PosOverflow)
                    } else if n < min {
                        Err(IntErrorKind::NegOverflow)
                    } else {
                        Ok(n)
                    }
                }
            },
        }
    }
}

/// Rust's decimal integer parsing (`FromStr` for the integer types) of `s`,
/// for a type holding `[min, max]`; `signed` types accept a leading `-`.
pub open spec fn parse_int_spec(s: Seq<char>, signed: bool, min: int, max: int) -> Result<int, IntErrorKind> {
    if s.len() == 0 {
        Err(IntErrorKind::Empty)
    } else if s.len() == 1 && (s[0] == '+' || s[0] == '-') {
        Err(IntErrorKind::InvalidDigit)
    } else if s[0] == '+' {
        digits_value(s.drop_first(), false, min, max)
    } else if s[0] == '-' && signed {
        digits_value(s.drop_first(), true, min, max)
    } else {
        digits_value(s, false, min, max)
    }
}

proof fn lemma_digit_char_value(d: nat)
    requires
        d < 10,
    ensures
        is_digit(digit_char(d)),
        digit_value(digit_char(d)) == d,
        !is_unicode_whitespace(digit_char(d)),
{
}

/// The decimal form of a number is a non-empty run of digits.
pub proof fn lemma_nat_to_dec_digits(n: nat)
    ensures
        nat_to_dec(n).len() >= 1,
        forall|k: int| 0 <= k < nat_to_dec(n).len() ==> is_digit(#[trigger] nat_to_dec(n)[k]),
    decreases n,
{
    if n < 10 {
        lemma_digit_char_value(n);
    } else {
        lemma_nat_to_dec_digits(n / 10);
        lemma_digit_char_value(n % 10);
        let s = nat_to_dec(n / 10);
        assert forall|k: int| 0 <= k < nat_to_dec(n).len() implies is_digit(#[trigger] nat_to_dec(n)[k]) by {
            if k < s.len() {
                assert(nat_to_dec(n)[k] == s[k]);
            }
        }
    }
}

/// Reading the decimal form of `n` gives `n` (or `-n` when reading a negative number), as long
/// as that fits.
pub proof fn lemma_digits_value_nat_to_dec(n: nat, neg: bool, min: int, max: int)
    requires
        min <= 0 <= max,
        neg ==> min <= -n,
        !neg ==> n <= max,
    ensures
        digits_value(nat_to_dec(n), neg, min, max) == Ok::<int, IntErrorKind>(if neg { -n } else { n as int }),
    decreases n,
{
    lemma_digit_char_value(n % 10);
    if n < 10 {
        let d = nat_to_dec(n);
        assert(d.drop_last() =~= Seq::<char>::empty());
        lemma_digit_char_value(n);
        assert(digits_value(d.drop_last(), neg, min, max) == Ok::<int, IntErrorKind>(0));
        assert(d.last() == digit_char(n));
        let m = if neg { 0 * 10 - digit_value(d.last()) } else { 0 * 10 + digit_value(d.last()) };
        assert(m == (if neg { -n } else { n as int }));
        assert(digits_value(d, neg, min, max) == Ok::<int, IntErrorKind>(m));
    } else {
        assert((n / 10) * 10 + n % 10 == n && n / 10 <= n) by (nonlinear_arith) requires n >= 10;
        lemma_digits_value_nat_to_dec(n / 10, neg, min, max);
        assert(nat_to_dec(n).drop_last() == nat_to_dec(n / 10));
        assert(nat_to_dec(n).last() == digit_char(n % 10));
        let d = nat_to_dec(n);
        let v: int = if neg { -((n / 10) as int) } else { (n / 10) as int };
        assert(digits_value(d.drop_last(), neg, min, max) == Ok::<int, IntErrorKind>(v));
        let c = d.last();
        assert(is_digit(c));
        assert(digit_value(c) == n % 10);
        let m = if neg { v * 10 - digit_value(c) } else { v * 10 + digit_value(c) };
        assert(m == (if neg { -n } else { n as int }));
        assert(digits_value(d, neg, min, max) == Ok::<int, IntErrorKind>(m));
    }
}

/// A sequence with no whitespace at either end is its own trim.
pub proof fn lemma_trim_unchanged(s: Seq<char>)
    requires
        s.len() > 0,
        !is_unicode_whitespace(s[0]),
        !is_unicode_whitespace(s.last()),
    ensures
        trim(s) == s,
{
}

/// Parsing the decimal form of an integer that fits gives it back.
pub proof fn lemma_parse_int_to_dec(i: int, signed: bool, min: int, max: int)
    requires
        min <= 0 <= max,
        min <= i <= max,
        i < 0 ==> signed,
    ensures
        parse_int_spec(trim(int_to_dec(i)), signed, min, max) == Ok::<int, IntErrorKind>(i),
{
    if i < 0 {
        let n = (-i) as nat;
        lemma_nat_to_dec_digits(n);
        let s = int_to_dec(i);
        assert(s == seq!['-'] + nat_to_dec(n));
        assert(s.last() == nat_to_dec(n).last());
        assert(is_digit(nat_to_dec(n)[nat_to_dec(n).len() - 1]));
        lemma_trim_unchanged(s);
        assert(s.drop_first() =~= nat_to_dec(n));
        lemma_digits_value_nat_to_dec(n, true, min, max);
    } else {
        let n = i as nat;
        lemma_nat_to_dec_digits(n);
        let s = nat_to_dec(n);
        assert(is_digit(s[0]));
        assert(is_digit(s[s.len() - 1]));
        lemma_trim_unchanged(s);
        lemma_digits_value_nat_to_dec(n, false, min, max);
    }
}

proof fn lemma_digits_value_bounds(d: Seq<char>, neg: bool, min: int, max: int)
    requires
        min <= 0 <= max,
    ensures
        digits_value(d, neg, min, max) matches Ok(v) ==> min <= v <= max && (neg ==> v <= 0) && (!neg
            ==> v >= 0),
    decreases d.len(),
{
    if d.len() > 0 {
        lemma_digits_value_bounds(d.drop_last(), neg, min, max);
    }
}

/// Parses `v[lo..hi]` as a decimal integer the way Rust's `FromStr` does for a type holding
/// `[min, max]`.
pub fn parse_int_chars(v: &Vec<char>, lo: usize, hi: usize, signed: bool, min: i128, max: i128) -> (r:
    Result<i128, IntErrorKind>)
    requires
        lo <= hi <= v@.len(),
        -0x8000_0000_0000_0000 <= min <= 0 <= max <= 0xffff_ffff_ffff_ffff,
    ensures
        match parse_int_spec(v@.subrange(lo as int, hi as int), signed, min as int, max as int) {
            Ok(x) => r == Ok::<i128, IntErrorKind>(x as i128),
            Err(e) => r == Err::<i128, IntErrorKind>(e),
        },
{
    let ghost s = v@.subrange(lo as int, hi as int);
    if lo == hi {
        return Err(IntErrorKind::Empty);
    }
    let first = v[lo];
    if hi - lo == 1 && (first == '+' || first == '-') {
        return Err(IntErrorKind::InvalidDigit);
    }
    let mut start = lo;
    let mut neg = false;
    if first == '+' {
        start = lo + 1;
    } else if first == '-' && signed {
        start = lo + 1;
        neg = true;
    }
    let ghost d = v@.subrange(start as int, hi as int);
    assert(start > lo ==> d == s.drop_first());
    assert(start == lo ==> d == s);
    assert(parse_int_spec(s, signed, min as int, max as int) == digits_value(d, neg, min as int, max as int));
    let mut acc: i128 = 0;
    let mut i = start;
    while i < hi
        invariant
            lo <= start <= i <= hi <= v@.len(),
            d == v@.subrange(start as int, hi as int),
            s == v@.subrange(lo as int, hi as int),
            parse_int_spec(s, signed, min as int, max as int) == digits_value(d, neg, min as int, max as int),
            -0x8000_0000_0000_0000 <= min <= 0 <= max <= 0xffff_ffff_ffff_ffff,
            digits_value(v@.subrange(start as int, i as int), neg, min as int, max as int) == Ok::<
                int,
                IntErrorKind,
            >(acc as int),
            min <= acc <= max,
        decreases hi - i,
    {
        let c = v[i];
        assert(v@.subrange(start as int, i + 1).drop_last() == v@.subrange(start as int, i as int));
        if !('0' <= c && c <= '9') {
            proof {
                assert(v@.subrange(start as int, i + 1) == d.take((i - start) as int + 1));
                lemma_digits_value_err_prefix(d, (i - start) as int + 1, neg, min as int, max as int);
            }
            return Err(IntErrorKind::InvalidDigit);
        }
        let dv = (c as u32 - '0' as u32) as i128;
        let n = if neg { acc * 10 - dv } else { acc * 10 + dv };
        if n > max {
            proof {
                assert(v@.subrange(start as int, i + 1) == d.take((i - start) as int + 1));
                lemma_digits_value_err_prefix(d, (i - start) as int + 1, neg, min as int, max as int);
            }
            return Err(IntErrorKind::PosOverflow);
        }
        if n < min {
            proof {
                assert(v@.subrange(start as int, i + 1) == d.take((i - start) as int + 1));
                lemma_digits_value_err_prefix(d, (i - start) as int + 1, neg, min as int, max as int);
            }
            return Err(IntErrorKind::NegOverflow);
        }
        acc = n;
        i = i + 1;
    }
    assert(v@.subrange(start as int, hi as int) == d);
    Ok(acc)
}

/// An error in a prefix of the digits is the error of the whole.
proof fn lemma_digits_value_err_prefix(d: Seq<char>, k: int, neg: bool, min: int, max: int)
    requires
        0 <= k <= d.len(),
        digits_value(d.take(k), neg, min, max) is Err,
    ensures
        digits_value(d, neg, min, max) == digits_value(d.take(k), neg, min, max),
    decreases d.len() - k,
{
    if k < d.len() {
        assert(d.take(k + 1).drop_last() == d.take(k));
        lemma_digits_value_err_prefix(d, k + 1, neg, min, max);
    } else {
        assert(d.take(k) == d);
    }
}


// ---------------------------------------------------------------------------
// Comparison
// ---------------------------------------------------------------------------

/// Whether `a` sorts before or equal to `b`, lexicographically by character (the order
/// that `str`'s `Ord` gives, as UTF-8 keeps the order of code points).
pub open spec fn seq_le(a: Seq<char>, b: Seq<char>) -> bool
    decreases a.len(),
{
    if a.len() == 0 {
        true
    } else if b.len() == 0 {
        false
    } else if (a[0] as u32) < (b[0] as u32) {
        true
    } else if (a[0] as u32) > (b[0] as u32) {
        false
    } else {
        seq_le(a.drop_first(), b.drop_first())
    }
}

/// Lexicographic `a <= b` on characters.
pub fn chars_le(a: &Vec<char>, b: &Vec<char>) -> (r: bool)
    ensures
        r == seq_le(a@, b@),
{
    let mut i: usize = 0;
    assert(a@.skip(0) == a@ && b@.skip(0) == b@);
    loop
        invariant
            i <= a@.len(),
            i <= b@.len(),
            seq_le(a@, b@) == seq_le(a@.skip(i as int), b@.skip(i as int)),
        decreases a@.len() - i,
    {
        if i == a.len() {
            return true;
        }
        if i == b.len() {
            return false;
        }
        let ca = a[i] as u32;
        let cb = b[i] as u32;
        if ca < cb {
            return true;
        }
        if ca > cb {
            return false;
        }
        assert(a@.skip(i as int).drop_first() == a@.skip(i + 1));
        assert(b@.skip(i as int).drop_first() == b@.skip(i + 1));
        i = i + 1;
    }
}

/// Whether two strings hold the same characters.
pub fn str_eq(a: &str, b: &str) -> (r: bool)
    ensures
        r == (a@ == b@),
{
    let va = chars_of(a);
    let vb = chars_of(b);
    if va.len() != vb.len() {
        return false;
    }
    let mut i: usize = 0;
    while i < va.len()
        invariant
            i <= va@.len() == vb@.len(),
            va@ == a@,
            vb@ == b@,
            forall|j: int| 0 <= j < i ==> va@[j] == vb@[j],
        decreases va@.len() - i,
    {
        if va[i] != vb[i] {
            return false;
        }
        i = i + 1;
    }
    assert(va@ =~= vb@);
    true
}

// ---------------------------------------------------------------------------
// Replacing
// ---------------------------------------------------------------------------

/// `s` with every occurrence of the non-empty `pat` replaced by `rep`, scanning left to right
/// (`str::replace`).
pub open spec fn replace_all(s: Seq<char>, pat: Seq<char>, rep: Seq<char>) -> Seq<char>
    decreases s.len(),
{
    if pat.len() == 0 || s.len() < pat.len() {
        s
    } else if s.take(pat.len() as int) == pat {
        rep + replace_all(s.skip(pat.len() as int), pat, rep)
    } else {
        seq![s[0]] + replace_all(s.drop_first(), pat, rep)
    }
}

/// Whether `p` occurs in `v` at position `i`.
fn occurs_at(v: &Vec<char>, i: usize, p: &Vec<char>) -> (r: bool)
    requires
        i <= v@.len(),
    ensures
        r == (i + p@.len() <= v@.len() && v@.subrange(i as int, i + p@.len()) == p@),
{
    let n = v.len();
    if n - i < p.len() {
        return false;
    }
    let mut k: usize = 0;
    while k < p.len()
        invariant
            n == v@.len(),
            i + p@.len() <= v@.len(),
            k <= p@.len(),
            forall|j: int| 0 <= j < k ==> v@[i + j] == p@[j],
        decreases p@.len() - k,
    {
        if v[i + k] != p[k] {
            assert(v@.subrange(i as int, i + p@.len())[k as int] != p@[k as int]);
            return false;
        }
        k = k + 1;
    }
    assert(v@.subrange(i as int, i + p@.len()) =~= p@);
    true
}

/// `s` with every occurrence of the non-empty `pat` replaced by `rep`.
pub fn replace_str(s: &str, pat: &str, rep: &str) -> (r: String)
    requires
        pat@.len() > 0,
    ensures
        r@ == replace_all(s@, pat@, rep@),
{
    let v = chars_of(s);
    let p = chars_of(pat);
    let mut out = String::new();
    let mut i: usize = 0;
    assert(v@.skip(0) == v@);
    while i < v.len()
        invariant
            v@ == s@,
            p@ == pat@,
            p@.len() > 0,
            i <= v@.len(),
            out@ + replace_all(v@.skip(i as int), p@, rep@) == replace_all(s@, pat@, rep@),
        decreases v@.len() - i,
    {
        let ghost rest = v@.skip(i as int);
        if occurs_at(&v, i, &p) {
            assert(rest.take(p@.len() as int) == v@.subrange(i as int, i + p@.len()));
            assert(rest.skip(p@.len() as int) == v@.skip(i + p@.len()));
            let ghost before = out@;
            push_str(&mut out, rep);
            assert(out@ + replace_all(v@.skip(i + p@.len()), p@, rep@) == before + replace_all(rest, p@, rep@));
            i = i + p.len();
        } else {
            proof {
                if rest.len() >= p@.len() {
                    assert(rest.take(p@.len() as int) == v@.subrange(i as int, i + p@.len()));
                }
            }
            assert(rest.drop_first() == v@.skip(i + 1));
            let ghost before = out@;
            push_char(&mut out, v[i]);
            assert(replace_all(rest, p@, rep@) == seq![v@[i as int]] + replace_all(v@.skip(i + 1), p@, rep@));
            assert(out@ + replace_all(v@.skip(i + 1), p@, rep@) == before + replace_all(rest, p@, rep@));
            i = i + 1;
        }
    }
    assert(v@.skip(i as int).len() == 0);
    assert(out@ + Seq::<char>::empty() == out@);
    out
}

} // verus!
