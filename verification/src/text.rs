//! Character-level text helpers with exact specifications: Unicode white space,
//! trimming, equality, lexicographic order, decimal formatting and parsing.

use vstd::prelude::*;

verus! {

/// The Unicode `White_Space` property (the set `char::is_whitespace` tests).
pub open spec fn is_white_space(c: char) -> bool {
    let u = c as u32;
    ||| 0x09 <= u <= 0x0D
    ||| u == 0x20
    ||| u == 0x85
    ||| u == 0xA0
    ||| u == 0x1680
    ||| 0x2000 <= u <= 0x200A
    ||| u == 0x2028
    ||| u == 0x2029
    ||| u == 0x202F
    ||| u == 0x205F
    ||| u == 0x3000
}

/// Tests the Unicode `White_Space` property.
pub fn is_white_space_char(c: char) -> (r: bool)
    ensures
        r == is_white_space(c),
{
    let u = c as u32;
    (0x09 <= u && u <= 0x0D) || u == 0x20 || u == 0x85 || u == 0xA0 || u == 0x1680 || (0x2000
        <= u && u <= 0x200A) || u == 0x2028 || u == 0x2029 || u == 0x202F || u == 0x205F || u
        == 0x3000
}

/// `s` without its leading white space.
pub open spec fn trim_start_spec(s: Seq<char>) -> Seq<char>
    decreases s.len(),
{
    if s.len() > 0 && is_white_space(s[0]) {
        trim_start_spec(s.drop_first())
    } else {
        s
    }
}

/// `s` without its trailing white space.
pub open spec fn trim_end_spec(s: Seq<char>) -> Seq<char>
    decreases s.len(),
{
    if s.len() > 0 && is_white_space(s.last()) {
        trim_end_spec(s.drop_last())
    } else {
        s
    }
}

/// `s` without leading and trailing white space (what `str::trim` returns).
pub open spec fn trim_spec(s: Seq<char>) -> Seq<char> {
    trim_end_spec(trim_start_spec(s))
}

/// Removes leading and trailing white space.
pub fn trim_str<'a>(s: &'a str) -> (r: &'a str)
    ensures
        r@ == trim_spec(s@),
{
    let n = s.unicode_len();
    let mut start: usize = 0;
    assert(s@.subrange(0, n as int) =~= s@);
    while start < n && is_white_space_char(s.get_char(start))
        invariant
            n == s@.len(),
            start <= n,
            trim_start_spec(s@) == trim_start_spec(s@.subrange(start as int, n as int)),
        decreases n - start,
    {
        assert(s@.subrange(start as int, n as int).drop_first() =~= s@.subrange(
            start + 1,
            n as int,
        ));
        start = start + 1;
    }
    assert(trim_start_spec(s@) == s@.subrange(start as int, n as int));
    let mut end: usize = n;
    while end > start && is_white_space_char(s.get_char(end - 1))
        invariant
            n == s@.len(),
            start <= end <= n,
            trim_start_spec(s@) == s@.subrange(start as int, n as int),
            trim_spec(s@) == trim_end_spec(s@.subrange(start as int, end as int)),
        decreases end - start,
    {
        assert(s@.subrange(start as int, end as int).drop_last() =~= s@.subrange(
            start as int,
            end - 1,
        ));
        end = end - 1;
    }
    s.substring_char(start, end)
}

/// Compares two strings for equality, character by character.
pub fn str_eq(a: &str, b: &str) -> (r: bool)
    ensures
        r == (a@ == b@),
{
    let n = a.unicode_len();
    if n != b.unicode_len() {
        return false;
    }
    let mut i: usize = 0;
    while i < n
        invariant
            n == a@.len(),
            n == b@.len(),
            i <= n,
            a@.subrange(0, i as int) == b@.subrange(0, i as int),
        decreases n - i,
    {
        if a.get_char(i) != b.get_char(i) {
            return false;
        }
        assert(a@.subrange(0, i + 1) =~= a@.subrange(0, i as int).push(a@[i as int]));
        assert(b@.subrange(0, i + 1) =~= b@.subrange(0, i as int).push(b@[i as int]));
        i = i + 1;
    }
    assert(a@ =~= a@.subrange(0, n as int));
    assert(b@ =~= b@.subrange(0, n as int));
    true
}


/// Lexicographic order on character sequences, characters compared by code point
/// (the order `str`'s `Ord` gives, since UTF-8 keeps code-point order).
pub open spec fn seq_lex_le(a: Seq<char>, b: Seq<char>) -> bool
    decreases a.len(),
{
    if a.len() == 0 {
        true
    } else if b.len() == 0 {
        false
    } else if a[0] != b[0] {
        a[0] < b[0]
    } else {
        seq_lex_le(a.drop_first(), b.drop_first())
    }
}

/// The lexicographic order is total.
pub proof fn lemma_seq_lex_le_total(a: Seq<char>, b: Seq<char>)
    ensures
        seq_lex_le(a, b) || seq_lex_le(b, a),
    decreases a.len(),
{
    if a.len() > 0 && b.len() > 0 {
        if a[0] == b[0] {
            lemma_seq_lex_le_total(a.drop_first(), b.drop_first());
        }
    }
}

/// The lexicographic order is transitive.
pub proof fn lemma_seq_lex_le_trans(a: Seq<char>, b: Seq<char>, c: Seq<char>)
    requires
        seq_lex_le(a, b),
        seq_lex_le(b, c),
    ensures
        seq_lex_le(a, c),
    decreases a.len(),
{
    if a.len() > 0 && b.len() > 0 && c.len() > 0 && a[0] == b[0] && b[0] == c[0] {
        lemma_seq_lex_le_trans(a.drop_first(), b.drop_first(), c.drop_first());
    }
}

/// The lexicographic order is antisymmetric.
pub proof fn lemma_seq_lex_le_antisym(a: Seq<char>, b: Seq<char>)
    requires
        seq_lex_le(a, b),
        seq_lex_le(b, a),
    ensures
        a == b,
    decreases a.len(),
{
    if a.len() > 0 && b.len() > 0 {
        lemma_seq_lex_le_antisym(a.drop_first(), b.drop_first());
        assert(a =~= seq![a[0]] + a.drop_first());
        assert(b =~= seq![b[0]] + b.drop_first());
    }
}

/// Tests `a <= b` in the lexicographic order of code points.
pub fn str_lex_le(a: &str, b: &str) -> (r: bool)
    ensures
        r == seq_lex_le(a@, b@),
{
    let n = a.unicode_len();
    let m = b.unicode_len();
    let mut i: usize = 0;
    assert(a@.skip(0) =~= a@);
    assert(b@.skip(0) =~= b@);
    while i < n && i < m
        invariant
            n == a@.len(),
            m == b@.len(),
            i <= n,
            i <= m,
            seq_lex_le(a@, b@) == seq_lex_le(a@.skip(i as int), b@.skip(i as int)),
        decreases n - i,
    {
        let x = a.get_char(i);
        let y = b.get_char(i);
        if x != y {
            return x < y;
        }
        assert(a@.skip(i as int).drop_first() =~= a@.skip(i + 1));
        assert(b@.skip(i as int).drop_first() =~= b@.skip(i + 1));
        i = i + 1;
    }
    i == n
}

/// The character of the decimal digit `d` (0 to 9).
pub open spec fn digit_char(d: int) -> char {
    (d + 48) as char
}

/// The decimal representation of `n`, without sign or leading zeros.
pub open spec fn decimal_spec(n: nat) -> Seq<char>
    decreases n,
{
    if n < 10 {
        seq![digit_char(n as int)]
    } else {
        decimal_spec(n / 10).push(digit_char((n % 10) as int))
    }
}

/// The decimal representation of a signed integer: a `-` before negative values.
pub open spec fn signed_decimal_spec(v: int) -> Seq<char> {
    if v < 0 {
        seq!['-'] + decimal_spec((-v) as nat)
    } else {
        decimal_spec(v as nat)
    }
}

/// `n` in decimal, left-padded with `0` to at least `width` characters.
pub open spec fn zero_padded_spec(n: nat, width: nat) -> Seq<char> {
    let digits = decimal_spec(n);
    if digits.len() < width {
        Seq::new((width - digits.len()) as nat, |i: int| '0') + digits
    } else {
        digits
    }
}

/// The one-character string of a decimal digit.
fn digit_str(d: u64) -> (r: &'static str)
    requires
        d < 10,
    ensures
        r@ == seq![digit_char(d as int)],
{
    proof {
        reveal_strlit("0");
        reveal_strlit("1");
        reveal_strlit("2");
        reveal_strlit("3");
        reveal_strlit("4");
        reveal_strlit("5");
        reveal_strlit("6");
        reveal_strlit("7");
        reveal_strlit("8");
        reveal_strlit("9");
    }
    let r = match d {
        0 => "0",
        1 => "1",
        2 => "2",
        3 => "3",
        4 => "4",
        5 => "5",
        6 => "6",
        7 => "7",
        8 => "8",
        _ => "9",
    };
    assert(r@ =~= seq![digit_char(d as int)]);
    r
}

/// Appends `n` in decimal.
pub fn push_decimal(s: &mut String, n: u64)
    ensures
        final(s)@ == old(s)@ + decimal_spec(n as nat),
    decreases n,
{
    if n >= 10 {
        push_decimal(s, n / 10);
    }
    s.append(digit_str(n % 10));
    assert(decimal_spec(n as nat) =~= (if n >= 10 {
        decimal_spec((n / 10) as nat)
    } else {
        Seq::empty()
    }) + seq![digit_char((n % 10) as int)]);
}

/// The number of decimal digits of `n`.
pub fn decimal_len(n: u64) -> (r: usize)
    ensures
        r == decimal_spec(n as nat).len(),
        1 <= r <= 20,
    decreases n,
{
    if n >= 10 {
        let r = decimal_len(n / 10);
        proof {
            lemma_decimal_len_bound(n as nat);
        }
        r + 1
    } else {
        1
    }
}

proof fn lemma_decimal_len_bound(n: nat)
    requires
        n <= u64::MAX,
    ensures
        1 <= decimal_spec(n).len() <= 20,
{
    reveal_with_fuel(pow10, 21);
    assert(pow10(20) == 100000000000000000000nat);
    lemma_decimal_len_pow(n, 20);
}

/// A number below `10^k` has at most `k` decimal digits.
pub proof fn lemma_decimal_len_pow(n: nat, k: nat)
    requires
        k >= 1,
        n < pow10(k),
    ensures
        1 <= decimal_spec(n).len() <= k,
    decreases k,
{
    if n >= 10 {
        assert(pow10(k) == 10 * pow10((k - 1) as nat));
        assert(n / 10 < pow10((k - 1) as nat)) by (nonlinear_arith)
            requires
                n < 10 * pow10((k - 1) as nat),
        ;
        if k == 1 {
            assert(pow10(0) == 1);
        } else {
            lemma_decimal_len_pow(n / 10, (k - 1) as nat);
        }
    }
}

/// Ten to the power `k`.
pub open spec fn pow10(k: nat) -> nat
    decreases k,
{
    if k == 0 {
        1
    } else {
        10 * pow10((k - 1) as nat)
    }
}

/// Appends a signed integer in decimal (`-` before negative values).
pub fn push_signed_decimal(s: &mut String, v: i64)
    ensures
        final(s)@ == old(s)@ + signed_decimal_spec(v as int),
{
    if v < 0 {
        proof {
            reveal_strlit("-");
        }
        s.append("-");
        let m: u64 = ((-(v + 1)) as u64) + 1;
        assert(m == -(v as int));
        push_decimal(s, m);
    } else {
        push_decimal(s, v as u64);
    }
}

/// Appends `n` in decimal, left-padded with `0` to at least `width` characters.
pub fn push_zero_padded(s: &mut String, n: u64, width: usize)
    ensures
        final(s)@ == old(s)@ + zero_padded_spec(n as nat, width as nat),
{
    let len = decimal_len(n);
    let ghost start = s@;
    if len < width {
        let mut k: usize = 0;
        proof {
            reveal_strlit("0");
        }
        while k < width - len
            invariant
                k <= width - len,
                len < width,
                s@ == start + Seq::new(k as nat, |i: int| '0'),
            decreases width - len - k,
        {
            proof {
                reveal_strlit("0");
            }
            s.append("0");
            assert(start + Seq::new((k + 1) as nat, |i: int| '0') =~= start + Seq::new(
                k as nat,
                |i: int| '0',
            ) + seq!['0']);
            k = k + 1;
        }
    }
    let ghost mid = s@;
    push_decimal(s, n);
    assert(s@ =~= start + zero_padded_spec(n as nat, width as nat));
}

/// Whether every character of `s` is an ASCII decimal digit.
pub open spec fn all_ascii_digits(s: Seq<char>) -> bool {
    forall|i: int| 0 <= i < s.len() ==> '0' <= #[trigger] s[i] <= '9'
}

/// The value of a sequence of decimal digits, most significant first.
pub open spec fn digits_value(s: Seq<char>) -> nat
    decreases s.len(),
{
    if s.len() == 0 {
        0
    } else {
        digits_value(s.drop_last()) * 10 + ((s.last() as u32) - 48) as nat
    }
}

/// What `u32::from_str` accepts: an optional `+`, then one or more ASCII digits
/// whose value fits in a `u32`.
pub open spec fn parse_u32_spec(s: Seq<char>) -> Option<u32> {
    let digits = if s.len() > 0 && s[0] == '+' {
        s.drop_first()
    } else {
        s
    };
    if digits.len() == 0 || !all_ascii_digits(digits) || digits_value(digits) > u32::MAX {
        None
    } else {
        Some(digits_value(digits) as u32)
    }
}

proof fn lemma_digits_value_push(s: Seq<char>, c: char)
    requires
        '0' <= c <= '9',
    ensures
        digits_value(s.push(c)) == digits_value(s) * 10 + ((c as u32) - 48),
        digits_value(s.push(c)) >= digits_value(s),
{
    assert(s.push(c).drop_last() =~= s);
}

/// Parses a decimal `u32` the way `u32::from_str` does.
pub fn parse_u32(s: &str) -> (r: Option<u32>)
    ensures
        r == parse_u32_spec(s@),
{
    let n = s.unicode_len();
    let mut i: usize = 0;
    if n > 0 && s.get_char(0) == '+' {
        i = 1;
    }
    let ghost digits = if s@.len() > 0 && s@[0] == '+' {
        s@.drop_first()
    } else {
        s@
    };
    assert(digits =~= s@.skip(i as int));
    if i == n {
        return None;
    }
    let first = i;
    let mut value: u64 = 0;
    let mut overflowed = false;
    assert(s@.subrange(first as int, first as int) =~= Seq::<char>::empty());
    while i < n
        invariant
            n == s@.len(),
            first <= i <= n,
            digits =~= s@.skip(first as int),
            digits == (if s@.len() > 0 && s@[0] == '+' {
                s@.drop_first()
            } else {
                s@
            }),
            all_ascii_digits(s@.subrange(first as int, i as int)),
            !overflowed ==> value == digits_value(s@.subrange(first as int, i as int)),
            !overflowed ==> value <= u32::MAX,
            overflowed ==> digits_value(s@.subrange(first as int, i as int)) > u32::MAX,
        decreases n - i,
    {
        let c = s.get_char(i);
        if c < '0' || c > '9' {
            assert(digits[i - first] == c);
            assert(!('0' <= digits[i - first] <= '9'));
            assert(!all_ascii_digits(digits));
            return None;
        }
        let ghost prefix = s@.subrange(first as int, i as int);
        assert(s@.subrange(first as int, i + 1) =~= prefix.push(c));
        proof {
            lemma_digits_value_push(prefix, c);
        }
        if !overflowed {
            let next = value * 10 + ((c as u32) - 48) as u64;
            if next > 0xFFFF_FFFF {
                overflowed = true;
            } else {
                value = next;
            }
        }
        i = i + 1;
    }
    assert(s@.subrange(first as int, n as int) =~= digits);
    if overflowed {
        None
    } else {
        Some(value as u32)
    }
}

/// The decimal representation of a number is read back as that number.
pub proof fn lemma_decimal_digits_value(n: nat)
    ensures
        all_ascii_digits(decimal_spec(n)),
        digits_value(decimal_spec(n)) == n,
        decimal_spec(n).len() > 0,
        decimal_spec(n)[0] != '+',
        decimal_spec(n)[0] != '-',
    decreases n,
{
    let c = digit_char((n % 10) as int);
    assert((c as u32) - 48 == n % 10);
    if n < 10 {
        assert(seq![digit_char(n as int)].drop_last() =~= Seq::<char>::empty());
        assert(digits_value(decimal_spec(n)) == digits_value(Seq::<char>::empty()) * 10 + ((c as u32) - 48) as nat);
    } else {
        lemma_decimal_digits_value(n / 10);
        let d = decimal_spec(n / 10);
        assert(decimal_spec(n).drop_last() =~= d);
        assert(decimal_spec(n)[0] == d[0]);
        assert(digits_value(decimal_spec(n)) == (n / 10) * 10 + n % 10);
    }
}

/// Parsing the decimal representation of a `u32` gives it back.
pub proof fn lemma_parse_u32_decimal(n: u32)
    ensures
        parse_u32_spec(decimal_spec(n as nat)) == Some(n),
{
    lemma_decimal_digits_value(n as nat);
}


proof fn lemma_zeros_value(k: nat)
    ensures
        all_ascii_digits(Seq::new(k, |i: int| '0')),
        digits_value(Seq::new(k, |i: int| '0')) == 0,
    decreases k,
{
    if k > 0 {
        lemma_zeros_value((k - 1) as nat);
        assert(Seq::new(k, |i: int| '0').drop_last() =~= Seq::new((k - 1) as nat, |i: int| '0'));
    }
}

proof fn lemma_digits_value_leading_zeros(k: nat, d: Seq<char>)
    ensures
        digits_value(Seq::new(k, |i: int| '0') + d) == digits_value(d),
    decreases d.len(),
{
    let z = Seq::new(k, |i: int| '0');
    if d.len() == 0 {
        assert(z + d =~= z);
        lemma_zeros_value(k);
    } else {
        lemma_digits_value_leading_zeros(k, d.drop_last());
        assert((z + d).drop_last() =~= z + d.drop_last());
        assert((z + d).last() == d.last());
    }
}

/// A number below `10^width`, padded to `width` digits, has exactly `width`
/// characters, all digits, and reads back as itself.
pub proof fn lemma_zero_padded(n: nat, width: nat)
    requires
        1 <= width,
        n < pow10(width),
    ensures
        zero_padded_spec(n, width).len() == width,
        all_ascii_digits(zero_padded_spec(n, width)),
        digits_value(zero_padded_spec(n, width)) == n,
{
    lemma_decimal_len_pow(n, width);
    lemma_decimal_digits_value(n);
    let d = decimal_spec(n);
    if d.len() < width {
        let k = (width - d.len()) as nat;
        lemma_digits_value_leading_zeros(k, d);
        lemma_zeros_value(k);
        let z = Seq::new(k, |i: int| '0');
        assert forall|i: int| 0 <= i < (z + d).len() implies '0' <= #[trigger] (z + d)[i] <= '9' by {
            if i >= k {
                assert((z + d)[i] == d[i - k]);
            } else {
                assert((z + d)[i] == z[i]);
            }
        }
    }
}

} // verus!
