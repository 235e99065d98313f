//! Decimal digits and unsigned decimal numerals: formatting with and
//! without zero padding, and parsing back.

use vstd::prelude::*;

verus! {

/// The decimal digit character for `d` (meaningful for `0 <= d <= 9`).
pub open spec fn digit_char(d: int) -> char {
    if d == 0 {
        '0'
    } else if d == 1 {
        '1'
    } else if d == 2 {
        '2'
    } else if d == 3 {
        '3'
    } else if d == 4 {
        '4'
    } else if d == 5 {
        '5'
    } else if d == 6 {
        '6'
    } else if d == 7 {
        '7'
    } else if d == 8 {
        '8'
    } else {
        '9'
    }
}

pub open spec fn is_digit_char(c: char) -> bool {
    c == '0' || c == '1' || c == '2' || c == '3' || c == '4' || c == '5' || c == '6' || c == '7'
        || c == '8' || c == '9'
}

/// The value of a decimal digit character (meaningful when `is_digit_char(c)`).
pub open spec fn digit_val(c: char) -> int {
    if c == '0' {
        0
    } else if c == '1' {
        1
    } else if c == '2' {
        2
    } else if c == '3' {
        3
    } else if c == '4' {
        4
    } else if c == '5' {
        5
    } else if c == '6' {
        6
    } else if c == '7' {
        7
    } else if c == '8' {
        8
    } else {
        9
    }
}

pub fn digit_str(d: u32) -> (s: &'static str)
    requires
        d < 10,
    ensures
        s@ =~= seq![digit_char(d as int)],
{
    let s: &'static str = match d {
        0 => "0",
        1 => "1",
        2 => "2",
        3 => "3",
        4 => "4",
        5 => "5",
        6 => "6",
        7 => "7",
        8 => "8",
        _ => "9",
    };
    proof {
        reveal_strlit("0");
        reveal_strlit("1");
        reveal_strlit("2");
        reveal_strlit("3");
        reveal_strlit("4");
        reveal_strlit("5");
        reveal_strlit("6");
        reveal_strlit("7");
        reveal_strlit("8");
        reveal_strlit("9");
    }
    s
}

/// A number rendered as exactly two decimal digits (its last two).
pub open spec fn spec_2digits(n: int) -> Seq<char> {
    seq![digit_char(n / 10 % 10), digit_char(n % 10)]
}

/// A number rendered as exactly four decimal digits (its last four).
pub open spec fn spec_4digits(n: int) -> Seq<char> {
    seq![
        digit_char(n / 1000 % 10),
        digit_char(n / 100 % 10),
        digit_char(n / 10 % 10),
        digit_char(n % 10),
    ]
}

pub fn two_digits(n: u32) -> (s: String)
    ensures
        s@ =~= spec_2digits(n as int),
{
    let mut s = String::new();
    s.append(digit_str(n / 10 % 10));
    s.append(digit_str(n % 10));
    s
}

pub fn four_digits(n: u32) -> (s: String)
    ensures
        s@ =~= spec_4digits(n as int),
{
    let mut s = String::new();
    s.append(digit_str(n / 1000 % 10));
    s.append(digit_str(n / 100 % 10));
    s.append(digit_str(n / 10 % 10));
    s.append(digit_str(n % 10));
    s
}

/// A number rendered as an unpadded decimal numeral.
pub open spec fn spec_u32_digits(n: int) -> Seq<char>
    decreases n,
{
    if n < 10 {
        seq![digit_char(n)]
    } else {
        spec_u32_digits(n / 10) + seq![digit_char(n % 10)]
    }
}

/// The numeric value of a sequence of decimal digit characters.
pub open spec fn digits_val(s: Seq<char>) -> int
    decreases s.len(),
{
    if s.len() == 0 {
        0
    } else {
        digits_val(s.drop_last()) * 10 + digit_val(s.last())
    }
}

pub open spec fn all_digits(s: Seq<char>) -> bool {
    forall|i: int| 0 <= i < s.len() ==> is_digit_char(s[i])
}

/// A numeral accepted as a `u32`: an optional leading `+`, then one or
/// more decimal digits whose value fits in 32 bits.
pub open spec fn spec_parse_u32(s: Seq<char>) -> Option<u32> {
    let body = if s.len() > 0 && s[0] == '+' {
        s.drop_first()
    } else {
        s
    };
    if body.len() > 0 && all_digits(body) && digits_val(body) <= u32::MAX {
        Some(digits_val(body) as u32)
    } else {
        None
    }
}

pub proof fn lemma_digits_val_nonneg(s: Seq<char>)
    ensures
        digits_val(s) >= 0,
    decreases s.len(),
{
    if s.len() > 0 {
        lemma_digits_val_nonneg(s.drop_last());
    }
}

/// Reading more digits never decreases the value.
pub proof fn lemma_digits_val_prefix_le(s: Seq<char>, i: int, j: int)
    requires
        0 <= i <= j <= s.len(),
    ensures
        digits_val(s.take(i)) <= digits_val(s.take(j)),
    decreases j - i,
{
    if i < j {
        lemma_digits_val_prefix_le(s, i, j - 1);
        let p = s.take(j);
        assert(p.drop_last() =~= s.take(j - 1));
        lemma_digits_val_nonneg(s.take(j - 1));
    }
}

pub proof fn lemma_u32_digits_props(n: int)
    requires
        0 <= n,
    ensures
        all_digits(spec_u32_digits(n)),
        digits_val(spec_u32_digits(n)) == n,
        spec_u32_digits(n).len() >= 1,
        is_digit_char(spec_u32_digits(n)[0]),
    decreases n,
{
    if n < 10 {
        let s = spec_u32_digits(n);
        assert(s.drop_last() =~= Seq::<char>::empty());
        assert(digits_val(Seq::<char>::empty()) == 0);
        assert(digit_val(digit_char(n)) == n);
    } else {
        lemma_u32_digits_props(n / 10);
        let s = spec_u32_digits(n);
        assert(s.drop_last() =~= spec_u32_digits(n / 10));
        assert(digit_val(digit_char(n % 10)) == n % 10);
    }
}

/// A digit character is none of the structural characters of the format.
pub proof fn lemma_digit_char_plain(c: char)
    requires
        is_digit_char(c),
    ensures
        c != ':' && c != '\r' && c != '\n' && c != '+',
{
}

/// Parsing reads back exactly the numeral that formatting produced.
pub proof fn lemma_parse_u32_of_digits(n: u32)
    ensures
        spec_parse_u32(spec_u32_digits(n as int)) == Some(n),
{
    lemma_u32_digits_props(n as int);
    let s = spec_u32_digits(n as int);
    lemma_digit_char_plain(s[0]);
}

fn digit_of(c: char) -> (r: Option<u32>)
    ensures
        match r {
            Some(d) => is_digit_char(c) && d == digit_val(c) && d < 10,
            None => !is_digit_char(c),
        },
{
    if c == '0' {
        Some(0)
    } else if c == '1' {
        Some(1)
    } else if c == '2' {
        Some(2)
    } else if c == '3' {
        Some(3)
    } else if c == '4' {
        Some(4)
    } else if c == '5' {
        Some(5)
    } else if c == '6' {
        Some(6)
    } else if c == '7' {
        Some(7)
    } else if c == '8' {
        Some(8)
    } else if c == '9' {
        Some(9)
    } else {
        None
    }
}

/// Parses an unsigned 32-bit decimal numeral (optional leading `+`).
pub fn parse_u32(s: &str) -> (r: Option<u32>)
    ensures
        r == spec_parse_u32(s@),
{
    let n = s.unicode_len();
    let start: usize = if n > 0 && s.get_char(0) == '+' {
        1
    } else {
        0
    };
    let ghost body = if s@.len() > 0 && s@[0] == '+' {
        s@.drop_first()
    } else {
        s@
    };
    proof {
        assert(body.len() == n - start);
        assert(forall|j: int| 0 <= j < body.len() ==> body[j] == s@[j + start]);
    }
    if n == start {
        return None;
    }
    let mut acc: u64 = 0;
    let mut i: usize = start;
    while i < n
        invariant
            start <= i <= n,
            n == s@.len(),
            start <= 1,
            body == (if s@.len() > 0 && s@[0] == '+' {
                s@.drop_first()
            } else {
                s@
            }),
            body.len() == n - start,
            forall|j: int| 0 <= j < body.len() ==> body[j] == s@[j + start],
            all_digits(body.take(i - start)),
            acc == digits_val(body.take(i - start)),
            acc <= u32::MAX,
        decreases n - i,
    {
        let c = s.get_char(i);
        let d = match digit_of(c) {
            Some(d) => d,
            None => {
                proof {
                    assert(body[i - start] == c);
                    assert(!is_digit_char(body[i - start]));
                    assert(!all_digits(body));
                }
                return None;
            },
        };
        let next: u64 = acc * 10 + d as u64;
        proof {
            let pre = body.take(i - start);
            let ext = body.take(i - start + 1);
            assert(ext.drop_last() =~= pre);
            assert(ext.last() == c);
            assert(digits_val(ext) == next);
        }
        if next > u32::MAX as u64 {
            proof {
                lemma_digits_val_prefix_le(body, i - start + 1, body.len() as int);
                assert(body.take(body.len() as int) =~= body);
                assert(digits_val(body) > u32::MAX);
            }
            return None;
        }
        acc = next;
        i += 1;
    }
    proof {
        assert(body.take(i - start) =~= body);
    }
    Some(acc as u32)
}

/// A sequence of digit values, read in reverse, as digit characters.
spec fn rev_chars(ds: Seq<u32>) -> Seq<char> {
    Seq::new(ds.len(), |i: int| digit_char(ds[ds.len() - 1 - i] as int))
}

/// Formats a number as an unpadded decimal numeral.
pub fn u32_string(n: u32) -> (s: String)
    ensures
        s@ == spec_u32_digits(n as int),
{
    let mut m: u32 = n;
    let mut ds: Vec<u32> = Vec::new();
    proof {
        assert(spec_u32_digits(n as int) =~= spec_u32_digits(n as int) + rev_chars(ds@));
    }
    while m >= 10
        invariant
            spec_u32_digits(n as int) == spec_u32_digits(m as int) + rev_chars(ds@),
            forall|j: int| 0 <= j < ds@.len() ==> ds@[j] < 10,
        decreases m,
    {
        let d: u32 = m % 10;
        proof {
            let old_ds = ds@;
            assert(rev_chars(old_ds.push(d)) =~= seq![digit_char(d as int)] + rev_chars(old_ds));
            assert(spec_u32_digits(m as int) == spec_u32_digits(m as int / 10) + seq![
                digit_char(m as int % 10),
            ]);
            assert(spec_u32_digits(m as int / 10) + seq![digit_char(m as int % 10)] + rev_chars(
                old_ds,
            ) =~= spec_u32_digits(m as int / 10) + rev_chars(old_ds.push(d)));
        }
        ds.push(d);
        m = m / 10;
    }
    proof {
        let old_ds = ds@;
        assert(rev_chars(old_ds.push(m)) =~= seq![digit_char(m as int)] + rev_chars(old_ds));
        assert(spec_u32_digits(m as int) =~= seq![digit_char(m as int)]);
        assert(spec_u32_digits(n as int) =~= rev_chars(old_ds.push(m)));
    }
    ds.push(m);
    let k = ds.len();
    let mut s = String::new();
    let mut i: usize = 0;
    while i < k
        invariant
            0 <= i <= k,
            k == ds@.len(),
            forall|j: int| 0 <= j < ds@.len() ==> ds@[j] < 10,
            spec_u32_digits(n as int) == rev_chars(ds@),
            s@ == rev_chars(ds@).take(i as int),
        decreases k - i,
    {
        s.append(digit_str(ds[k - 1 - i]));
        proof {
            assert(rev_chars(ds@).take(i + 1) =~= rev_chars(ds@).take(i as int) + seq![
                rev_chars(ds@)[i as int],
            ]);
        }
        i += 1;
    }
    proof {
        assert(rev_chars(ds@).take(k as int) =~= rev_chars(ds@));
    }
    s
}

} // verus!
