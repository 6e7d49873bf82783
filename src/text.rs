//! Character-level helpers shared by the parser, the decoders and the
//! command builders: conversions between `str`/`String` and `Vec<char>`,
//! text comparison, and decimal numbers.
use vstd::prelude::*;

verus! {

/// Relies on `str::chars`: yields the characters of `s` in order.
#[verifier::external_body]
pub(crate) fn chars_of(s: &str) -> (r: Vec<char>)
    ensures
        r@ == s@,
{
    s.chars().collect()
}

/// Relies on `String: FromIterator<&char>`: the string holds exactly these characters.
#[verifier::external_body]
pub(crate) fn string_of(cs: &[char]) -> (r: String)
    ensures
        r@ == cs@,
{
    cs.iter().collect()
}

/// The string made of the characters `cs[from..to]`.
pub(crate) fn string_of_range(cs: &Vec<char>, from: usize, to: usize) -> (r: String)
    requires
        from <= to <= cs@.len(),
    ensures
        r@ == cs@.subrange(from as int, to as int),
{
    let part = vstd::slice::slice_subrange(cs.as_slice(), from, to);
    string_of(part)
}

/// Whether the text of `a` is exactly the text of `b`.
pub fn text_eq(a: &String, b: &str) -> (r: bool)
    ensures
        r == (a@ == b@),
{
    let sa = a.as_str();
    let n = sa.unicode_len();
    let m = b.unicode_len();
    if n != m {
        return false;
    }
    let mut i: usize = 0;
    while i < n
        invariant
            n == a@.len(),
            m == b@.len(),
            n == m,
            sa@ == a@,
            i <= n,
            forall|j: int| 0 <= j < i ==> a@[j] == b@[j],
        decreases n - i,
    {
        if sa.get_char(i) != b.get_char(i) {
            return false;
        }
        i = i + 1;
    }
    assert(a@ =~= b@);
    true
}

pub open spec fn is_digit(c: char) -> bool {
    '0' <= c <= '9'
}

pub open spec fn digit_value(c: char) -> nat {
    (c as nat - '0' as nat) as nat
}

/// The number written by a run of decimal digits.
pub open spec fn decimal_value(ds: Seq<char>) -> nat
    decreases ds.len(),
{
    if ds.len() == 0 {
        0
    } else {
        decimal_value(ds.drop_last()) * 10 + digit_value(ds.last())
    }
}

pub open spec fn all_digits(ds: Seq<char>) -> bool {
    forall|i: int| 0 <= i < ds.len() ==> is_digit(#[trigger] ds[i])
}

/// What `str::parse::<u64>` gives for a text: an optional `+`, then one or
/// more decimal digits whose value fits in 64 bits.
pub open spec fn u64_of(s: Seq<char>) -> Option<u64> {
    let ds = if s.len() > 0 && s[0] == '+' {
        s.drop_first()
    } else {
        s
    };
    if ds.len() > 0 && all_digits(ds) && decimal_value(ds) <= u64::MAX {
        Some(decimal_value(ds) as u64)
    } else {
        None
    }
}

proof fn lemma_decimal_prefix_grows(ds: Seq<char>, j: int, k: int)
    requires
        0 <= j <= k <= ds.len(),
    ensures
        decimal_value(ds.subrange(0, j)) <= decimal_value(ds.subrange(0, k)),
    decreases k - j,
{
    if j < k {
        lemma_decimal_prefix_grows(ds, j, k - 1);
        assert(ds.subrange(0, k).drop_last() =~= ds.subrange(0, k - 1));
    }
}

/// The value of the decimal digits `cs[from..to]`, if they are all digits
/// and the value fits in 64 bits.
pub(crate) fn digits_value(cs: &Vec<char>, from: usize, to: usize) -> (r: Option<u64>)
    requires
        from <= to <= cs@.len(),
    ensures
        ({
            let ds = cs@.subrange(from as int, to as int);
            r == (if all_digits(ds) && decimal_value(ds) <= u64::MAX {
                Some(decimal_value(ds) as u64)
            } else {
                None
            })
        }),
{
    let ghost ds = cs@.subrange(from as int, to as int);
    let mut acc: u64 = 0;
    let mut i: usize = from;
    while i < to
        invariant
            from <= i <= to <= cs@.len(),
            ds == cs@.subrange(from as int, to as int),
            acc as nat == decimal_value(ds.subrange(0, i - from)),
            all_digits(ds.subrange(0, i - from)),
        decreases to - i,
    {
        let c = cs[i];
        proof {
            assert(ds.subrange(0, i - from + 1).drop_last() =~= ds.subrange(0, i - from));
            assert(ds[i - from] == c);
        }
        if !('0' <= c && c <= '9') {
            assert(!all_digits(ds)) by {
                assert(!is_digit(ds[i - from]));
            }
            return None;
        }
        let d = (c as u32 - '0' as u32) as u64;
        if acc > (u64::MAX - d) / 10 {
            proof {
                assert(acc * 10 + d > u64::MAX) by (nonlinear_arith)
                    requires
                        acc > (u64::MAX - d) / 10,
                        d <= 9,
                ;
                lemma_decimal_prefix_grows(ds, i - from + 1, ds.len() as int);
                assert(ds.subrange(0, ds.len() as int) =~= ds);
            }
            return None;
        }
        assert(acc * 10 + d <= u64::MAX) by (nonlinear_arith)
            requires
                acc <= (u64::MAX - d) / 10,
                d <= 9,
        ;
        acc = acc * 10 + d;
        i = i + 1;
        proof {
            assert forall|j: int| 0 <= j < i - from implies is_digit(
                #[trigger] ds.subrange(0, i - from)[j],
            ) by {
                if j < i - from - 1 {
                    assert(ds.subrange(0, i - from)[j] == ds.subrange(0, i - from - 1)[j]);
                }
            }
        }
    }
    assert(ds.subrange(0, to - from) =~= ds);
    Some(acc)
}

/// Reads a text as `str::parse::<u64>` does.
pub fn parse_u64(s: &String) -> (r: Option<u64>)
    ensures
        r == u64_of(s@),
{
    let cs = chars_of(s.as_str());
    let n = cs.len();
    let start: usize = if n > 0 && cs[0] == '+' {
        1
    } else {
        0
    };
    if start == n {
        return None;
    }
    let r = digits_value(&cs, start, n);
    proof {
        if start == 1 {
            assert(cs@.subrange(1, n as int) =~= s@.drop_first());
        } else {
            assert(cs@.subrange(0, n as int) =~= s@);
        }
    }
    r
}

pub open spec fn digit_char(d: nat) -> char {
    if d == 0 {
        '0'
    } else if d == 1 {
        '1'
    } else if d == 2 {
        '2'
    } else if d == 3 {
        '3'
    } else if d == 4 {
        '4'
    } else if d == 5 {
        '5'
    } else if d == 6 {
        '6'
    } else if d == 7 {
        '7'
    } else if d == 8 {
        '8'
    } else {
        '9'
    }
}

fn digit_to_char(d: u64) -> (c: char)
    requires
        d < 10,
    ensures
        c == digit_char(d as nat),
{
    if d == 0 {
        '0'
    } else if d == 1 {
        '1'
    } else if d == 2 {
        '2'
    } else if d == 3 {
        '3'
    } else if d == 4 {
        '4'
    } else if d == 5 {
        '5'
    } else if d == 6 {
        '6'
    } else if d == 7 {
        '7'
    } else if d == 8 {
        '8'
    } else {
        '9'
    }
}

/// The decimal text of a number, without leading zeros.
pub open spec fn decimal_text(n: nat) -> Seq<char>
    decreases n,
{
    if n < 10 {
        seq![digit_char(n)]
    } else {
        decimal_text(n / 10).push(digit_char(n % 10))
    }
}

fn decimal_chars(n: u64) -> (r: Vec<char>)
    ensures
        r@ == decimal_text(n as nat),
    decreases n,
{
    let c = digit_to_char(n % 10);
    if n < 10 {
        let mut v: Vec<char> = Vec::new();
        v.push(c);
        v
    } else {
        let mut v = decimal_chars(n / 10);
        v.push(c);
        v
    }
}

/// The decimal text of `n`, as `u64::to_string` writes it.
pub fn decimal_string(n: u64) -> (r: String)
    ensures
        r@ == decimal_text(n as nat),
{
    let v = decimal_chars(n);
    string_of(v.as_slice())
}

} // verus!
