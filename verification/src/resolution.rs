//! The `Resolution` value type: an immutable width×height pair whose
//! canonical text form `"{width}x{height}"` serves both as the URL
//! substitution token and as the output file name stem.

use vstd::prelude::*;

verus! {

/// One requested image variant: a width×height pixel pair.
#[derive(Clone, Copy, PartialEq, Eq, Structural, Debug)]
pub struct Resolution {
    pub width: u16,
    pub height: u16,
}

/// The character standing for the decimal digit `d` (10 or more gives a
/// placeholder that never occurs in a rendered number).
pub open spec fn digit_char(d: nat) -> char {
    if d == 0 {
        '0'
    } else if d == 1 {
        '1'
    } else if d == 2 {
        '2'
    } else if d == 3 {
        '3'
    } else if d == 4 {
        '4'
    } else if d == 5 {
        '5'
    } else if d == 6 {
        '6'
    } else if d == 7 {
        '7'
    } else if d == 8 {
        '8'
    } else {
        '9'
    }
}

/// The numeric value of a decimal digit character; 10 marks a non-digit.
pub open spec fn digit_val(c: char) -> nat {
    if c == '0' {
        0
    } else if c == '1' {
        1
    } else if c == '2' {
        2
    } else if c == '3' {
        3
    } else if c == '4' {
        4
    } else if c == '5' {
        5
    } else if c == '6' {
        6
    } else if c == '7' {
        7
    } else if c == '8' {
        8
    } else if c == '9' {
        9
    } else {
        10
    }
}

pub open spec fn is_digit(c: char) -> bool {
    digit_val(c) < 10
}

pub open spec fn all_digits(s: Seq<char>) -> bool {
    forall|i: int| 0 <= i < s.len() ==> is_digit(#[trigger] s[i])
}

/// Decimal rendering of `n`: most significant digit first, no leading zeros
/// (and the single digit `0` for zero).
pub open spec fn dec_str(n: nat) -> Seq<char>
    decreases n,
{
    if n < 10 {
        seq![digit_char(n)]
    } else {
        dec_str(n / 10).push(digit_char(n % 10))
    }
}

/// The number written by a digit string, most significant digit first.
pub open spec fn dec_val(s: Seq<char>) -> nat
    decreases s.len(),
{
    if s.len() == 0 {
        0
    } else {
        dec_val(s.drop_last()) * 10 + digit_val(s.last())
    }
}

/// Canonical text form of a resolution: `"{width}x{height}"`.
pub open spec fn res_text(r: Resolution) -> Seq<char> {
    dec_str(r.width as nat) + seq!['x'] + dec_str(r.height as nat)
}

/// Index of the first `'x'` in `s`, or `s.len()` if there is none.
pub open spec fn first_x(s: Seq<char>) -> nat
    decreases s.len(),
{
    if s.len() == 0 {
        0
    } else if s[0] == 'x' {
        0
    } else {
        1 + first_x(s.skip(1))
    }
}

/// What parsing a `"{width}x{height}"` text yields: the two decimal parts
/// around the first `'x'`, provided both are non-empty all-digit strings
/// whose values fit in `u16`.
pub open spec fn parse_res_text(s: Seq<char>) -> Option<Resolution> {
    let i = first_x(s) as int;
    if i == s.len() {
        None
    } else {
        let left = s.take(i);
        let right = s.skip(i + 1);
        if left.len() > 0 && right.len() > 0 && all_digits(left) && all_digits(right)
            && dec_val(left) <= u16::MAX && dec_val(right) <= u16::MAX {
            Some(Resolution { width: dec_val(left) as u16, height: dec_val(right) as u16 })
        } else {
            None
        }
    }
}

proof fn lemma_dec_str_digits(n: nat)
    ensures
        dec_str(n).len() >= 1,
        all_digits(dec_str(n)),
    decreases n,
{
    if n < 10 {
    } else {
        lemma_dec_str_digits(n / 10);
        assert forall|i: int| 0 <= i < dec_str(n).len() implies is_digit(#[trigger] dec_str(n)[i]) by {
            if i < dec_str(n / 10).len() {
                assert(dec_str(n)[i] == dec_str(n / 10)[i]);
            }
        }
    }
}

proof fn lemma_dec_val_of_dec_str(n: nat)
    ensures
        dec_val(dec_str(n)) == n,
    decreases n,
{
    if n < 10 {
        let s = dec_str(n);
        assert(s =~= seq![digit_char(n)]);
        assert(s.drop_last() =~= Seq::<char>::empty());
        assert(dec_val(s.drop_last()) == 0);
        assert(s.last() == digit_char(n));
        assert(digit_val(digit_char(n)) == n);
    } else {
        lemma_dec_val_of_dec_str(n / 10);
        let s = dec_str(n);
        assert(s.len() >= 1);
        assert(s.drop_last() =~= dec_str(n / 10));
        assert(s.last() == digit_char(n % 10));
        assert(digit_val(digit_char(n % 10)) == n % 10);
        assert(dec_val(s) == dec_val(dec_str(n / 10)) * 10 + (n % 10));
        assert(n / 10 * 10 + n % 10 == n) by (nonlinear_arith);
    }
}

proof fn lemma_first_x_past_digits(a: Seq<char>, b: Seq<char>)
    requires
        all_digits(a),
    ensures
        first_x(a + seq!['x'] + b) == a.len(),
    decreases a.len(),
{
    let s = a + seq!['x'] + b;
    if a.len() == 0 {
        assert(s[0] == 'x');
    } else {
        assert(is_digit(a[0]));
        assert(s[0] == a[0]);
        assert(s[0] != 'x');
        let a1 = a.skip(1);
        assert(all_digits(a1)) by {
            assert forall|i: int| 0 <= i < a1.len() implies is_digit(#[trigger] a1[i]) by {
                assert(a1[i] == a[i + 1]);
            }
        }
        lemma_first_x_past_digits(a1, b);
        assert(s.skip(1) =~= a1 + seq!['x'] + b);
    }
}

/// Canonical text form round-trips: parsing `"{width}x{height}"` back
/// yields the original pair.
pub proof fn lemma_res_text_round_trip(r: Resolution)
    ensures
        parse_res_text(res_text(r)) == Some(r),
{
    let w = dec_str(r.width as nat);
    let h = dec_str(r.height as nat);
    let s = res_text(r);
    lemma_dec_str_digits(r.width as nat);
    lemma_dec_str_digits(r.height as nat);
    lemma_first_x_past_digits(w, h);
    let i = first_x(s) as int;
    assert(i == w.len());
    assert(i < s.len());
    assert(s.take(i) =~= w);
    assert(s.skip(i + 1) =~= h);
    lemma_dec_val_of_dec_str(r.width as nat);
    lemma_dec_val_of_dec_str(r.height as nat);
}

/// The canonical text form is injective: distinct resolutions render to
/// distinct texts.
pub proof fn lemma_res_text_injective(a: Resolution, b: Resolution)
    requires
        res_text(a) == res_text(b),
    ensures
        a == b,
{
    lemma_res_text_round_trip(a);
    lemma_res_text_round_trip(b);
}

proof fn lemma_first_x_bounds(s: Seq<char>)
    ensures
        first_x(s) <= s.len(),
        forall|j: int| 0 <= j < first_x(s) ==> s[j] != 'x',
        first_x(s) < s.len() ==> s[first_x(s) as int] == 'x',
    decreases s.len(),
{
    if s.len() == 0 {
    } else if s[0] == 'x' {
    } else {
        lemma_first_x_bounds(s.skip(1));
        assert forall|j: int| 0 <= j < first_x(s) implies s[j] != 'x' by {
            if j > 0 {
                assert(s.skip(1)[j - 1] == s[j]);
            }
        }
        if first_x(s) < s.len() {
            assert(s.skip(1)[first_x(s.skip(1)) as int] == s[first_x(s) as int]);
        }
    }
}

proof fn lemma_dec_val_prefix_le(s: Seq<char>, k: int)
    requires
        0 <= k <= s.len(),
    ensures
        dec_val(s.take(k)) <= dec_val(s),
    decreases s.len() - k,
{
    if k == s.len() {
        assert(s.take(k) =~= s);
    } else {
        assert(s.take(k + 1).drop_last() =~= s.take(k));
        assert(s.take(k + 1).last() == s[k]);
        assert(dec_val(s.take(k + 1)) == dec_val(s.take(k)) * 10 + digit_val(s[k]));
        lemma_dec_val_prefix_le(s, k + 1);
    }
}

fn digit_value(c: char) -> (r: u32)
    ensures
        r as nat == digit_val(c),
{
    if c == '0' {
        0
    } else if c == '1' {
        1
    } else if c == '2' {
        2
    } else if c == '3' {
        3
    } else if c == '4' {
        4
    } else if c == '5' {
        5
    } else if c == '6' {
        6
    } else if c == '7' {
        7
    } else if c == '8' {
        8
    } else if c == '9' {
        9
    } else {
        10
    }
}

fn parse_dec_part(s: &str, from: usize, to: usize) -> (r: Option<u16>)
    requires
        from <= to <= s@.len(),
    ensures
        ({
            let part = s@.subrange(from as int, to as int);
            &&& (r matches Some(v) ==> part.len() > 0 && all_digits(part) && dec_val(part)
                <= u16::MAX && v as nat == dec_val(part))
            &&& (r is None ==> !(part.len() > 0 && all_digits(part) && dec_val(part) <= u16::MAX))
        }),
{
    let ghost part = s@.subrange(from as int, to as int);
    if from == to {
        return None;
    }
    let mut acc: u32 = 0;
    let mut j: usize = from;
    proof {
        assert(s@.subrange(from as int, from as int) =~= Seq::<char>::empty());
    }
    while j < to
        invariant
            from <= j <= to,
            to <= s@.len(),
            part == s@.subrange(from as int, to as int),
            acc <= 65535,
            all_digits(s@.subrange(from as int, j as int)),
            acc as nat == dec_val(s@.subrange(from as int, j as int)),
        decreases to - j,
    {
        let ghost p0 = s@.subrange(from as int, j as int);
        let ghost p1 = s@.subrange(from as int, j + 1 as int);
        proof {
            assert(p1.drop_last() =~= p0);
            assert(p1.last() == s@[j as int]);
            assert(dec_val(p1) == dec_val(p0) * 10 + digit_val(s@[j as int]));
        }
        let c = s.get_char(j);
        let d = digit_value(c);
        if d >= 10 {
            proof {
                assert(part[j - from] == s@[j as int]);
                assert(!is_digit(part[j - from]));
            }
            return None;
        }
        let next = acc * 10 + d;
        if next > 65535 {
            proof {
                assert(part.take(j + 1 - from) =~= p1);
                lemma_dec_val_prefix_le(part, j + 1 - from);
            }
            return None;
        }
        acc = next;
        proof {
            assert forall|k: int| 0 <= k < p1.len() implies is_digit(#[trigger] p1[k]) by {
                if k < p0.len() {
                    assert(p1[k] == p0[k]);
                }
            }
        }
        j = j + 1;
    }
    proof {
        assert(s@.subrange(from as int, j as int) =~= part);
    }
    Some(acc as u16)
}

/// Parse a `"{width}x{height}"` text back into a resolution, accepting
/// exactly what `parse_res_text` describes.
pub fn parse_resolution(s: &str) -> (r: Option<Resolution>)
    ensures
        r == parse_res_text(s@),
{
    let n = s.unicode_len();
    let mut i: usize = 0;
    while i < n && s.get_char(i) != 'x'
        invariant
            i <= n,
            n == s@.len(),
            forall|j: int| 0 <= j < i ==> s@[j] != 'x',
        decreases n - i,
    {
        i = i + 1;
    }
    proof {
        lemma_first_x_bounds(s@);
        let fx = first_x(s@) as int;
        if fx < i {
            assert(s@[fx] != 'x');
            assert(false);
        }
        if i < fx {
            assert(s@[i as int] == 'x');
            assert(false);
        }
    }
    if i == n {
        return None;
    }
    proof {
        assert(s@.take(i as int) =~= s@.subrange(0, i as int));
        assert(s@.skip(i + 1) =~= s@.subrange(i + 1, n as int));
    }
    let w = match parse_dec_part(s, 0, i) {
        Some(v) => v,
        None => {
            return None;
        },
    };
    let h = match parse_dec_part(s, i + 1, n) {
        Some(v) => v,
        None => {
            return None;
        },
    };
    Some(Resolution::new(w, h))
}

fn digit_to_str(d: u16) -> (r: &'static str)
    requires
        d < 10,
    ensures
        r@ =~= seq![digit_char(d as nat)],
{
    proof {
        reveal_strlit("0");
        reveal_strlit("1");
        reveal_strlit("2");
        reveal_strlit("3");
        reveal_strlit("4");
        reveal_strlit("5");
        reveal_strlit("6");
        reveal_strlit("7");
        reveal_strlit("8");
        reveal_strlit("9");
    }
    if d == 0 {
        "0"
    } else if d == 1 {
        "1"
    } else if d == 2 {
        "2"
    } else if d == 3 {
        "3"
    } else if d == 4 {
        "4"
    } else if d == 5 {
        "5"
    } else if d == 6 {
        "6"
    } else if d == 7 {
        "7"
    } else if d == 8 {
        "8"
    } else {
        "9"
    }
}

/// Decimal rendering of a `u16`, matching `dec_str`.
pub fn u16_to_dec(n: u16) -> (r: String)
    ensures
        r@ == dec_str(n as nat),
    decreases n,
{
    if n < 10 {
        let s = String::from_str(digit_to_str(n));
        proof {
            assert(s@ =~= dec_str(n as nat));
        }
        s
    } else {
        proof {
            assert(n / 10 < n) by (nonlinear_arith)
                requires n >= 10;
        }
        let mut s = u16_to_dec(n / 10);
        s.append(digit_to_str(n % 10));
        proof {
            assert(s@ =~= dec_str(n as nat));
        }
        s
    }
}

impl Resolution {
    /// Build a resolution from already-validated width and height.
    /// Construction cannot fail.
    pub fn new(width: u16, height: u16) -> (r: Self)
        ensures
            r.width == width,
            r.height == height,
    {
        Resolution { width, height }
    }

    /// Canonical text form `"{width}x{height}"`, used both as the URL
    /// substitution token and as the file name stem.
    pub fn to_string(&self) -> (r: String)
        ensures
            r@ == res_text(*self),
    {
        let mut s = u16_to_dec(self.width);
        s.append("x");
        let h = u16_to_dec(self.height);
        s.append(h.as_str());
        proof {
            reveal_strlit("x");
            assert("x"@ =~= seq!['x']);
            assert(s@ =~= res_text(*self));
        }
        s
    }
}

} // verus!
