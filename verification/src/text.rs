//! Verified text building blocks: decimal formatting, left padding,
//! character counting and string equality.  Row layout and the line
//! structure of batches are stated in terms of these.

use vstd::prelude::*;
use vstd::string::*;

verus! {

/// The character for one decimal digit.
pub open spec fn dec_digit_char(d: int) -> char {
    if d == 0 {
        '0'
    } else if d == 1 {
        '1'
    } else if d == 2 {
        '2'
    } else if d == 3 {
        '3'
    } else if d == 4 {
        '4'
    } else if d == 5 {
        '5'
    } else if d == 6 {
        '6'
    } else if d == 7 {
        '7'
    } else if d == 8 {
        '8'
    } else {
        '9'
    }
}

pub open spec fn is_dec_digit(c: char) -> bool {
    c == '0' || c == '1' || c == '2' || c == '3' || c == '4' || c == '5' || c == '6' || c == '7'
        || c == '8' || c == '9'
}

/// Decimal representation of a natural number, most significant digit first,
/// with no leading zeros (a single `'0'` for zero).
pub open spec fn dec_str(n: nat) -> Seq<char>
    decreases n,
{
    if n < 10 {
        seq![dec_digit_char(n as int)]
    } else {
        dec_str(n / 10).push(dec_digit_char((n % 10) as int))
    }
}

/// Decimal representation of an integer: a leading minus sign for negatives.
pub open spec fn int_str(v: int) -> Seq<char> {
    if v < 0 {
        seq!['-'] + dec_str((-v) as nat)
    } else {
        dec_str(v as nat)
    }
}

/// Left padding: shorter values gain a prefix of `c` up to `width`,
/// longer values pass through unchanged (never truncated).
pub open spec fn left_pad(s: Seq<char>, width: int, c: char) -> Seq<char> {
    if s.len() >= width {
        s
    } else {
        Seq::new((width - s.len()) as nat, |i: int| c) + s
    }
}

/// `s` contains no occurrence of `c`.
pub open spec fn avoids(s: Seq<char>, c: char) -> bool {
    forall|i: int| 0 <= i < s.len() ==> s[i] != c
}

/// How many times `c` occurs in `s`.
pub open spec fn count_char(s: Seq<char>, c: char) -> nat
    decreases s.len(),
{
    if s.len() == 0 {
        0
    } else {
        count_char(s.drop_last(), c) + (if s.last() == c {
            1nat
        } else {
            0nat
        })
    }
}

/// Parts joined with a delimiter between consecutive parts.
pub open spec fn join(parts: Seq<Seq<char>>, delim: Seq<char>) -> Seq<char>
    decreases parts.len(),
{
    if parts.len() == 0 {
        Seq::empty()
    } else if parts.len() == 1 {
        parts[0]
    } else {
        join(parts.drop_last(), delim) + delim + parts.last()
    }
}

/// Drops every leading occurrence of `c`.
pub open spec fn strip_left(s: Seq<char>, c: char) -> Seq<char>
    decreases s.len(),
{
    if s.len() > 0 && s[0] == c {
        strip_left(s.drop_first(), c)
    } else {
        s
    }
}

/// Left padding round trip: a value that fits its width and does not itself
/// begin with the padding character is recovered exactly by stripping the
/// padding, and the padded cell is exactly `width` wide.
pub proof fn lemma_strip_left_pad(v: Seq<char>, width: int, c: char)
    requires
        v.len() <= width,
        v.len() > 0 ==> v[0] != c,
    ensures
        left_pad(v, width, c).len() == width,
        strip_left(left_pad(v, width, c), c) == v,
    decreases width,
{
    if v.len() == width {
        assert(left_pad(v, width, c) == v);
        if v.len() > 0 {
            assert(strip_left(v, c) == v);
        }
    } else {
        let padded = left_pad(v, width, c);
        assert(padded[0] == c);
        assert(padded.drop_first() =~= left_pad(v, width - 1, c));
        lemma_strip_left_pad(v, width - 1, c);
    }
}

/// The lengths of the first `k` parts, summed.
pub open spec fn parts_len_sum(parts: Seq<Seq<char>>, k: int) -> int
    decreases k,
{
    if k <= 0 {
        0
    } else {
        parts_len_sum(parts, k - 1) + parts[k - 1].len()
    }
}

/// Prefix sums of part lengths grow monotonically and never go negative.
pub proof fn lemma_parts_len_sum_mono(parts: Seq<Seq<char>>, k: int)
    requires
        0 <= k <= parts.len(),
    ensures
        0 <= parts_len_sum(parts, k),
        forall|j: int| 0 <= j <= k ==> #[trigger] parts_len_sum(parts, j) <= parts_len_sum(
            parts,
            k,
        ),
    decreases k,
{
    if k > 0 {
        lemma_parts_len_sum_mono(parts, k - 1);
    }
}

proof fn lemma_parts_len_sum_prefix(parts: Seq<Seq<char>>, k: int)
    requires
        0 <= k <= parts.len() - 1,
    ensures
        parts_len_sum(parts, k) == parts_len_sum(parts.drop_last(), k),
    decreases k,
{
    if k > 0 {
        lemma_parts_len_sum_prefix(parts, k - 1);
    }
}

/// Joining with an empty delimiter lays the parts out back to back: the
/// result has the summed length.
pub proof fn lemma_join_empty_len(parts: Seq<Seq<char>>)
    ensures
        join(parts, Seq::empty()).len() == parts_len_sum(parts, parts.len() as int),
    decreases parts.len(),
{
    if parts.len() == 1 {
        assert(parts_len_sum(parts, 0) == 0);
    } else if parts.len() > 1 {
        let prefix = parts.drop_last();
        lemma_join_empty_len(prefix);
        lemma_parts_len_sum_prefix(parts, parts.len() - 1);
    }
}

/// In a join with an empty delimiter, part `i` sits exactly between the
/// summed widths of the parts before and through it.
pub proof fn lemma_join_empty_slice_at(parts: Seq<Seq<char>>, i: int)
    requires
        0 <= i < parts.len(),
    ensures
        0 <= parts_len_sum(parts, i),
        parts_len_sum(parts, i) + parts[i].len() == parts_len_sum(parts, i + 1),
        parts_len_sum(parts, i + 1) <= join(parts, Seq::empty()).len(),
        join(parts, Seq::empty()).subrange(parts_len_sum(parts, i), parts_len_sum(parts, i + 1))
            == parts[i],
    decreases parts.len(),
{
    let whole = join(parts, Seq::empty());
    lemma_join_empty_len(parts);
    lemma_parts_len_sum_mono(parts, parts.len() as int);
    lemma_parts_len_sum_mono(parts, i);
    if parts.len() == 1 {
        assert(whole == parts[0]);
        assert(parts_len_sum(parts, 0) == 0);
        assert(whole.subrange(0, parts[0].len() as int) =~= parts[0]);
    } else {
        let n = parts.len() as int;
        let prefix = parts.drop_last();
        let last = parts.last();
        let head = join(prefix, Seq::empty());
        assert(whole =~= head + last);
        lemma_join_empty_len(prefix);
        if i < n - 1 {
            lemma_join_empty_slice_at(prefix, i);
            lemma_parts_len_sum_prefix(parts, i);
            lemma_parts_len_sum_prefix(parts, i + 1);
            let lo = parts_len_sum(prefix, i);
            let hi = parts_len_sum(prefix, i + 1);
            assert(prefix[i] == parts[i]);
            assert(whole.subrange(lo, hi) =~= head.subrange(lo, hi));
        } else {
            lemma_parts_len_sum_prefix(parts, n - 1);
            assert(parts_len_sum(parts, n - 1) == head.len());
            assert(whole.subrange(head.len() as int, whole.len() as int) =~= last);
        }
    }
}

pub proof fn lemma_count_char_concat(a: Seq<char>, b: Seq<char>, c: char)
    ensures
        count_char(a + b, c) == count_char(a, c) + count_char(b, c),
    decreases b.len(),
{
    if b.len() == 0 {
        assert(a + b =~= a);
    } else {
        assert((a + b).drop_last() =~= a + b.drop_last());
        lemma_count_char_concat(a, b.drop_last(), c);
    }
}

/// A string that avoids `c` contributes no occurrences of `c`.
pub proof fn lemma_count_char_zero(s: Seq<char>, c: char)
    requires
        avoids(s, c),
    ensures
        count_char(s, c) == 0,
    decreases s.len(),
{
    if s.len() > 0 {
        lemma_count_char_zero(s.drop_last(), c);
    }
}

/// Avoiding a character is preserved by concatenation.
pub proof fn lemma_avoids_concat(a: Seq<char>, b: Seq<char>, c: char)
    requires
        avoids(a, c),
        avoids(b, c),
    ensures
        avoids(a + b, c),
{
    assert forall|i: int| 0 <= i < (a + b).len() implies (a + b)[i] != c by {
        if i < a.len() {
            assert((a + b)[i] == a[i]);
        } else {
            assert((a + b)[i] == b[i - a.len()]);
        }
    }
}

/// Avoiding a character is preserved by left padding with another one.
pub proof fn lemma_avoids_left_pad(s: Seq<char>, w: int, p: char, c: char)
    requires
        avoids(s, c),
        p != c,
    ensures
        avoids(left_pad(s, w, p), c),
{
    if s.len() < w {
        assert forall|i: int| 0 <= i < left_pad(s, w, p).len() implies left_pad(s, w, p)[i]
            != c by {
            if i < w - s.len() {
                assert(left_pad(s, w, p)[i] == p);
            } else {
                assert(left_pad(s, w, p)[i] == s[i - (w - s.len())]);
            }
        }
    }
}

/// Every character of a decimal representation is a digit.
pub proof fn lemma_dec_str_digits(n: nat)
    ensures
        forall|i: int| 0 <= i < dec_str(n).len() ==> is_dec_digit(#[trigger] dec_str(n)[i]),
    decreases n,
{
    if n >= 10 {
        lemma_dec_str_digits(n / 10);
        assert forall|i: int| 0 <= i < dec_str(n).len() implies is_dec_digit(
            #[trigger] dec_str(n)[i],
        ) by {
            if i < dec_str(n).len() - 1 {
                assert(dec_str(n)[i] == dec_str(n / 10)[i]);
            } else {
                assert(dec_str(n)[i] == dec_digit_char((n % 10) as int));
            }
        }
    }
}

/// A decimal representation avoids anything that is not a digit.
pub proof fn lemma_dec_str_avoids(n: nat, c: char)
    requires
        !is_dec_digit(c),
    ensures
        avoids(dec_str(n), c),
{
    lemma_dec_str_digits(n);
}

/// An integer representation holds only digits and the minus sign.
pub proof fn lemma_int_str_chars(v: int)
    ensures
        forall|i: int|
            0 <= i < int_str(v).len() ==> (is_dec_digit(#[trigger] int_str(v)[i]) || int_str(v)[i]
                == '-'),
{
    if v < 0 {
        lemma_dec_str_digits((-v) as nat);
        assert forall|i: int| 0 <= i < int_str(v).len() implies (is_dec_digit(
            #[trigger] int_str(v)[i],
        ) || int_str(v)[i] == '-') by {
            if i == 0 {
                assert(int_str(v)[0] == '-');
            } else {
                assert(int_str(v)[i] == dec_str((-v) as nat)[i - 1]);
            }
        }
    } else {
        lemma_dec_str_digits(v as nat);
    }
}

/// Relies on `String::push`: appends exactly one character.
#[verifier::external_body]
pub(crate) fn push_char(s: &mut String, c: char)
    ensures
        final(s)@ == old(s)@.push(c),
{
    s.push(c);
}

fn digit_char(d: u64) -> (c: char)
    requires
        d < 10,
    ensures
        c == dec_digit_char(d as int),
{
    if d == 0 {
        '0'
    } else if d == 1 {
        '1'
    } else if d == 2 {
        '2'
    } else if d == 3 {
        '3'
    } else if d == 4 {
        '4'
    } else if d == 5 {
        '5'
    } else if d == 6 {
        '6'
    } else if d == 7 {
        '7'
    } else if d == 8 {
        '8'
    } else {
        '9'
    }
}

/// Formats a natural number in decimal, matching `dec_str`.
pub fn u64_to_decimal(n: u64) -> (s: String)
    ensures
        s@ == dec_str(n as nat),
{
    let mut digits: Vec<char> = Vec::new();
    let mut m: u64 = n;
    loop
        invariant_except_break
            digits@.len() == 0 ==> m == n,
            digits@.len() > 0 ==> m > 0 && dec_str(n as nat) == dec_str(m as nat)
                + digits@.reverse(),
        ensures
            dec_str(n as nat) == digits@.reverse(),
        decreases m,
    {
        let ghost old_digits = digits@;
        let ghost old_m = m;
        let d = m % 10;
        digits.push(digit_char(d));
        m = m / 10;
        proof {
            assert(digits@.reverse() =~= seq![dec_digit_char(d as int)] + old_digits.reverse());
            if old_m < 10 {
                assert(dec_str(old_m as nat) == seq![dec_digit_char(d as int)]);
            } else {
                assert(dec_str(old_m as nat) == dec_str((old_m / 10) as nat).push(dec_digit_char(
                    (old_m % 10) as int,
                )));
                assert(dec_str(old_m as nat) =~= dec_str(m as nat) + seq![
                    dec_digit_char(d as int),
                ]);
            }
            if old_digits.len() == 0 {
                if m == 0 {
                    assert(dec_str(n as nat) =~= digits@.reverse());
                } else {
                    assert(dec_str(n as nat) =~= dec_str(m as nat) + digits@.reverse());
                }
            } else {
                if m == 0 {
                    assert(dec_str(n as nat) =~= digits@.reverse());
                } else {
                    assert(dec_str(n as nat) =~= dec_str(m as nat) + digits@.reverse());
                }
            }
        }
        if m == 0 {
            break ;
        }
    }
    let mut s = String::new();
    let mut i: usize = digits.len();
    proof {
        assert(s@ =~= digits@.subrange(i as int, digits@.len() as int).reverse());
    }
    while i > 0
        invariant
            i <= digits@.len(),
            dec_str(n as nat) == digits@.reverse(),
            s@ == digits@.subrange(i as int, digits@.len() as int).reverse(),
        decreases i,
    {
        let ghost old_s = s@;
        let ghost old_i = i as int;
        i = i - 1;
        let c = digits[i];
        push_char(&mut s, c);
        proof {
            assert(s@ =~= digits@.subrange(i as int, digits@.len() as int).reverse());
        }
    }
    proof {
        assert(digits@.subrange(0, digits@.len() as int) =~= digits@);
    }
    s
}

/// Formats a signed integer in decimal, matching `int_str`.
pub fn i64_to_decimal(v: i64) -> (s: String)
    ensures
        s@ == int_str(v as int),
{
    if v >= 0 {
        u64_to_decimal(v as u64)
    } else {
        let mag: u64 = (-(v as i128)) as u64;
        let mut s = String::new();
        push_char(&mut s, '-');
        let digits = u64_to_decimal(mag);
        s.append(digits.as_str());
        proof {
            assert(s@ =~= seq!['-'] + dec_str(mag as nat));
        }
        s
    }
}

/// Pads `s` on the left with `c` up to `width` characters; a value already
/// `width` or longer passes through unchanged.
pub fn pad_left(s: &str, width: usize, c: char) -> (r: String)
    ensures
        r@ == left_pad(s@, width as int, c),
{
    let n = s.unicode_len();
    let mut r = String::new();
    let mut i: usize = n;
    while i < width
        invariant
            n == s@.len(),
            n <= i,
            n < width ==> i <= width,
            n >= width ==> i == n,
            r@.len() == i - n,
            forall|j: int| 0 <= j < r@.len() ==> r@[j] == c,
        decreases width - i,
    {
        push_char(&mut r, c);
        i = i + 1;
    }
    r.append(s);
    proof {
        assert(r@ =~= left_pad(s@, width as int, c));
    }
    r
}

/// Character-for-character string equality.
pub fn str_eq(a: &str, b: &str) -> (r: bool)
    ensures
        r == (a@ == b@),
{
    let alen = a.unicode_len();
    let blen = b.unicode_len();
    if alen != blen {
        return false;
    }
    let mut i: usize = 0;
    while i < alen
        invariant
            alen == a@.len(),
            alen == b@.len(),
            i <= alen,
            forall|j: int| 0 <= j < i ==> a@[j] == b@[j],
        decreases alen - i,
    {
        if a.get_char(i) != b.get_char(i) {
            return false;
        }
        i = i + 1;
    }
    proof {
        assert(a@ =~= b@);
    }
    true
}

} // verus!
