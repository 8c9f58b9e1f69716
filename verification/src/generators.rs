//! Primitive value generators: one random value per call, no state beyond
//! the random source that is consumed.

use vstd::prelude::*;
use vstd::string::*;
use crate::rng::RandomSource;
use crate::text::{
    lemma_avoids_concat,
    lemma_avoids_left_pad,
    lemma_dec_str_avoids,
    avoids,
    dec_str,
    is_dec_digit,
    left_pad,
    pad_left,
    push_char,
    u64_to_decimal,
};

verus! {

/// A calendar date.  February is always treated as 28 days: no leap-year
/// handling is attempted.
pub struct Date {
    pub year: u16,
    pub month: u8,
    pub day: u8,
}

/// The simplified day-count table: 31 days for January, March, May, July,
/// August, October and December, 28 for February, 30 otherwise.
pub open spec fn days_in_month(m: int) -> int {
    if m == 2 {
        28
    } else if m == 1 || m == 3 || m == 5 || m == 7 || m == 8 || m == 10 || m == 12 {
        31
    } else {
        30
    }
}

/// The date as text: `YYYY-MM-DD`, month and day zero-padded to two digits.
pub open spec fn date_text(d: Date) -> Seq<char> {
    dec_str(d.year as nat) + seq!['-'] + left_pad(dec_str(d.month as nat), 2, '0') + seq!['-']
        + left_pad(dec_str(d.day as nat), 2, '0')
}

impl Date {
    /// Month and day lie in range for the simplified day-count table, and
    /// the year in the generator's bounded historical range.
    pub open spec fn wf(self) -> bool {
        &&& 1 <= self.month <= 12
        &&& 1 <= self.day <= days_in_month(self.month as int)
        &&& 1901 <= self.year <= 2016
    }

    /// Formats the date as `YYYY-MM-DD`.
    pub fn text(&self) -> (s: String)
        requires
            self.wf(),
        ensures
            s@ == date_text(*self),
    {
        let mut s = u64_to_decimal(self.year as u64);
        push_char(&mut s, '-');
        let month = pad_left(u64_to_decimal(self.month as u64).as_str(), 2, '0');
        s.append(month.as_str());
        push_char(&mut s, '-');
        let day = pad_left(u64_to_decimal(self.day as u64).as_str(), 2, '0');
        s.append(day.as_str());
        proof {
            assert(s@ =~= date_text(*self));
        }
        s
    }
}

pub fn month_days(m: u8) -> (d: u8)
    requires
        1 <= m <= 12,
    ensures
        d as int == days_in_month(m as int),
{
    if m == 2 {
        28
    } else if m == 1 || m == 3 || m == 5 || m == 7 || m == 8 || m == 10 || m == 12 {
        31
    } else {
        30
    }
}

/// A random integer uniform over the half-open interval `[min, max)`.
pub fn generate_integer<R: RandomSource>(rng: &mut R, min: i64, max: i64) -> (r: i64)
    requires
        min < max,
    ensures
        min <= r < max,
{
    rng.next_i64_in(min, max)
}

/// An integer drawn around `mean` with spread `std_dev`; the value is not
/// clamped to any interval and may be negative.
pub fn generate_gauss<R: RandomSource>(rng: &mut R, mean: i32, std_dev: i32) -> i32 {
    rng.next_gauss(mean, std_dev)
}

pub open spec fn is_uppercase(c: char) -> bool {
    'A' <= c && c <= 'Z'
}

fn uppercase_letter(i: usize) -> (c: char)
    requires
        i < 26,
    ensures
        is_uppercase(c),
{
    let b: u8 = 65 + (i as u8);
    b as char
}

/// A random string of exactly `length` uppercase letters.
pub fn generate_string<R: RandomSource>(rng: &mut R, length: usize) -> (s: String)
    ensures
        s@.len() == length,
        forall|i: int| 0 <= i < s@.len() ==> is_uppercase(#[trigger] s@[i]),
{
    let mut s = String::new();
    let mut i: usize = 0;
    while i < length
        invariant
            i <= length,
            s@.len() == i,
            forall|j: int| 0 <= j < s@.len() ==> is_uppercase(#[trigger] s@[j]),
        decreases length - i,
    {
        let idx = rng.next_index(26);
        let c = uppercase_letter(idx);
        push_char(&mut s, c);
        i = i + 1;
    }
    s
}

/// A random date with month in `[1, 12]`, day in range for the month's
/// simplified day count, and year in `[1901, 2016]`.
pub fn generate_date<R: RandomSource>(rng: &mut R) -> (d: Date)
    ensures
        d.wf(),
{
    let month: u8 = 1 + rng.next_index(12) as u8;
    let days = month_days(month);
    let day: u8 = 1 + rng.next_index(days as usize) as u8;
    let year: u16 = 1901 + rng.next_index(116) as u16;
    Date { year, month, day }
}

/// The concatenation of the chosen elements, in pick order.
pub open spec fn concat_picks(choices: Seq<Seq<char>>, picks: Seq<int>) -> Seq<char>
    decreases picks.len(),
{
    if picks.len() == 0 {
        Seq::empty()
    } else {
        concat_picks(choices, picks.drop_last()) + choices[picks.last()]
    }
}

/// Exactly `length` picks, each an index into `choices`.
pub open spec fn picks_ok(choices: Seq<Seq<char>>, picks: Seq<int>, length: int) -> bool {
    &&& picks.len() == length
    &&& forall|i: int| 0 <= i < picks.len() ==> 0 <= #[trigger] picks[i] < choices.len()
}

/// `length` elements drawn uniformly from `choices`, concatenated in
/// draw order.
pub fn generate_choice<R: RandomSource>(rng: &mut R, choices: &[String], length: usize) -> (s:
    String)
    requires
        choices@.len() > 0,
    ensures
        exists|picks: Seq<int>|
            picks_ok(choices.deep_view(), picks, length as int) && s@ == concat_picks(
                choices.deep_view(),
                picks,
            ),
{
    let mut s = String::new();
    let ghost mut picks: Seq<int> = Seq::empty();
    let mut i: usize = 0;
    while i < length
        invariant
            choices@.len() > 0,
            i <= length,
            picks_ok(choices.deep_view(), picks, i as int),
            s@ == concat_picks(choices.deep_view(), picks),
        decreases length - i,
    {
        let ghost old_picks = picks;
        let idx = rng.next_index(choices.len());
        let choice: &String = &choices[idx];
        s.append(choice.as_str());
        proof {
            picks = picks.push(idx as int);
            assert(picks.drop_last() =~= old_picks);
            assert(choices.deep_view()[idx as int] == choices@[idx as int]@);
        }
        i = i + 1;
    }
    s
}

/// Bounds the value a choice field produces: with every element at most
/// `cl` characters, `length` picks give at most `length * cl` characters.
pub proof fn lemma_choice_len_bound(choices: Seq<Seq<char>>, picks: Seq<int>, cl: int)
    requires
        forall|i: int| 0 <= i < picks.len() ==> 0 <= #[trigger] picks[i] < choices.len(),
        forall|i: int| 0 <= i < choices.len() ==> (#[trigger] choices[i]).len() <= cl,
        cl >= 0,
    ensures
        concat_picks(choices, picks).len() <= picks.len() * cl,
    decreases picks.len(),
{
    if picks.len() > 0 {
        lemma_choice_len_bound(choices, picks.drop_last(), cl);
        assert((picks.len() - 1) * cl + cl == picks.len() * cl) by (nonlinear_arith);
    }
}

/// Characters of a choice value come from the choice set: a character that
/// every choice avoids does not occur in the concatenation.
pub proof fn lemma_concat_picks_avoids(choices: Seq<Seq<char>>, picks: Seq<int>, c: char)
    requires
        forall|i: int| 0 <= i < picks.len() ==> 0 <= #[trigger] picks[i] < choices.len(),
        forall|i: int| 0 <= i < choices.len() ==> avoids(#[trigger] choices[i], c),
    ensures
        avoids(concat_picks(choices, picks), c),
    decreases picks.len(),
{
    if picks.len() > 0 {
        lemma_concat_picks_avoids(choices, picks.drop_last(), c);
    }
}

/// A date's text holds only digits and dashes: any other character is
/// avoided.
pub proof fn lemma_date_text_avoids(d: Date, c: char)
    requires
        !is_dec_digit(c),
        c != '-',
    ensures
        avoids(date_text(d), c),
{
    lemma_dec_str_avoids(d.year as nat, c);
    lemma_dec_str_avoids(d.month as nat, c);
    lemma_dec_str_avoids(d.day as nat, c);
    lemma_avoids_left_pad(dec_str(d.month as nat), 2, '0', c);
    lemma_avoids_left_pad(dec_str(d.day as nat), 2, '0', c);
    assert(avoids(seq!['-'], c));
    lemma_avoids_concat(dec_str(d.year as nat), seq!['-'], c);
    lemma_avoids_concat(dec_str(d.year as nat) + seq!['-'], left_pad(dec_str(d.month as nat), 2, '0'), c);
    lemma_avoids_concat(
        dec_str(d.year as nat) + seq!['-'] + left_pad(dec_str(d.month as nat), 2, '0'),
        seq!['-'],
        c,
    );
    lemma_avoids_concat(
        dec_str(d.year as nat) + seq!['-'] + left_pad(dec_str(d.month as nat), 2, '0') + seq!['-'],
        left_pad(dec_str(d.day as nat), 2, '0'),
        c,
    );
}

} // verus!
