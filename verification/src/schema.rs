//! The field and schema model, and the row generator.
//!
//! A schema is an ordered field list with a delimiter policy: either a
//! literal delimiter string joined between values, or the fixed-width
//! sentinel `"fixed"`, under which every field occupies exactly its
//! configured width, reached by left padding.

use vstd::prelude::*;
use vstd::string::*;
use crate::generators::{
    concat_picks,
    date_text,
    generate_choice,
    generate_date,
    generate_gauss,
    generate_integer,
    generate_string,
    is_uppercase,
    picks_ok,
    Date,
};
use crate::generators::{lemma_concat_picks_avoids, lemma_date_text_avoids};
use crate::rng::RandomSource;
use crate::text::{
    avoids,
    count_char,
    i64_to_decimal,
    int_str,
    is_dec_digit,
    join,
    left_pad,
    lemma_avoids_concat,
    lemma_avoids_left_pad,
    lemma_count_char_concat,
    lemma_count_char_zero,
    lemma_int_str_chars,
    lemma_join_empty_len,
    lemma_join_empty_slice_at,
    lemma_strip_left_pad,
    pad_left,
    parts_len_sum,
    push_char,
    str_eq,
    strip_left,
};

verus! {

/// How one field's value is produced: a closed variant type, dispatched
/// exhaustively.  A float-valued normal variant is not represented: the
/// library holds no floating point.
pub enum FieldGenerator {
    /// A fixed placeholder, used when a generator kind is unrecognized.
    NoGen,
    /// Uniform over the half-open interval `[min, max)`.
    Integer { min: i64, max: i64 },
    /// Drawn around `mean` with spread `std_dev`, integer-valued.
    Gauss { mean: i32, std_dev: i32 },
    /// A synthesized calendar date.
    Date,
    /// A fixed-length draw from the uppercase alphabet.
    String { length: usize },
    /// `length` elements drawn from `choices` and concatenated;
    /// `choice_length` records the widest element, for fixed-width layout.
    Choice { choices: Vec<String>, choice_length: usize, length: usize },
}

/// One column of the schema.  `length` and `padding` matter only under the
/// fixed-width delimiter policy.
pub struct Field {
    pub name: String,
    pub data_type: String,
    pub length: Option<usize>,
    pub padding: Option<char>,
    pub generator: FieldGenerator,
}

/// A table description: constructed once, then read-only.
pub struct Schema {
    pub table_name: String,
    pub delimiter: String,
    pub fields: Vec<Field>,
}

/// A row-generation failure, naming the offending field.
#[derive(Debug)]
pub enum RowError {
    /// Fixed-width mode requires a length on every field.
    MissingLength { field: String },
    /// No padding character is configured and the value's natural length
    /// differs from the field's width; truncation is never applied.
    PaddingMismatch { field: String },
    /// A choice field with an empty choice set.
    EmptyChoices { field: String },
}

impl RowError {
    /// A human-readable description of the failure.
    pub fn message(&self) -> (m: String)
        ensures
            match self {
                RowError::MissingLength { field } => m@ =~= "missing 'length' for field "@
                    + field@,
                RowError::PaddingMismatch { field } => m@ =~= "no 'padding' configured and the value does not fit 'length' for field "@
                    + field@,
                RowError::EmptyChoices { field } => m@ =~= "empty choice set for field "@
                    + field@,
            },
    {
        match self {
            RowError::MissingLength { field } => {
                let mut m = "missing 'length' for field ".to_owned();
                m.append(field.as_str());
                m
            },
            RowError::PaddingMismatch { field } => {
                let mut m =
                    "no 'padding' configured and the value does not fit 'length' for field ".to_owned();
                m.append(field.as_str());
                m
            },
            RowError::EmptyChoices { field } => {
                let mut m = "empty choice set for field ".to_owned();
                m.append(field.as_str());
                m
            },
        }
    }
}

/// The schema uses the fixed-width sentinel instead of a literal delimiter.
pub open spec fn is_fixed(s: Schema) -> bool {
    s.delimiter@ == "fixed"@
}

/// The delimiter written between values: nothing under fixed-width layout.
pub open spec fn effective_delim(s: Schema) -> Seq<char> {
    if is_fixed(s) {
        Seq::empty()
    } else {
        s.delimiter@
    }
}

/// The width a fixed-mode field is laid out to.
pub open spec fn field_len(f: Field) -> int {
    f.length->0 as int
}

/// What a generated value can be, by generator kind.
pub open spec fn value_matches(g: FieldGenerator, v: Seq<char>) -> bool {
    match g {
        FieldGenerator::NoGen => v == "None"@,
        FieldGenerator::Integer { min, max } => exists|k: int| min <= k < max && v == int_str(k),
        FieldGenerator::Gauss { mean, std_dev } => exists|k: int|
            i32::MIN <= k <= i32::MAX && v == int_str(k),
        FieldGenerator::Date => exists|d: Date| d.wf() && v == date_text(d),
        FieldGenerator::String { length } => v.len() == length && (forall|i: int|
            0 <= i < v.len() ==> is_uppercase(#[trigger] v[i])),
        FieldGenerator::Choice { choices, choice_length, length } => exists|picks: Seq<int>|
            picks_ok(choices.deep_view(), picks, length as int) && v == concat_picks(
                choices.deep_view(),
                picks,
            ),
    }
}

/// The distribution parameters a generator kind treats as a precondition:
/// a uniform integer range must be non-empty.
pub open spec fn field_input_ok(f: Field) -> bool {
    match f.generator {
        FieldGenerator::Integer { min, max } => min < max,
        _ => true,
    }
}

pub open spec fn fields_input_ok(s: Schema) -> bool {
    forall|i: int| 0 <= i < s.fields@.len() ==> field_input_ok(#[trigger] s.fields@[i])
}

/// Generation fails for this field on every draw: an empty choice set.
pub open spec fn field_gen_fails(f: Field) -> bool {
    match f.generator {
        FieldGenerator::Choice { choices, .. } => choices@.len() == 0,
        _ => false,
    }
}

/// One field's final cell under fixed-width layout: padded to the field's
/// width when a padding character is configured, otherwise unchanged.
pub open spec fn fixed_cell(f: Field, v: Seq<char>) -> Seq<char> {
    match f.padding {
        Some(p) => left_pad(v, field_len(f), p),
        None => v,
    }
}

pub open spec fn row_cell(s: Schema, f: Field, v: Seq<char>) -> Seq<char> {
    if is_fixed(s) {
        fixed_cell(f, v)
    } else {
        v
    }
}

pub open spec fn row_cells(s: Schema, vals: Seq<Seq<char>>) -> Seq<Seq<char>> {
    Seq::new(vals.len(), |i: int| row_cell(s, s.fields@[i], vals[i]))
}

/// The full row for the given per-field natural values.
pub open spec fn row_text(s: Schema, vals: Seq<Seq<char>>) -> Seq<char> {
    join(row_cells(s, vals), effective_delim(s))
}

/// One natural value per field, each shaped as its generator allows.
pub open spec fn row_values(s: Schema, vals: Seq<Seq<char>>) -> bool {
    &&& vals.len() == s.fields@.len()
    &&& forall|i: int|
        0 <= i < vals.len() ==> value_matches(s.fields@[i].generator, #[trigger] vals[i])
}

/// What fixed-width layout demands of the fields and values that reached
/// the output: every field has a width, and an unpadded value fills its
/// width exactly.
pub open spec fn fixed_ok(s: Schema, vals: Seq<Seq<char>>) -> bool {
    is_fixed(s) ==> forall|i: int|
        0 <= i < vals.len() ==> {
            &&& (#[trigger] s.fields@[i]).length is Some
            &&& (s.fields@[i].padding is None ==> vals[i].len() == field_len(s.fields@[i]))
        }
}

/// `r` is a row this schema can generate.
pub open spec fn generated_row(s: Schema, r: Seq<char>) -> bool {
    exists|vals: Seq<Seq<char>>|
        row_values(s, vals) && fixed_ok(s, vals) && r == row_text(s, vals)
}

/// The inputs on which a row error can arise, by error.
pub open spec fn row_error_witness(s: Schema, e: RowError) -> bool {
    match e {
        RowError::EmptyChoices { field } => exists|i: int|
            0 <= i < s.fields@.len() && field_gen_fails(#[trigger] s.fields@[i]) && field@
                == s.fields@[i].name@,
        RowError::MissingLength { field } => is_fixed(s) && exists|i: int|
            0 <= i < s.fields@.len() && (#[trigger] s.fields@[i]).length is None && field@
                == s.fields@[i].name@,
        RowError::PaddingMismatch { field } => is_fixed(s) && exists|i: int, v: Seq<char>|
            0 <= i < s.fields@.len() && (#[trigger] s.fields@[i]).padding is None
                && s.fields@[i].length is Some && #[trigger] value_matches(
                s.fields@[i].generator,
                v,
            ) && v.len() != field_len(s.fields@[i]) && field@ == s.fields@[i].name@,
    }
}

/// No field can fail: choice sets are non-empty, and under fixed-width
/// layout every field carries both a width and a padding character.
pub open spec fn row_infallible(s: Schema) -> bool {
    forall|i: int|
        0 <= i < s.fields@.len() ==> {
            &&& !field_gen_fails(#[trigger] s.fields@[i])
            &&& (is_fixed(s) ==> s.fields@[i].length is Some && s.fields@[i].padding is Some)
        }
}

impl Field {
    /// One formatted value for this field, from one or more draws on the
    /// random source.  Fails exactly on an empty choice set.
    pub fn generate<R: RandomSource>(&self, rng: &mut R) -> (res: Result<String, RowError>)
        requires
            field_input_ok(*self),
        ensures
            match res {
                Ok(v) => value_matches(self.generator, v@) && !field_gen_fails(*self),
                Err(e) => field_gen_fails(*self) && (e matches RowError::EmptyChoices { field }
                    && field@ == self.name@),
            },
    {
        match &self.generator {
            FieldGenerator::NoGen => Ok("None".to_owned()),
            FieldGenerator::Integer { min, max } => {
                let k = generate_integer(rng, *min, *max);
                Ok(i64_to_decimal(k))
            },
            FieldGenerator::Gauss { mean, std_dev } => {
                let k = generate_gauss(rng, *mean, *std_dev);
                Ok(i64_to_decimal(k as i64))
            },
            FieldGenerator::Date => {
                let d = generate_date(rng);
                Ok(d.text())
            },
            FieldGenerator::String { length } => Ok(generate_string(rng, *length)),
            FieldGenerator::Choice { choices, choice_length: _, length } => {
                if choices.len() == 0 {
                    Err(RowError::EmptyChoices { field: self.name.clone() })
                } else {
                    let cs = choices.as_slice();
                    let v = generate_choice(rng, cs, *length);
                    proof {
                        assert(cs.deep_view() =~= choices.deep_view());
                    }
                    Ok(v)
                }
            },
        }
    }
}

impl Schema {
    /// Appends one field; the rest of the schema is untouched.
    pub fn add_field(&mut self, f: Field)
        ensures
            final(self).fields@ == old(self).fields@.push(f),
            final(self).table_name == old(self).table_name,
            final(self).delimiter == old(self).delimiter,
    {
        self.fields.push(f);
    }

    /// The header line: field names under the same delimiter policy as the
    /// rows, terminated by a newline.
    pub fn generate_header(&self) -> (h: String)
        ensures
            h@ == header_text(*self),
    {
        let fixed = str_eq(self.delimiter.as_str(), "fixed");
        let delim: &str = if fixed {
            ""
        } else {
            self.delimiter.as_str()
        };
        proof {
            reveal_strlit("");
            assert(delim@ =~= effective_delim(*self));
        }
        let ghost names = field_names(*self);
        let mut out = String::new();
        let mut k: usize = 0;
        while k < self.fields.len()
            invariant
                k <= self.fields@.len(),
                names == field_names(*self),
                names.len() == self.fields@.len(),
                forall|j: int| 0 <= j < names.len() ==> names[j] == self.fields@[j].name@,
                delim@ == effective_delim(*self),
                out@ == join(names.take(k as int), effective_delim(*self)),
            decreases self.fields@.len() - k,
        {
            if k > 0 {
                out.append(delim);
            }
            out.append(self.fields[k].name.as_str());
            proof {
                assert(names.take(k as int + 1).drop_last() =~= names.take(k as int));
                assert(names.take(k as int + 1).last() == names[k as int]);
                if k == 0 {
                    assert(out@ =~= join(names.take(k as int + 1), effective_delim(*self)));
                }
            }
            k = k + 1;
        }
        push_char(&mut out, '\n');
        proof {
            assert(names.take(names.len() as int) =~= names);
            assert(out@ =~= header_text(*self));
        }
        out
    }

    /// One row: each field's value in schema order, laid out under the
    /// delimiter policy.  Under fixed-width layout a field without a width
    /// is an error, and a value that cannot be padded must already fill the
    /// width exactly.
    pub fn generate_row<R: RandomSource>(&self, rng: &mut R) -> (res: Result<String, RowError>)
        requires
            fields_input_ok(*self),
        ensures
            match res {
                Ok(r) => generated_row(*self, r@),
                Err(e) => row_error_witness(*self, e),
            },
            row_infallible(*self) ==> res is Ok,
    {
        let fixed = str_eq(self.delimiter.as_str(), "fixed");
        let mut cells: Vec<String> = Vec::new();
        let ghost mut vals: Seq<Seq<char>> = Seq::empty();
        let mut i: usize = 0;
        while i < self.fields.len()
            invariant
                fields_input_ok(*self),
                fixed == is_fixed(*self),
                i <= self.fields@.len(),
                vals.len() == i,
                cells@.len() == i,
                forall|j: int|
                    0 <= j < i ==> value_matches(
                        self.fields@[j].generator,
                        #[trigger] vals[j],
                    ),
                forall|j: int|
                    0 <= j < i ==> (#[trigger] cells@[j])@ == row_cell(
                        *self,
                        self.fields@[j],
                        vals[j],
                    ),
                is_fixed(*self) ==> forall|j: int|
                    0 <= j < i ==> {
                        &&& (#[trigger] self.fields@[j]).length is Some
                        &&& (self.fields@[j].padding is None ==> vals[j].len() == field_len(
                            self.fields@[j],
                        ))
                    },
            decreases self.fields@.len() - i,
        {
            let field = &self.fields[i];
            let value = match field.generate(rng) {
                Ok(v) => v,
                Err(e) => {
                    proof {
                        assert(field_gen_fails(self.fields@[i as int]));
                    }
                    return Err(e);
                },
            };
            let ghost gv = value@;
            let cell: String;
            if fixed {
                match field.length {
                    None => {
                        return Err(RowError::MissingLength { field: field.name.clone() });
                    },
                    Some(flen) => {
                        match field.padding {
                            Some(p) => {
                                cell = pad_left(value.as_str(), flen, p);
                            },
                            None => {
                                if value.as_str().unicode_len() != flen {
                                    return Err(
                                        RowError::PaddingMismatch { field: field.name.clone() },
                                    );
                                }
                                cell = value;
                            },
                        }
                    },
                }
            } else {
                cell = value;
            }
            cells.push(cell);
            proof {
                vals = vals.push(gv);
            }
            i = i + 1;
        }
        let delim: &str = if fixed {
            ""
        } else {
            self.delimiter.as_str()
        };
        proof {
            reveal_strlit("");
            assert(delim@ =~= effective_delim(*self));
        }
        let ghost cseq = row_cells(*self, vals);
        proof {
            assert(forall|j: int|
                0 <= j < cseq.len() ==> #[trigger] cseq[j] == row_cell(
                    *self,
                    self.fields@[j],
                    vals[j],
                ));
        }
        let mut out = String::new();
        let mut k: usize = 0;
        while k < cells.len()
            invariant
                k <= cells@.len(),
                cells@.len() == cseq.len(),
                forall|j: int| 0 <= j < cseq.len() ==> (#[trigger] cells@[j])@ == cseq[j],
                delim@ == effective_delim(*self),
                out@ == join(cseq.take(k as int), effective_delim(*self)),
            decreases cells@.len() - k,
        {
            if k > 0 {
                out.append(delim);
            }
            out.append(cells[k].as_str());
            proof {
                assert(cseq.take(k as int + 1).drop_last() =~= cseq.take(k as int));
                assert(cseq.take(k as int + 1).last() == cseq[k as int]);
                if k == 0 {
                    assert(out@ =~= join(cseq.take(k as int + 1), effective_delim(*self)));
                }
            }
            k = k + 1;
        }
        proof {
            assert(cseq.take(cseq.len() as int) =~= cseq);
            assert(row_values(*self, vals));
            assert(fixed_ok(*self, vals));
            assert(out@ == row_text(*self, vals));
        }
        Ok(out)
    }

    /// A batch: `size` rows, each terminated by one newline, concatenated.
    /// All-or-nothing: any row failure fails the whole batch.
    pub fn generate_rows<R: RandomSource>(&self, rng: &mut R, size: u64) -> (res: Result<
        String,
        RowError,
    >)
        requires
            fields_input_ok(*self),
        ensures
            match res {
                Ok(out) => exists|rows: Seq<Seq<char>>|
                    generated_rows(*self, rows, size as int) && out@ == lines_concat(rows),
                Err(e) => row_error_witness(*self, e),
            },
            row_infallible(*self) ==> res is Ok,
            size == 0 ==> (res matches Ok(out) && out@ == Seq::<char>::empty()),
    {
        let mut out = String::new();
        let ghost mut rows: Seq<Seq<char>> = Seq::empty();
        let mut n: u64 = 0;
        while n < size
            invariant
                fields_input_ok(*self),
                n <= size,
                rows.len() == n,
                forall|j: int| 0 <= j < rows.len() ==> generated_row(*self, #[trigger] rows[j]),
                out@ == lines_concat(rows),
            decreases size - n,
        {
            let ghost old_rows = rows;
            let row = match self.generate_row(rng) {
                Ok(r) => r,
                Err(e) => {
                    return Err(e);
                },
            };
            out.append(row.as_str());
            push_char(&mut out, '\n');
            proof {
                rows = rows.push(row@);
                assert(rows.drop_last() =~= old_rows);
                assert(out@ =~= lines_concat(rows));
            }
            n = n + 1;
        }
        Ok(out)
    }
}

/// The names of the schema's fields, in order.
pub open spec fn field_names(s: Schema) -> Seq<Seq<char>> {
    Seq::new(s.fields@.len(), |i: int| s.fields@[i].name@)
}

/// The header line: names joined under the delimiter policy, then a newline.
pub open spec fn header_text(s: Schema) -> Seq<char> {
    join(field_names(s), effective_delim(s)).push('\n')
}

/// Exactly `count` rows, each one this schema can generate.
pub open spec fn generated_rows(s: Schema, rows: Seq<Seq<char>>, count: int) -> bool {
    &&& rows.len() == count
    &&& forall|i: int| 0 <= i < rows.len() ==> generated_row(s, #[trigger] rows[i])
}

/// A batch's text: each row followed by one newline.
pub open spec fn lines_concat(rows: Seq<Seq<char>>) -> Seq<char>
    decreases rows.len(),
{
    if rows.len() == 0 {
        Seq::empty()
    } else {
        lines_concat(rows.drop_last()) + rows.last() + seq!['\n']
    }
}

/// The conditions under which no value this generator kind can produce
/// contains the character `c`.
pub open spec fn generator_avoids(g: FieldGenerator, c: char) -> bool {
    match g {
        FieldGenerator::NoGen => c != 'N' && c != 'o' && c != 'n' && c != 'e',
        FieldGenerator::Integer { .. } => !is_dec_digit(c) && c != '-',
        FieldGenerator::Gauss { .. } => !is_dec_digit(c) && c != '-',
        FieldGenerator::Date => !is_dec_digit(c) && c != '-',
        FieldGenerator::String { .. } => !crate::generators::is_uppercase(c),
        FieldGenerator::Choice { choices, .. } => forall|i: int|
            0 <= i < choices@.len() ==> avoids((#[trigger] choices@[i])@, c),
    }
}

/// The schema cannot put `c` into a row: no generator can produce it, no
/// padding character is it, and the delimiter does not contain it.
pub open spec fn schema_avoids(s: Schema, c: char) -> bool {
    &&& avoids(effective_delim(s), c)
    &&& forall|i: int|
        0 <= i < s.fields@.len() ==> {
            &&& generator_avoids((#[trigger] s.fields@[i]).generator, c)
            &&& (s.fields@[i].padding matches Some(p) ==> p != c)
        }
}

/// Any value a generator kind can produce avoids `c`, under
/// `generator_avoids`.
pub proof fn lemma_value_avoids(g: FieldGenerator, v: Seq<char>, c: char)
    requires
        value_matches(g, v),
        generator_avoids(g, c),
    ensures
        avoids(v, c),
{
    match g {
        FieldGenerator::NoGen => {
            reveal_strlit("None");
            assert(v.len() == 4);
            assert forall|i: int| 0 <= i < v.len() implies v[i] != c by {
                assert(v[0] == 'N' && v[1] == 'o' && v[2] == 'n' && v[3] == 'e');
            }
        },
        FieldGenerator::Integer { min, max } => {
            let k = choose|k: int| min <= k < max && v == int_str(k);
            lemma_int_str_chars(k);
        },
        FieldGenerator::Gauss { mean, std_dev } => {
            let k = choose|k: int| i32::MIN <= k <= i32::MAX && v == int_str(k);
            lemma_int_str_chars(k);
        },
        FieldGenerator::Date => {
            let d = choose|d: Date| d.wf() && v == date_text(d);
            lemma_date_text_avoids(d, c);
        },
        FieldGenerator::String { length } => {
        },
        FieldGenerator::Choice { choices, choice_length, length } => {
            let picks = choose|picks: Seq<int>|
                picks_ok(choices.deep_view(), picks, length as int) && v == concat_picks(
                    choices.deep_view(),
                    picks,
                );
            assert forall|i: int| 0 <= i < choices.deep_view().len() implies avoids(
                #[trigger] choices.deep_view()[i],
                c,
            ) by {
                assert(choices.deep_view()[i] == choices@[i]@);
            }
            lemma_concat_picks_avoids(choices.deep_view(), picks, c);
        },
    }
}

/// A join of parts that all avoid `c`, with a delimiter that avoids it,
/// avoids it.
pub proof fn lemma_join_avoids(parts: Seq<Seq<char>>, delim: Seq<char>, c: char)
    requires
        forall|i: int| 0 <= i < parts.len() ==> avoids(#[trigger] parts[i], c),
        avoids(delim, c),
    ensures
        avoids(join(parts, delim), c),
    decreases parts.len(),
{
    if parts.len() > 1 {
        lemma_join_avoids(parts.drop_last(), delim, c);
        lemma_avoids_concat(join(parts.drop_last(), delim), delim, c);
        lemma_avoids_concat(join(parts.drop_last(), delim) + delim, parts.last(), c);
    }
}

/// Any row the schema can generate avoids `c`, under `schema_avoids`.
pub proof fn lemma_row_avoids(s: Schema, r: Seq<char>, c: char)
    requires
        generated_row(s, r),
        schema_avoids(s, c),
    ensures
        avoids(r, c),
{
    let vals = choose|vals: Seq<Seq<char>>|
        row_values(s, vals) && fixed_ok(s, vals) && r == row_text(s, vals);
    let cells = row_cells(s, vals);
    assert forall|i: int| 0 <= i < cells.len() implies avoids(#[trigger] cells[i], c) by {
        lemma_value_avoids(s.fields@[i].generator, vals[i], c);
        assert(cells[i] == row_cell(s, s.fields@[i], vals[i]));
        if is_fixed(s) {
            match s.fields@[i].padding {
                Some(p) => {
                    lemma_avoids_left_pad(vals[i], field_len(s.fields@[i]), p, c);
                },
                None => {
                },
            }
        }
    }
    lemma_join_avoids(cells, effective_delim(s), c);
}

/// Row texts that avoid newlines stack into a batch with one newline per
/// row, the last character being one.
pub proof fn lemma_lines_count(rows: Seq<Seq<char>>)
    requires
        forall|i: int| 0 <= i < rows.len() ==> avoids(#[trigger] rows[i], '\n'),
    ensures
        count_char(lines_concat(rows), '\n') == rows.len(),
        rows.len() > 0 ==> lines_concat(rows).len() > 0 && lines_concat(rows).last() == '\n',
    decreases rows.len(),
{
    if rows.len() > 0 {
        let head = lines_concat(rows.drop_last());
        let last = rows.last();
        lemma_lines_count(rows.drop_last());
        lemma_count_char_zero(last, '\n');
        lemma_count_char_concat(head, last, '\n');
        lemma_count_char_concat(head + last, seq!['\n'], '\n');
        assert(seq!['\n'].drop_last() =~= Seq::<char>::empty());
        assert(count_char(Seq::<char>::empty(), '\n') == 0);
        assert(count_char(seq!['\n'], '\n') == 1);
    }
}

/// Law: a batch of rows from a schema that cannot emit newlines is exactly
/// one newline-terminated line per row.
pub proof fn lemma_batch_line_count(s: Schema, rows: Seq<Seq<char>>)
    requires
        schema_avoids(s, '\n'),
        generated_rows(s, rows, rows.len() as int),
    ensures
        count_char(lines_concat(rows), '\n') == rows.len(),
        rows.len() > 0 ==> lines_concat(rows).len() > 0 && lines_concat(rows).last() == '\n',
{
    assert forall|i: int| 0 <= i < rows.len() implies avoids(#[trigger] rows[i], '\n') by {
        lemma_row_avoids(s, rows[i], '\n');
    }
    lemma_lines_count(rows);
}

/// The widths of the first `k` fields, summed.
pub open spec fn widths_sum(s: Schema, k: int) -> int
    decreases k,
{
    if k <= 0 {
        0
    } else {
        widths_sum(s, k - 1) + field_len(s.fields@[k - 1])
    }
}

/// Undoes a cell's padding: strips the field's padding character from the
/// left, or leaves an unpadded cell alone.
pub open spec fn strip_cell(f: Field, cell: Seq<char>) -> Seq<char> {
    match f.padding {
        Some(p) => strip_left(cell, p),
        None => cell,
    }
}

proof fn lemma_widths_sum_eq(s: Schema, vals: Seq<Seq<char>>, k: int)
    requires
        vals.len() <= s.fields@.len(),
        0 <= k <= vals.len(),
        forall|j: int|
            0 <= j < vals.len() ==> (#[trigger] row_cells(s, vals)[j]).len() == field_len(
                s.fields@[j],
            ),
    ensures
        widths_sum(s, k) == parts_len_sum(row_cells(s, vals), k),
    decreases k,
{
    if k > 0 {
        lemma_widths_sum_eq(s, vals, k - 1);
    }
}

/// Law: fixed-width round trip.  In a fixed-width row built from values
/// that fit their widths, field `i`'s cell sits exactly between the summed
/// widths before and through it, and stripping its padding character (which
/// the value must not itself begin with) recovers the generated value at
/// its natural length.
pub proof fn lemma_fixed_round_trip(s: Schema, vals: Seq<Seq<char>>, i: int)
    requires
        is_fixed(s),
        row_values(s, vals),
        fixed_ok(s, vals),
        forall|j: int|
            0 <= j < vals.len() ==> (#[trigger] vals[j]).len() <= field_len(s.fields@[j]),
        0 <= i < vals.len(),
        (s.fields@[i].padding matches Some(p) ==> (vals[i].len() > 0 ==> vals[i][0] != p)),
    ensures
        row_text(s, vals).len() == widths_sum(s, vals.len() as int),
        row_text(s, vals).subrange(widths_sum(s, i), widths_sum(s, i + 1)) == row_cells(
            s,
            vals,
        )[i],
        strip_cell(
            s.fields@[i],
            row_text(s, vals).subrange(widths_sum(s, i), widths_sum(s, i + 1)),
        ) == vals[i],
{
    let cells = row_cells(s, vals);
    assert forall|j: int| 0 <= j < vals.len() implies (#[trigger] cells[j]).len() == field_len(
        s.fields@[j],
    ) by {
        assert(cells[j] == fixed_cell(s.fields@[j], vals[j]));
        match s.fields@[j].padding {
            Some(p) => {
                assert(fixed_cell(s.fields@[j], vals[j]) == left_pad(
                    vals[j],
                    field_len(s.fields@[j]),
                    p,
                ));
            },
            None => {
            },
        }
    }
    lemma_widths_sum_eq(s, vals, vals.len() as int);
    lemma_widths_sum_eq(s, vals, i);
    lemma_widths_sum_eq(s, vals, i + 1);
    assert(effective_delim(s) =~= Seq::<char>::empty());
    lemma_join_empty_len(cells);
    lemma_join_empty_slice_at(cells, i);
    match s.fields@[i].padding {
        Some(p) => {
            assert(cells[i] == left_pad(vals[i], field_len(s.fields@[i]), p));
            lemma_strip_left_pad(vals[i], field_len(s.fields@[i]), p);
        },
        None => {
            assert(cells[i] == vals[i]);
        },
    }
}

} // verus!
