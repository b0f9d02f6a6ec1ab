//! The records of a curve file.
//!
//! A curve file holds one point per line: two numbers, the x and the y
//! coordinate, with blanks between them, and before them, if the writer
//! wished, a sequence number that is not read. This module finds the fields
//! of a line, tells which of them hold the coordinates, and sees to it that
//! these are written as numbers; working out the value of a number is left to
//! the caller.

use vstd::prelude::*;

verus! {

/// Whether a byte separates fields: a space, a tab, a line feed, a vertical
/// tab, a form feed or a carriage return.
pub open spec fn is_blank(b: u8) -> bool {
    b == 32 || (9 <= b && b <= 13)
}

/// The bytes of `line` from `a` up to `b` are a field: a run of bytes that
/// are not blank, with a blank or an end of the line on either side.
pub open spec fn is_field(line: Seq<u8>, a: int, b: int) -> bool {
    &&& 0 <= a < b <= line.len()
    &&& forall|k: int| a <= k < b ==> !is_blank(#[trigger] line[k])
    &&& (a == 0 || is_blank(line[a - 1]))
    &&& (b == line.len() || is_blank(line[b]))
}

/// Where a field stands in its line: from the byte at `start` up to the byte
/// before `end`.
#[derive(Clone, Copy, Debug, PartialEq, Eq, Structural)]
pub struct Field {
    pub start: usize,
    pub end: usize,
}

/// The list `fields` names the field from `a` up to `b`.
pub open spec fn names(fields: Seq<Field>, a: int, b: int) -> bool {
    exists|k: int| 0 <= k < fields.len() && (#[trigger] fields[k]).start == a && fields[k].end == b
}

/// The list `fields` holds the fields of `line`, each once, from left to
/// right: every entry is a field, each starts before the next, and no field
/// of the line is missing.
pub open spec fn fields_of(line: Seq<u8>, fields: Seq<Field>) -> bool {
    &&& forall|k: int|
        0 <= k < fields.len() ==> is_field(line, (#[trigger] fields[k]).start as int, fields[k].end as int)
    &&& forall|k: int, m: int|
        0 <= k < m < fields.len() ==> (#[trigger] fields[k]).start < (#[trigger] fields[m]).start
    &&& forall|a: int, b: int| #[trigger] is_field(line, a, b) ==> names(fields, a, b)
}

/// Whether a byte is a decimal digit.
pub open spec fn is_digit(b: u8) -> bool {
    48 <= b && b <= 57
}

/// Whether a byte is a plus or a minus sign.
pub open spec fn is_sign(b: u8) -> bool {
    b == 43 || b == 45
}

/// Whether a byte is the decimal point.
pub open spec fn is_point(b: u8) -> bool {
    b == 46
}

/// Whether a byte is the letter that starts an exponent, small or capital.
pub open spec fn is_exponent_mark(b: u8) -> bool {
    b == 101 || b == 69
}

/// The bytes of `s` from `a` up to `b` are a mantissa: digits with at most
/// one decimal point before, among or after them, and at least one digit.
pub open spec fn is_mantissa(s: Seq<u8>, a: int, b: int) -> bool {
    &&& forall|k: int| a <= k < b ==> is_digit(#[trigger] s[k]) || is_point(s[k])
    &&& forall|i: int, j: int|
        a <= i < j < b ==> !(is_point(#[trigger] s[i]) && is_point(#[trigger] s[j]))
    &&& exists|k: int| a <= k < b && is_digit(#[trigger] s[k])
}

/// The bytes of `s` from `a` up to `b` are digits, at least one.
pub open spec fn is_digits(s: Seq<u8>, a: int, b: int) -> bool {
    a < b && forall|k: int| a <= k < b ==> is_digit(#[trigger] s[k])
}

/// Where the bytes of `s` from `a` up to `b` go on after a sign, if they
/// start with one.
pub open spec fn past_sign(s: Seq<u8>, a: int, b: int) -> int {
    if a < b && is_sign(s[a]) {
        a + 1
    } else {
        a
    }
}

/// The bytes of `s` from `a` up to `b` are a numeral: a sign or none, a
/// mantissa, and an exponent or none, which is its mark, a sign or none,
/// and digits.
pub open spec fn is_numeral(s: Seq<u8>, a: int, b: int) -> bool {
    let c = past_sign(s, a, b);
    ||| is_mantissa(s, c, b)
    ||| exists|m: int|
        c <= m < b && is_exponent_mark(#[trigger] s[m]) && is_mantissa(s, c, m) && is_digits(
            s,
            past_sign(s, m + 1, b),
            b,
        )
}

/// The field lies within the line and holds a numeral.
pub open spec fn holds_numeral(line: Seq<u8>, field: Field) -> bool {
    field.start <= field.end <= line.len() && is_numeral(
        line,
        field.start as int,
        field.end as int,
    )
}

/// What a line of a curve file holds.
#[derive(Clone, Copy, Debug, PartialEq, Eq, Structural)]
pub enum Record {
    /// Nothing to read: the line is blank or has a single field.
    Skip,
    /// A point: the field of the x coordinate and the field of the y
    /// coordinate.
    Pair { x: Field, y: Field },
    /// More than three fields, or a coordinate that is no numeral: no point
    /// is written so.
    Malformed,
}

/// The record that `line` holds, given its fields. Two fields are the
/// coordinates; of three the first is a sequence number, which may be
/// written in any way, and the other two are the coordinates. Coordinates
/// are numerals.
pub open spec fn record_of(line: Seq<u8>, fields: Seq<Field>) -> Record {
    if fields.len() < 2 {
        Record::Skip
    } else if fields.len() > 3 {
        Record::Malformed
    } else {
        let x = fields[fields.len() - 2];
        let y = fields[fields.len() - 1];
        if holds_numeral(line, x) && holds_numeral(line, y) {
            Record::Pair { x, y }
        } else {
            Record::Malformed
        }
    }
}

/// Tells whether a byte separates fields.
pub fn blank(b: u8) -> (r: bool)
    ensures
        r == is_blank(b),
{
    b == 32 || (9 <= b && b <= 13)
}

/// Finds the fields of a line.
pub fn split_fields(line: &Vec<u8>) -> (fields: Vec<Field>)
    ensures
        fields_of(line@, fields@),
{
    let n: usize = line.len();
    let mut fields: Vec<Field> = Vec::new();
    let mut i: usize = 0;
    while i < n
        invariant
            n == line.len(),
            i <= n,
            i == 0 || is_blank(line@[i - 1]) || i == n || is_blank(line@[i as int]),
            forall|k: int|
                0 <= k < fields.len() ==> is_field(
                    line@,
                    (#[trigger] fields@[k]).start as int,
                    fields@[k].end as int,
                ),
            forall|k: int| 0 <= k < fields.len() ==> (#[trigger] fields@[k]).start < i,
            forall|k: int, m: int|
                0 <= k < m < fields.len() ==> (#[trigger] fields@[k]).start < (#[trigger] fields@[m]).start,
            forall|a: int, b: int| #[trigger] is_field(line@, a, b) && a < i ==> names(fields@, a, b),
        decreases n - i,
    {
        if blank(line[i]) {
            i += 1;
        } else {
            let start: usize = i;
            while i < n && !blank(line[i])
                invariant
                    n == line.len(),
                    start <= i <= n,
                    forall|k: int| start <= k < i ==> !is_blank(#[trigger] line@[k]),
                decreases n - i,
            {
                i += 1;
            }
            let ghost before = fields@;
            fields.push(Field { start, end: i });
            proof {
                assert(is_field(line@, start as int, i as int));
                assert forall|a: int, b: int| #[trigger]
                    is_field(line@, a, b) && a < i implies names(fields@, a, b) by {
                    if a < start {
                        let k = choose|k: int|
                            0 <= k < before.len() && (#[trigger] before[k]).start == a && before[k].end
                                == b;
                        assert(fields@[k] == before[k]);
                    } else {
                        if a > start {
                            assert(!is_blank(line@[a - 1]));
                        }
                        if b < i {
                            assert(!is_blank(line@[b]));
                        }
                        if b > i {
                            assert(!is_blank(line@[i as int]));
                        }
                        assert(fields@[before.len() as int] == (Field { start, end: i }));
                    }
                }
            }
        }
    }
    fields
}

/// Tells whether a byte is a decimal digit.
pub fn digit(b: u8) -> (r: bool)
    ensures
        r == is_digit(b),
{
    48 <= b && b <= 57
}

/// Tells whether a byte is a digit or the decimal point.
fn in_mantissa(b: u8) -> (r: bool)
    ensures
        r == (is_digit(b) || is_point(b)),
{
    (48 <= b && b <= 57) || b == 46
}

/// Tells whether a field lies within its line and holds a numeral.
pub fn numeral(line: &Vec<u8>, field: Field) -> (r: bool)
    ensures
        r == holds_numeral(line@, field),
{
    let b: usize = field.end;
    if field.start > b || b > line.len() {
        return false;
    }
    let mut i: usize = field.start;
    if i < b && (line[i] == 43 || line[i] == 45) {
        i += 1;
    }
    let c: usize = i;
    let mut seen_digit: bool = false;
    let mut seen_point: bool = false;
    let mut twice: bool = false;
    while i < b && in_mantissa(line[i])
        invariant
            c <= i <= b <= line.len(),
            forall|k: int| c <= k < i ==> is_digit(#[trigger] line@[k]) || is_point(line@[k]),
            seen_digit == exists|k: int| c <= k < i && is_digit(#[trigger] line@[k]),
            seen_point == exists|k: int| c <= k < i && is_point(#[trigger] line@[k]),
            twice == exists|k: int, m: int|
                c <= k < m < i && is_point(#[trigger] line@[k]) && is_point(#[trigger] line@[m]),
        decreases b - i,
    {
        if line[i] == 46 {
            if seen_point {
                twice = true;
            }
            seen_point = true;
        } else {
            seen_digit = true;
        }
        i += 1;
    }
    // A numeral's mantissa ends here: at the end of the field, or at the
    // first byte that is neither a digit nor a point.
    assert forall|m: int|
        c <= m < b && is_exponent_mark(#[trigger] line@[m]) && is_mantissa(
            line@,
            c as int,
            m,
        ) implies m == i by {
        if m < i {
            assert(is_digit(line@[m]) || is_point(line@[m]));
        }
        if i < m {
            assert(is_digit(line@[i as int]) || is_point(line@[i as int]));
        }
    }
    if i < b {
        assert(!is_mantissa(line@, c as int, b as int)) by {
            if is_mantissa(line@, c as int, b as int) {
                assert(is_digit(line@[i as int]) || is_point(line@[i as int]));
            }
        }
    }
    if !seen_digit || twice {
        return false;
    }
    if i == b {
        return true;
    }
    if !(line[i] == 101 || line[i] == 69) {
        return false;
    }
    let mark: usize = i;
    i += 1;
    if i < b && (line[i] == 43 || line[i] == 45) {
        i += 1;
    }
    let from: usize = i;
    while i < b && digit(line[i])
        invariant
            from <= i <= b <= line.len(),
            forall|k: int| from <= k < i ==> is_digit(#[trigger] line@[k]),
        decreases b - i,
    {
        i += 1;
    }
    if i < b {
        assert(!is_digits(line@, from as int, b as int)) by {
            if is_digits(line@, from as int, b as int) {
                assert(is_digit(line@[i as int]));
            }
        }
    }
    assert(is_exponent_mark(line@[mark as int]));
    from < b && i == b
}

/// Reads a line of a curve file.
pub fn read_record(line: &Vec<u8>) -> (r: Record)
    ensures
        exists|fields: Seq<Field>| #[trigger] fields_of(line@, fields) && r == record_of(line@, fields),
{
    let fields = split_fields(line);
    let count: usize = fields.len();
    if count < 2 {
        Record::Skip
    } else if count > 3 {
        Record::Malformed
    } else {
        let x = fields[count - 2];
        let y = fields[count - 1];
        if numeral(line, x) && numeral(line, y) {
            Record::Pair { x, y }
        } else {
            Record::Malformed
        }
    }
}

/// A line has one list of fields only.
pub proof fn lemma_fields_unique(line: Seq<u8>, f: Seq<Field>, g: Seq<Field>)
    requires
        fields_of(line, f),
        fields_of(line, g),
    ensures
        f == g,
    decreases f.len() + g.len(),
{
    if f.len() == 0 {
        if g.len() > 0 {
            assert(is_field(line, g[0].start as int, g[0].end as int));
            assert(names(f, g[0].start as int, g[0].end as int));
        }
        assert(f =~= g);
    } else if g.len() == 0 {
        assert(is_field(line, f[0].start as int, f[0].end as int));
        assert(names(g, f[0].start as int, f[0].end as int));
    } else {
        lemma_same_prefix(line, f, g, f.len() as int);
        lemma_same_prefix(line, g, f, g.len() as int);
        assert(f =~= g);
    }
}

/// Two lists of the fields of one line agree on their first `n` entries.
proof fn lemma_same_prefix(line: Seq<u8>, f: Seq<Field>, g: Seq<Field>, n: int)
    requires
        fields_of(line, f),
        fields_of(line, g),
        0 <= n <= f.len(),
    ensures
        n <= g.len(),
        forall|k: int| 0 <= k < n ==> f[k] == g[k],
    decreases n,
{
    if n > 0 {
        lemma_same_prefix(line, f, g, n - 1);
        let k = n - 1;
        // The field f[k] stands somewhere in g, and not among the first k.
        assert(is_field(line, f[k].start as int, f[k].end as int));
        assert(names(g, f[k].start as int, f[k].end as int));
        let m = choose|m: int| 0 <= m < g.len() && (#[trigger] g[m]).start == f[k].start && g[m].end == f[k].end;
        if m < k {
            assert(g[m] == f[m]);
            assert(f[m].start < f[k].start);
        }
        // Nor does it stand after place k: then g[k] would stand in f before f[k].
        if m > k {
            assert(is_field(line, g[k].start as int, g[k].end as int));
            assert(names(f, g[k].start as int, g[k].end as int));
            let j = choose|j: int|
                0 <= j < f.len() && (#[trigger] f[j]).start == g[k].start && f[j].end == g[k].end;
            assert(g[k].start < g[m].start);
            if j < k {
                assert(f[j] == g[j]);
                assert(g[j].start < g[k].start);
            } else if j > k {
                assert(f[k].start < f[j].start);
            }
        }
        assert(m == k);
    }
}

} // verus!
