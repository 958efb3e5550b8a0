//! The retired monolith's CSV export: its quoting grammar and its rows.

use vstd::prelude::*;
use crate::json::string_views;
use crate::legacy::LegacyTransitionError;
use crate::text::{chars_of, string_of};

verus! {

/// The rows of a CSV text read from position `i`, given the rows finished so
/// far, the fields of the current row, the current field, whether a quoted
/// field is open and whether one just closed. `None` for malformed quoting:
/// text after a closing quote, or a quote left open at the end.
///
/// A quote opens a quoted field only at the start of a field; inside one, a
/// doubled quote stands for a quote. A comma ends a field and a line feed ends
/// a row (a carriage return before the line feed is dropped). A final row
/// without a line feed still counts unless it is empty.
pub open spec fn csv_from(
    s: Seq<char>,
    i: int,
    rows: Seq<Seq<Seq<char>>>,
    row: Seq<Seq<char>>,
    field: Seq<char>,
    quoted: bool,
    closed: bool,
) -> Option<Seq<Seq<Seq<char>>>>
    decreases s.len() - i,
{
    if i < 0 || i >= s.len() {
        if quoted {
            None
        } else if field.len() > 0 || row.len() > 0 {
            Some(rows.push(row.push(field)))
        } else {
            Some(rows)
        }
    } else {
        let c = s[i];
        let next_is = |d: char| i + 1 < s.len() && s[i + 1] == d;
        if quoted {
            if c == '"' {
                if next_is('"') {
                    csv_from(s, i + 2, rows, row, field.push('"'), true, closed)
                } else {
                    csv_from(s, i + 1, rows, row, field, false, true)
                }
            } else {
                csv_from(s, i + 1, rows, row, field.push(c), true, closed)
            }
        } else if c == '"' && field.len() == 0 && !closed {
            csv_from(s, i + 1, rows, row, field, true, closed)
        } else if c == ',' {
            csv_from(s, i + 1, rows, row.push(field), Seq::empty(), false, false)
        } else if c == '\n' {
            let f = if field.len() > 0 && field.last() == '\r' && !closed { field.drop_last() } else { field };
            csv_from(s, i + 1, rows.push(row.push(f)), Seq::empty(), Seq::empty(), false, false)
        } else if c == '\r' && next_is('\n') {
            csv_from(s, i + 1, rows, row, field, false, closed)
        } else if closed {
            None
        } else {
            csv_from(s, i + 1, rows, row, field.push(c), false, closed)
        }
    }
}

/// The rows of a CSV text, each a sequence of fields.
pub open spec fn csv_rows(s: Seq<char>) -> Option<Seq<Seq<Seq<char>>>> {
    csv_from(s, 0, Seq::empty(), Seq::empty(), Seq::empty(), false, false)
}

/// The character views of rows of strings.
pub open spec fn rows_view(rows: Seq<Vec<String>>) -> Seq<Seq<Seq<char>>> {
    Seq::new(rows.len(), |i: int| string_views(rows[i]@))
}

/// Splits a CSV text into rows of fields; malformed quoting is an encoding error.
pub fn parse_csv(source: &str) -> (r: Result<Vec<Vec<String>>, LegacyTransitionError>)
    ensures
        match csv_rows(source@) {
            Some(rows) => r matches Ok(v) && rows_view(v@) == rows,
            None => r == Err::<Vec<Vec<String>>, LegacyTransitionError>(LegacyTransitionError::InvalidEncoding),
        },
{
    let s = chars_of(source);
    let mut rows: Vec<Vec<String>> = Vec::new();
    let mut row: Vec<String> = Vec::new();
    let mut field: Vec<char> = Vec::new();
    let mut quoted = false;
    let mut closed = false;
    let mut i: usize = 0;
    assert(rows_view(rows@) =~= Seq::<Seq<Seq<char>>>::empty());
    assert(string_views(row@) =~= Seq::<Seq<char>>::empty());
    assert(field@ =~= Seq::<char>::empty());
    while i < s.len()
        invariant
            i <= s.len(),
            s@ == source@,
            csv_from(s@, i as int, rows_view(rows@), string_views(row@), field@, quoted, closed) == csv_rows(source@),
        decreases s.len() - i,
    {
        let c = s[i];
        let next_quote = i + 1 < s.len() && s[i + 1] == '"';
        let next_line = i + 1 < s.len() && s[i + 1] == '\n';
        if quoted {
            if c == '"' {
                if next_quote {
                    field.push('"');
                    i += 2;
                } else {
                    quoted = false;
                    closed = true;
                    i += 1;
                }
            } else {
                field.push(c);
                i += 1;
            }
        } else if c == '"' && field.len() == 0 && !closed {
            quoted = true;
            i += 1;
        } else if c == ',' {
            let ghost before = string_views(row@);
            row.push(string_of(&field));
            assert(string_views(row@) =~= before.push(field@));
            field = Vec::new();
            closed = false;
            i += 1;
        } else if c == '\n' {
            if field.len() > 0 && field[field.len() - 1] == '\r' && !closed {
                field.pop();
            }
            let ghost before = string_views(row@);
            row.push(string_of(&field));
            assert(string_views(row@) =~= before.push(field@));
            let ghost before_rows = rows_view(rows@);
            let finished = row;
            rows.push(finished);
            assert(rows_view(rows@) =~= before_rows.push(string_views(finished@)));
            row = Vec::new();
            assert(string_views(row@) =~= Seq::<Seq<char>>::empty());
            field = Vec::new();
            closed = false;
            i += 1;
        } else if c == '\r' && next_line {
            i += 1;
        } else if closed {
            return Err(LegacyTransitionError::InvalidEncoding);
        } else {
            field.push(c);
            i += 1;
        }
    }
    if quoted {
        return Err(LegacyTransitionError::InvalidEncoding);
    }
    if field.len() > 0 || row.len() > 0 {
        let ghost before = string_views(row@);
        row.push(string_of(&field));
        assert(string_views(row@) =~= before.push(field@));
        let ghost before_rows = rows_view(rows@);
        let finished = row;
        rows.push(finished);
        assert(rows_view(rows@) =~= before_rows.push(string_views(finished@)));
    }
    Ok(rows)
}

} // verus!
