use vstd::prelude::*;

use crate::number::{is_float_text, is_float_text_exec};
use crate::text::{is_safe_char, is_safe_char_exec};

verus! {

/// Why a search cannot be compiled.
#[derive(Debug, Clone, Copy, PartialEq, Eq, Structural)]
pub enum ValidationError {
    /// A criterion names no field.
    EmptyFieldName,
    /// A range bound is not a number.
    NotANumber,
    /// A field names no column of the table.
    UnknownField,
}

/// A field label as a column name: every space becomes an underscore.
pub open spec fn column_name_of(s: Seq<char>) -> Seq<char> {
    Seq::new(s.len(), |i: int| if s[i] == ' ' { '_' } else { s[i] })
}

/// Turns a field label into a column name; an empty label is refused.
pub fn sql_check_name(s: &String) -> (r: Result<String, ValidationError>)
    ensures
        s@.len() == 0 ==> r == Err::<String, ValidationError>(ValidationError::EmptyFieldName),
        s@.len() > 0 ==> r is Ok && r->Ok_0@ == column_name_of(s@),
{
    let n = s.as_str().unicode_len();
    if n == 0 {
        return Err(ValidationError::EmptyFieldName);
    }
    let mut out = String::new();
    let mut i: usize = 0;
    while i < n
        invariant
            n == s@.len(),
            i <= n,
            out@ =~= column_name_of(s@.take(i as int)),
        decreases n - i,
    {
        let c = s.as_str().get_char(i);
        if c == ' ' {
            out.push('_');
        } else {
            out.push(c);
        }
        i = i + 1;
        assert(out@ =~= column_name_of(s@.take(i as int)));
    }
    assert(s@.take(n as int) =~= s@);
    Ok(out)
}

/// What is left of a text once every character outside the safe class is dropped.
pub open spec fn safe_text(s: Seq<char>) -> Seq<char> {
    s.filter(|c: char| is_safe_char(c))
}

/// Keeps, in order, the characters of `s` that are safe in a quoted SQL literal.
fn keep_safe_chars(s: &String) -> (r: String)
    ensures
        r@ == safe_text(s@),
{
    let n = s.as_str().unicode_len();
    let mut out = String::new();
    let mut i: usize = 0;
    while i < n
        invariant
            n == s@.len(),
            i <= n,
            out@ == safe_text(s@.take(i as int)),
        decreases n - i,
    {
        let c = s.as_str().get_char(i);
        proof {
            assert(s@.take(i + 1) =~= s@.take(i as int).push(c));
            s@.take(i as int).lemma_filter_push(c, |c: char| is_safe_char(c));
        }
        if is_safe_char_exec(c) {
            out.push(c);
        }
        i = i + 1;
    }
    assert(s@.take(n as int) =~= s@);
    out
}

/// Escapes a text for a quoted SQL literal by dropping every character
/// outside ASCII letters and digits, white space, `-`, `_`, `.` and `,`.
pub fn sql_stringarg_escape(s: &String) -> (r: String)
    ensures
        r@ == safe_text(s@),
{
    keep_safe_chars(s)
}

/// Cleans a record identifier before a file name is built from it: the same
/// character class as a quoted SQL literal, every other character dropped.
pub fn clean_btyper_id(s: &String) -> (r: String)
    ensures
        r@ == safe_text(s@),
{
    keep_safe_chars(s)
}

/// Passes on a range bound that reads as a number; any other text is refused.
pub fn sql_stringarg_to_num(s: &String) -> (r: Result<String, ValidationError>)
    ensures
        is_float_text(s@) ==> r is Ok && r->Ok_0@ == s@,
        !is_float_text(s@) ==> r == Err::<String, ValidationError>(ValidationError::NotANumber),
{
    if is_float_text_exec(s.as_str()) {
        Ok(s.clone())
    } else {
        Err(ValidationError::NotANumber)
    }
}

} // verus!
