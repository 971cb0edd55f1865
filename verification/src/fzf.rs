//! Picking an entry with fzf: what the picker's answer means.
//!
//! The picker is shown lines whose first tab-separated column is an id;
//! running it is I/O, reading its answer is decided here.
use vstd::prelude::*;
use crate::split::{char_vec_views, fields_acc, fields_of, split_fields, trim_spec, trim_str};
use crate::text::{
    chars_of, decimal, is_ascii_digit, lemma_decimal_digits, parse_u32, parse_u32_spec, push_str_chars,
    string_from_chars, unsigned_digits,
};

verus! {

/// `str::split` always yields at least one field.
pub proof fn lemma_fields_nonempty(s: Seq<char>, sep: char, k: int, start: int)
    ensures
        fields_acc(s, sep, k, start).len() >= 1,
    decreases s.len() - k,
{
    if k < s.len() {
        if s[k] == sep {
            lemma_fields_nonempty(s, sep, k + 1, k + 1);
        } else {
            lemma_fields_nonempty(s, sep, k + 1, start);
        }
    }
}

/// The first column of a picked line: the text before its first tab.
pub open spec fn first_column(line: Seq<char>) -> Seq<char> {
    fields_of(line, '\t')[0]
}

/// The message when the first column of a picked line is no id.
pub open spec fn selection_error(entity_type: Seq<char>) -> Seq<char> {
    "Failed to parse "@ + entity_type + " ID from selection"@
}

/// Reads the id in the first column of the line the picker returned.
/// It fails, with the message of `selection_error`, exactly when that
/// column is not a `u32` as `str::parse` reads it.
pub fn parse_id_from_selection(selected: &str, entity_type: &str) -> (r: Result<u32, String>)
    ensures
        match r {
            Ok(id) => parse_u32_spec(first_column(selected@)) == Some(id),
            Err(m) => parse_u32_spec(first_column(selected@)) is None && m@ == selection_error(entity_type@),
        },
{
    let cs = chars_of(selected);
    let fields = split_fields(cs.as_slice(), '\t');
    proof {
        lemma_fields_nonempty(cs@, '\t', 0, 0);
        assert(char_vec_views(fields@).len() == fields@.len());
    }
    let first = &fields[0];
    assert(first@ == char_vec_views(fields@)[0]);
    match parse_u32(first.as_slice()) {
        Some(id) => Ok(id),
        None => {
            let mut out: Vec<char> = Vec::new();
            push_str_chars(&mut out, "Failed to parse ");
            push_str_chars(&mut out, entity_type);
            push_str_chars(&mut out, " ID from selection");
            proof {
                reveal_strlit("Failed to parse ");
                reveal_strlit(" ID from selection");
            }
            Err(string_from_chars(out.as_slice()))
        },
    }
}

/// While no separator comes before `end`, where one stands, the first field
/// is everything before `end`.
proof fn lemma_first_field_until(s: Seq<char>, sep: char, k: int, end: int)
    requires
        0 <= k <= end < s.len(),
        s[end] == sep,
        forall|j: int| k <= j < end ==> s[j] != sep,
    ensures
        fields_acc(s, sep, k, 0)[0] == s.subrange(0, end),
    decreases end - k,
{
    if k < end {
        lemma_first_field_until(s, sep, k + 1, end);
    }
}

/// A line that starts with an id's decimal rendering and a tab picks that
/// id, whatever follows the tab.
pub proof fn lemma_selection_roundtrip(id: u32, rest: Seq<char>)
    ensures
        parse_u32_spec(first_column(decimal(id as nat) + seq!['\t'] + rest)) == Some(id),
{
    let d = decimal(id as nat);
    let s = d + seq!['\t'] + rest;
    lemma_decimal_digits(id as nat);
    assert forall|j: int| 0 <= j < d.len() implies s[j] != '\t' by {
        assert(s[j] == d[j]);
        assert(is_ascii_digit(d[j]));
    }
    assert(s[d.len() as int] == '\t');
    lemma_first_field_until(s, '\t', 0, d.len() as int);
    assert(s.subrange(0, d.len() as int) =~= d);
    assert(unsigned_digits(d) == d);
}

/// What the picker chose, from its exit status and its output: nothing
/// when it failed or printed only whitespace, else the trimmed output.
pub open spec fn picked_spec(success: bool, output: Seq<char>) -> Option<Seq<char>> {
    if !success || trim_spec(output).len() == 0 {
        None
    } else {
        Some(trim_spec(output))
    }
}

/// The line the picker chose, if any.
pub fn picked_line(success: bool, output: &str) -> (r: Option<String>)
    ensures
        match r {
            Some(line) => picked_spec(success, output@) == Some(line@),
            None => picked_spec(success, output@) is None,
        },
{
    if !success {
        return None;
    }
    let t = trim_str(output);
    let n = chars_of(t.as_str()).len();
    if n == 0 {
        None
    } else {
        Some(t)
    }
}

} // verus!
