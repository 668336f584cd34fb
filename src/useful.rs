//! Rendering of record fields as table cells.

use vstd::prelude::*;
use vstd::string::StringExecFns;
use crate::ids::{RecordId, uuid_upper_text_of};

verus! {

/// The text of an empty table cell.
pub open spec fn empty_cell() -> Seq<char> {
    seq!['-']
}

/// An empty table cell.
pub fn empty_cell_string() -> (r: String)
    ensures
        r@ == empty_cell(),
{
    let r = <String as StringExecFns>::from_str("-");
    proof {
        reveal_strlit("-");
    }
    r
}

/// An identifier as a table cell: its upper-case hyphenated text.
pub fn format_table_uuid(uuid: &RecordId) -> (r: String)
    ensures
        r@ == uuid_upper_text_of(uuid.value),
{
    uuid.to_upper_string()
}

/// An optional value as a table cell: `op` renders a present value, and an
/// absent one shows as `-`.
pub fn format_table_option<T>(opt: &Option<T>, op: impl FnOnce(&T) -> String) -> (r: String)
    requires
        opt matches Some(t) ==> op.requires((&t,)),
    ensures
        match opt {
            Some(t) => op.ensures((t,), r),
            None => r@ == empty_cell(),
        },
{
    match opt {
        Some(t) => op(t),
        None => empty_cell_string(),
    }
}

/// An optional text as a table cell: the text itself, or `-` when absent.
pub fn format_table_option_display(opt: &Option<String>) -> (r: String)
    ensures
        match opt {
            Some(t) => r@ == t@,
            None => r@ == empty_cell(),
        },
{
    format_table_option(opt, |t: &String| -> (s: String)
        ensures
            s@ == t@,
        { t.clone() })
}

} // verus!
