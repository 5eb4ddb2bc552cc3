//! The two fixed symbol tables, one label per column and one per row. They
//! are used both to print the board's headers and to resolve the two
//! characters of a navigation command into a coordinate.

use vstd::prelude::*;

verus! {

/// The column labels, one per column, in order.
pub open spec fn spec_column_ids() -> Seq<char> {
    seq![
        'A', 'B', 'C', 'D', 'E', 'F', 'G', 'H', 'I', 'J', 'K', 'L', 'M', 'N', 'O', 'P', 'Q', 'R',
        'S', 'T', 'U', 'V', 'X', 'Y',
    ]
}

/// The row labels, one per row, in order.
pub open spec fn spec_row_ids() -> Seq<char> {
    seq![
        '1', '2', '3', '4', '5', '6', '7', '8', '9', '#', '+', '-', '*', '~', '!', '%', '&', '"',
        '$', '/', '(', ')', '=', '?',
    ]
}

/// The column labels as a vector, for lookups and rendering.
pub fn column_ids() -> (v: Vec<char>)
    ensures
        v@ == spec_column_ids(),
{
    let v: Vec<char> = vec![
        'A', 'B', 'C', 'D', 'E', 'F', 'G', 'H', 'I', 'J', 'K', 'L', 'M', 'N', 'O', 'P', 'Q', 'R',
        'S', 'T', 'U', 'V', 'X', 'Y',
    ];
    proof {
        assert(v@ =~= spec_column_ids());
    }
    v
}

/// The row labels as a vector, for lookups and rendering.
pub fn row_ids() -> (v: Vec<char>)
    ensures
        v@ == spec_row_ids(),
{
    let v: Vec<char> = vec![
        '1', '2', '3', '4', '5', '6', '7', '8', '9', '#', '+', '-', '*', '~', '!', '%', '&', '"',
        '$', '/', '(', ')', '=', '?',
    ];
    proof {
        assert(v@ =~= spec_row_ids());
    }
    v
}

} // verus!
