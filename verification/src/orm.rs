//! Row identifiers, query-building helpers and the error taxonomy of
//! the persistence layer.
//!
//! The executable work here is plain string construction: SQL
//! parameter placeholders (`?1, ?2, ...`) and update assignments
//! (`col = ?1, ...`), built from a verified decimal formatter.  The
//! statements that use them are issued elsewhere.

use vstd::prelude::*;
use vstd::string::StringExecFns;

use core::marker::PhantomData;

verus! {

/// A row id returned by an insert.
#[derive(Debug, Clone, PartialEq, Eq)]
pub struct RowId {
    pub id: u64,
}

/// A numeric streaming-platform user id.
#[derive(Debug, Clone, PartialEq, Eq)]
pub struct TwitchId(pub u64);

/// What can go wrong around a database operation.
#[derive(Clone, Debug, PartialEq, Eq)]
pub enum OrmError {
    /// No row answered the query; carries a description and, when
    /// known, the id looked for.
    NotFound(String, Option<u64>),
    /// The value offered for storage is invalid.
    BadInput(String),
    /// The statement itself failed.
    QueryError(String),
    /// A row could not be read back into its type.
    Deserialisation(String),
    /// The statement ran but changed nothing.
    NoChange(String),
    Unknown,
}

/// The decimal digit character for `d`.
pub open spec fn spec_digit(d: nat) -> char {
    if d == 0 {
        '0'
    } else if d == 1 {
        '1'
    } else if d == 2 {
        '2'
    } else if d == 3 {
        '3'
    } else if d == 4 {
        '4'
    } else if d == 5 {
        '5'
    } else if d == 6 {
        '6'
    } else if d == 7 {
        '7'
    } else if d == 8 {
        '8'
    } else {
        '9'
    }
}

/// The decimal notation of `n`, most significant digit first.
pub open spec fn spec_decimal(n: nat) -> Seq<char>
    decreases n,
{
    if n < 10 {
        seq![spec_digit(n)]
    } else {
        spec_decimal(n / 10).push(spec_digit(n % 10))
    }
}

/// `?1, ?2, ..., ?n`.
pub open spec fn spec_placeholders(n: nat) -> Seq<char>
    decreases n,
{
    if n == 0 {
        Seq::empty()
    } else if n == 1 {
        seq!['?'] + spec_decimal(1)
    } else {
        spec_placeholders((n - 1) as nat) + seq![',', ' ', '?'] + spec_decimal(n)
    }
}

/// `c1 = ?1, c2 = ?2, ...` for the column names `cols`.
pub open spec fn spec_update_placeholders(cols: Seq<Seq<char>>) -> Seq<char>
    decreases cols.len(),
{
    if cols.len() == 0 {
        Seq::empty()
    } else if cols.len() == 1 {
        cols[0] + seq![' ', '=', ' ', '?'] + spec_decimal(1)
    } else {
        spec_update_placeholders(cols.drop_last()) + seq![',', ' '] + cols.last() + seq![
            ' ',
            '=',
            ' ',
            '?',
        ] + spec_decimal(cols.len() as nat)
    }
}

/// The digit character for `d`.
fn digit_str(d: u64) -> (r: &'static str)
    requires
        d < 10,
    ensures
        r@ == seq![spec_digit(d as nat)],
{
    let r = match d {
        0 => "0",
        1 => "1",
        2 => "2",
        3 => "3",
        4 => "4",
        5 => "5",
        6 => "6",
        7 => "7",
        8 => "8",
        _ => "9",
    };
    proof {
        reveal_strlit("0");
        reveal_strlit("1");
        reveal_strlit("2");
        reveal_strlit("3");
        reveal_strlit("4");
        reveal_strlit("5");
        reveal_strlit("6");
        reveal_strlit("7");
        reveal_strlit("8");
        reveal_strlit("9");
        assert(r@ =~= seq![spec_digit(d as nat)]);
    }
    r
}

/// The decimal notation of `n`.
pub(crate) fn decimal(n: u64) -> (r: String)
    ensures
        r@ == spec_decimal(n as nat),
    decreases n,
{
    if n < 10 {
        digit_str(n).to_owned()
    } else {
        let mut s = decimal(n / 10);
        s.append(digit_str(n % 10));
        proof {
            assert(s@ =~= spec_decimal(n as nat));
        }
        s
    }
}

/// Query-building helpers for rows of type `T`.
pub struct Orm<T> {
    _phantom: PhantomData<T>,
}

impl<T> Orm<T> {
    /// The parameter list `?1, ?2, ..., ?columns` of an insert.
    pub fn placeholders(columns: usize) -> (r: String)
        ensures
            r@ == spec_placeholders(columns as nat),
    {
        let mut s = String::new();
        let mut idx: usize = 0;
        while idx < columns
            invariant
                idx <= columns,
                s@ == spec_placeholders(idx as nat),
            decreases columns - idx,
        {
            if idx > 0 {
                s.append(", ");
            }
            s.append("?");
            let d = decimal((idx + 1) as u64);
            s.append(d.as_str());
            proof {
                reveal_strlit(", ");
                reveal_strlit("?");
                assert(s@ =~= spec_placeholders((idx + 1) as nat));
            }
            idx = idx + 1;
        }
        s
    }

    /// The assignment list `c1 = ?1, c2 = ?2, ...` of an update.
    pub fn update_placeholders(columns: &Vec<&str>) -> (r: String)
        ensures
            r@ == spec_update_placeholders(columns@.map_values(|c: &str| c@)),
    {
        let ghost cols = columns@.map_values(|c: &str| c@);
        let n = columns.len();
        let mut s = String::new();
        let mut idx: usize = 0;
        while idx < n
            invariant
                n == columns@.len(),
                cols == columns@.map_values(|c: &str| c@),
                idx <= n,
                s@ == spec_update_placeholders(cols.take(idx as int)),
            decreases n - idx,
        {
            if idx > 0 {
                s.append(", ");
            }
            s.append(columns[idx]);
            s.append(" = ?");
            let d = decimal((idx + 1) as u64);
            s.append(d.as_str());
            proof {
                reveal_strlit(", ");
                reveal_strlit(" = ?");
                let pre = cols.take(idx + 1);
                assert(pre.drop_last() =~= cols.take(idx as int));
                assert(pre.last() == cols[idx as int]);
                assert(s@ =~= spec_update_placeholders(pre));
            }
            idx = idx + 1;
        }
        proof {
            assert(cols.take(n as int) =~= cols);
        }
        s
    }
}

} // verus!
