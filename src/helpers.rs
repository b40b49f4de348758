//! The computing parts of the template helpers.
use vstd::prelude::*;
use vstd::string::*;
use chrono::{DateTime, Utc};
use crate::text::{concat_str, decimal, decimal_string};

verus! {

/// A positional helper parameter, as far as a path is concerned.
pub enum Param {
    Text(String),
    /// A number that is an integer in the range of `i64`.
    Int(i64),
    /// Anything else.
    Other,
}

/// The decimal representation of an integer, with a leading `-` when negative.
pub open spec fn int_decimal(n: int) -> Seq<char> {
    if n < 0 {
        seq!['-'] + decimal((-n) as nat)
    } else {
        decimal(n as nat)
    }
}

/// What one parameter contributes to a path.
pub open spec fn param_text(p: Param) -> Seq<char> {
    match p {
        Param::Text(s) => s@,
        Param::Int(n) => int_decimal(n as int),
        Param::Other => Seq::empty(),
    }
}

/// The parameters' contributions joined in order.
pub open spec fn joined_params(ps: Seq<Param>) -> Seq<char>
    decreases ps.len(),
{
    if ps.len() == 0 {
        Seq::empty()
    } else {
        joined_params(ps.drop_last()) + param_text(ps.last())
    }
}

/// The decimal representation of `n`.
pub fn int_string(n: i64) -> (r: String)
    ensures
        r@ == int_decimal(n as int),
{
    if n < 0 {
        let m: u64 = (-(n as i128)) as u64;
        let d = decimal_string(m);
        let r = concat_str("-", d.as_str());
        proof {
            reveal_strlit("-");
        }
        r
    } else {
        decimal_string(n as u64)
    }
}

/// The output path named by the parameters of `file(...)`: texts as they
/// are and integers in decimal, joined with nothing between them; other
/// values contribute nothing.
pub fn file_path(params: &Vec<Param>) -> (r: String)
    ensures
        r@ == joined_params(params@),
{
    let mut s = String::new();
    let mut i: usize = 0;
    while i < params.len()
        invariant
            i <= params@.len(),
            s@ == joined_params(params@.subrange(0, i as int)),
        decreases params@.len() - i,
    {
        assert(params@.subrange(0, i + 1).drop_last() =~= params@.subrange(0, i as int));
        match &params[i] {
            Param::Text(t) => s.append(t.as_str()),
            Param::Int(n) => {
                let d = int_string(*n);
                s.append(d.as_str());
            },
            Param::Other => {
                assert(s@ =~= s@ + Seq::<char>::empty());
            },
        }
        i = i + 1;
    }
    assert(params@.subrange(0, params@.len() as int) =~= params@);
    s
}

/// An RFC 3339 date shown as in `Jan  5, 2018`, if the text parses.
pub uninterp spec fn display_date_of(s: Seq<char>) -> Option<Seq<char>>;

/// Relies on chrono's `FromStr` for `DateTime<Utc>` (a relaxed RFC 3339)
/// and `format("%b %e, %Y")`: the result depends on the text alone.
#[verifier::external_body]
fn display_date(s: &str) -> (r: Option<String>)
    ensures
        match r {
            Some(d) => display_date_of(s@) == Some(d@),
            None => display_date_of(s@) is None,
        },
{
    s.parse::<DateTime<Utc>>().ok().map(|d| d.format("%b %e, %Y").to_string())
}

/// A date as shown on pages (`Jan  5, 2018`), or `None` when the text is
/// not a date.
pub fn format_date(s: &str) -> (r: Option<String>)
    ensures
        match r {
            Some(d) => display_date_of(s@) == Some(d@),
            None => display_date_of(s@) is None,
        },
{
    display_date(s)
}

} // verus!
