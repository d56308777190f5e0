//! The decisions behind the data endpoints: which companies a listing asks
//! for.
use vstd::prelude::*;

use crate::api::params::{opt_views, InfoParams};
use crate::text::views;

verus! {

/// The restriction that one list parameter puts on a column: none when the
/// parameter is absent or is exactly the single item `all`, otherwise the
/// column must take one of the listed values.
pub open spec fn restriction(p: Option<Seq<Seq<char>>>) -> Option<Seq<Seq<char>>> {
    match p {
        None => None,
        Some(v) => if v == seq!["all"@] { None } else { Some(v) },
    }
}

/// The filters that a company listing applies: `None` places no
/// restriction on the column, `Some(values)` keeps the rows whose column is
/// one of `values`.
#[derive(Debug)]
pub struct CompanyFilter {
    pub sp_sectors: Option<Vec<String>>,
    pub industries: Option<Vec<String>>,
}

fn is_all(v: &Vec<String>) -> (b: bool)
    ensures
        b == (views(v@) == seq!["all"@]),
{
    if v.len() != 1 {
        proof {
            if views(v@) == seq!["all"@] {
                assert(views(v@).len() == v@.len());
            }
        }
        return false;
    }
    let all = String::from_str("all");
    let same = v[0] == all;
    proof {
        assert(views(v@)[0] == v@[0]@);
        if same {
            assert(views(v@) =~= seq!["all"@]);
        } else if views(v@) == seq!["all"@] {
            assert(views(v@)[0] == seq!["all"@][0]);
        }
    }
    same
}

fn restrict(p: Option<Vec<String>>) -> (r: Option<Vec<String>>)
    ensures
        opt_views(r) == restriction(opt_views(p)),
{
    match p {
        None => None,
        Some(v) => if is_all(&v) { None } else { Some(v) },
    }
}

/// The filters of a company listing: the S&P sector and the industry are
/// each restricted by their parameter, unless it is absent or `all`.
pub fn company_list_filter(params: InfoParams) -> (f: CompanyFilter)
    ensures
        opt_views(f.sp_sectors) == restriction(opt_views(params.sector)),
        opt_views(f.industries) == restriction(opt_views(params.industry)),
{
    CompanyFilter { sp_sectors: restrict(params.sector), industries: restrict(params.industry) }
}

/// A list parameter that is absent, or is exactly the single item `all`,
/// puts no restriction on its column; any other list, whatever its length,
/// restricts the column to exactly the listed values.
pub proof fn lemma_listed_values_restrict(v: Seq<Seq<char>>)
    ensures
        restriction(None) is None,
        restriction(Some(seq!["all"@])) is None,
        v != seq!["all"@] ==> restriction(Some(v)) == Some(v),
{
}

} // verus!
