//! Query parameters of the company list endpoint.
use vstd::prelude::*;

use crate::text::{
    count_char, is_brace, is_unicode_whitespace, join, lemma_join_chars, lemma_split_join,
    lemma_split_len, lemma_split_pieces_lack_sep, lemma_trim_idempotent, lemma_trim_keeps_chars,
    lemma_trim_wrapped, lemma_trimmed_ends, split_by, split_trimmed, trim_by,
    trim_class, trim_whitespace, views, CharClass,
};

verus! {

/// The filters of the company list: each is a list of names, or absent.
#[derive(Debug, Clone)]
pub struct InfoParams {
    pub sector: Option<Vec<String>>,
    pub industry: Option<Vec<String>>,
}

/// The views of an optional list of strings.
pub open spec fn opt_views(v: Option<Vec<String>>) -> Option<Seq<Seq<char>>> {
    match v {
        Some(items) => Some(views(items@)),
        None => None,
    }
}

/// The items of a list parameter such as `{Energy, Utilities}`: the braces
/// around the whole value are dropped, the rest is cut at every comma, and
/// each item loses the whitespace around it.
pub open spec fn list_items(s: Seq<char>) -> Seq<Seq<char>> {
    split_by(trim_by(s, CharClass::Braces.pred()), ',').map_values(|x: Seq<char>| trim_whitespace(x))
}

/// Reads one list parameter: an absent parameter stays absent, a present
/// one becomes its items (see `list_items`).
pub fn deserialize_vec(s: Option<&str>) -> (items: Option<Vec<String>>)
    ensures
        match s {
            None => items is None,
            Some(v) => items is Some && views(items->0@) == list_items(v@),
        },
{
    match s {
        None => None,
        Some(v) => {
            let cleaned = trim_class(v, &CharClass::Braces);
            Some(split_trimmed(cleaned.as_str(), ','))
        },
    }
}

impl InfoParams {
    /// Builds the parameters from the raw query values of `sector` and
    /// `industry`.
    pub fn from_query(sector: Option<&str>, industry: Option<&str>) -> (p: InfoParams)
        ensures
            opt_views(p.sector) == (match sector {
                None => None::<Seq<Seq<char>>>,
                Some(v) => Some(list_items(v@)),
            }),
            opt_views(p.industry) == (match industry {
                None => None::<Seq<Seq<char>>>,
                Some(v) => Some(list_items(v@)),
            }),
    {
        InfoParams { sector: deserialize_vec(sector), industry: deserialize_vec(industry) }
    }
}

/// A list parameter has one item more than it has commas inside its braces;
/// no item holds a comma, and every item is already trimmed: it neither
/// begins nor ends with whitespace.
pub proof fn lemma_list_items_shape(s: Seq<char>)
    ensures
        list_items(s).len() == count_char(trim_by(s, CharClass::Braces.pred()), ',') + 1,
        forall|i: int, k: int|
            0 <= i < list_items(s).len() && 0 <= k < list_items(s)[i].len()
                ==> #[trigger] list_items(s)[i][k] != ',',
        forall|k: int|
            0 <= k < list_items(s).len() ==> trim_whitespace(#[trigger] list_items(s)[k])
                == list_items(s)[k],
        forall|k: int|
            0 <= k < list_items(s).len() && (#[trigger] list_items(s)[k]).len() > 0 ==> {
                &&& !is_unicode_whitespace(list_items(s)[k][0])
                &&& !is_unicode_whitespace(list_items(s)[k].last())
            },
{
    let cleaned = trim_by(s, CharClass::Braces.pred());
    let pieces = split_by(cleaned, ',');
    let ws = CharClass::Whitespace.pred();
    lemma_split_len(cleaned, ',');
    lemma_split_pieces_lack_sep(cleaned, ',');
    assert forall|k: int|
        0 <= k < list_items(s).len() && (#[trigger] list_items(s)[k]).len() > 0 implies {
            &&& !is_unicode_whitespace(list_items(s)[k][0])
            &&& !is_unicode_whitespace(list_items(s)[k].last())
        } by {
        lemma_trimmed_ends(pieces[k], ws);
    }
    assert forall|k: int| 0 <= k < list_items(s).len() implies trim_whitespace(
        #[trigger] list_items(s)[k],
    ) == list_items(s)[k] by {
        lemma_trim_idempotent(pieces[k], ws);
    }
    assert forall|i: int, k: int|
        0 <= i < list_items(s).len() && 0 <= k < list_items(s)[i].len() implies #[trigger] list_items(
        s,
    )[i][k] != ',' by {
        let not_comma = |c: char| c != ',';
        assert forall|m: int| 0 <= m < pieces[i].len() implies not_comma(#[trigger] pieces[i][m]) by {}
        lemma_trim_keeps_chars(pieces[i], ws, not_comma);
        assert(not_comma(trim_by(pieces[i], ws)[k]));
    }
}

/// Items without commas, braces or surrounding whitespace, written one
/// after the other with commas between them, read back as themselves,
/// whether or not the whole is wrapped in braces.
pub proof fn lemma_list_round_trip(items: Seq<Seq<char>>)
    requires
        items.len() >= 1,
        forall|i: int, k: int|
            0 <= i < items.len() && 0 <= k < items[i].len() ==> #[trigger] items[i][k] != ','
                && !is_brace(items[i][k]),
        forall|i: int| 0 <= i < items.len() ==> trim_whitespace(#[trigger] items[i]) == items[i],
    ensures
        list_items(join(items, seq![','])) == items,
        list_items(seq!['{'] + join(items, seq![',']) + seq!['}']) == items,
{
    let j = join(items, seq![',']);
    let braces = CharClass::Braces.pred();
    let not_brace = |c: char| !is_brace(c);
    assert forall|i: int, k: int| 0 <= i < items.len() && 0 <= k < items[i].len() implies not_brace(
        #[trigger] items[i][k],
    ) by {}
    assert forall|k: int| 0 <= k < seq![','].len() implies not_brace(#[trigger] seq![','][k]) by {}
    lemma_join_chars(items, seq![','], not_brace);
    if j.len() > 0 {
        assert(not_brace(j[0]));
        assert(not_brace(j[j.len() - 1]));
    }
    lemma_trim_wrapped(Seq::<char>::empty(), j, Seq::<char>::empty(), braces);
    assert(Seq::<char>::empty() + j + Seq::<char>::empty() =~= j);
    lemma_trim_wrapped(seq!['{'], j, seq!['}'], braces);
    lemma_split_join(items, ',');
    assert(split_by(j, ',').map_values(|x: Seq<char>| trim_whitespace(x)) =~= items);
}

} // verus!
