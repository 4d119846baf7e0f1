//! The collations of a server and the one that new schemas get by default.

use crate::text::str_eq;
use vstd::prelude::*;

verus! {

/// The collations of a server, and the default among them.
#[derive(Clone, Debug)]
pub struct CollationResponse {
    pub collations: Vec<String>,
    pub default_collation: String,
}

/// The character set whose default collation is asked for.
pub const DEFAULT_CHARSET_NAME: &'static str = "utf8mb4";

/// The collation that stands in when the server names none.
pub const FALLBACK_COLLATION: &'static str = "utf8mb4_general_ci";

/// The default collation that a listing of character sets gives. A row
/// holds the character set, its description and its default collation, each
/// as far as the server named it. The last row for the character set
/// `utf8mb4` decides: its collation is the default, or the fallback where
/// the row names none. Where no row is for `utf8mb4`, the fallback is the
/// default.
pub open spec fn default_of(
    rows: Seq<(Option<Seq<char>>, Option<Seq<char>>, Option<Seq<char>>)>,
) -> Seq<char>
    decreases rows.len(),
{
    if rows.len() == 0 {
        FALLBACK_COLLATION@
    } else if rows.last().0 == Some(DEFAULT_CHARSET_NAME@) {
        match rows.last().2 {
            Some(collation) => collation,
            None => FALLBACK_COLLATION@,
        }
    } else {
        default_of(rows.drop_last())
    }
}

/// The default collation of the server: that of the last row for the
/// character set `utf8mb4`, or `utf8mb4_general_ci` where that row names no
/// collation or the listing has no row for the character set.
pub fn default_collation(rows: &Vec<(Option<String>, Option<String>, Option<String>)>) -> (chosen:
    String)
    ensures
        chosen@ == default_of(rows.deep_view()),
{
    let ghost all = rows.deep_view();
    let mut i: usize = rows.len();
    proof {
        assert(all.subrange(0, i as int) =~= all);
    }
    while i > 0
        invariant
            i <= rows.len(),
            all == rows.deep_view(),
            default_of(all) == default_of(all.subrange(0, i as int)),
        decreases i,
    {
        proof {
            let upto = all.subrange(0, i as int);
            assert(upto.last() == all[i - 1]);
            assert(upto.drop_last() =~= all.subrange(0, i - 1));
        }
        i -= 1;
        let for_default = match &rows[i].0 {
            Some(charset) => str_eq(charset.as_str(), DEFAULT_CHARSET_NAME),
            None => false,
        };
        if for_default {
            return match &rows[i].2 {
                Some(collation) => collation.clone(),
                None => FALLBACK_COLLATION.to_owned(),
            };
        }
    }
    proof {
        assert(all.subrange(0, 0).len() == 0);
    }
    FALLBACK_COLLATION.to_owned()
}

/// The names among the first columns of a listing, in order: a row whose
/// first column holds no text is passed over.
pub open spec fn names_of(firsts: Seq<Option<Seq<char>>>) -> Seq<Seq<char>>
    decreases firsts.len(),
{
    if firsts.len() == 0 {
        Seq::empty()
    } else {
        match firsts.last() {
            Some(name) => names_of(firsts.drop_last()).push(name),
            None => names_of(firsts.drop_last()),
        }
    }
}

/// The collations that a listing names: the first column of each row that
/// has one, in the order of the rows.
pub fn collation_names(firsts: Vec<Option<String>>) -> (names: Vec<String>)
    ensures
        names.deep_view() == names_of(firsts.deep_view()),
{
    let ghost all = firsts.deep_view();
    let mut names: Vec<String> = Vec::new();
    let mut i: usize = 0;
    proof {
        assert(names.deep_view() =~= names_of(all.subrange(0, 0)));
    }
    while i < firsts.len()
        invariant
            i <= firsts.len(),
            all == firsts.deep_view(),
            names.deep_view() == names_of(all.subrange(0, i as int)),
        decreases firsts.len() - i,
    {
        let ghost before = names.deep_view();
        proof {
            let upto = all.subrange(0, i + 1);
            assert(upto.last() == all[i as int]);
            assert(upto.drop_last() =~= all.subrange(0, i as int));
        }
        match &firsts[i] {
            Some(name) => {
                names.push(name.clone());
                proof {
                    assert(names.deep_view() =~= before.push(name@));
                }
            },
            None => {},
        }
        i += 1;
    }
    proof {
        assert(all.subrange(0, i as int) =~= all);
    }
    names
}

/// What the collations command hands to the caller: the collations that the
/// first listing names, and the default that the listing of character sets
/// gives.
pub fn collation_response(
    listing: Vec<Option<String>>,
    charsets: Vec<(Option<String>, Option<String>, Option<String>)>,
) -> (response: CollationResponse)
    ensures
        response.collations.deep_view() == names_of(listing.deep_view()),
        response.default_collation@ == default_of(charsets.deep_view()),
{
    let default_collation = default_collation(&charsets);
    let collations = collation_names(listing);
    CollationResponse { collations, default_collation }
}

} // verus!
