//! Server variables: the session listing and the global listing merged into
//! one record per variable name, each with its scope where one is known.

use crate::text::{
    lemma_bytes_before_total, lemma_bytes_before_transitive, lemma_encoding_is_injective,
    str_before, str_eq, text_before,
};
use vstd::prelude::*;
use vstd::utf8::encode_utf8;

verus! {

/// One variable with its value in the session and in the global listing.
pub struct VariableInfo {
    pub name: String,
    pub session_value: String,
    pub global_value: String,
    pub scope: Option<String>,
}

/// What a [`VariableInfo`] says, as plain text.
pub struct VariableText {
    pub name: Seq<char>,
    pub session_value: Seq<char>,
    pub global_value: Seq<char>,
    pub scope: Option<Seq<char>>,
}

impl View for VariableInfo {
    type V = VariableText;

    open spec fn view(&self) -> VariableText {
        VariableText {
            name: self.name@,
            session_value: self.session_value@,
            global_value: self.global_value@,
            scope: match self.scope {
                Some(s) => Some(s@),
                None => None,
            },
        }
    }
}

/// The lower-case form that `str::to_lowercase` gives a text.
pub uninterp spec fn lowercase_of(s: Seq<char>) -> Seq<char>;

/// The upper-case form that `str::to_uppercase` gives a text.
pub uninterp spec fn uppercase_of(s: Seq<char>) -> Seq<char>;

/// `str::to_lowercase`: the lower-case form of the text by the Unicode
/// rules, a function of the text alone.
#[verifier::external_body]
fn lowercase(s: &str) -> (r: String)
    ensures
        r@ == lowercase_of(s@),
{
    s.to_lowercase()
}

/// `str::to_uppercase`: the upper-case form of the text by the Unicode
/// rules, a function of the text alone.
#[verifier::external_body]
fn uppercase(s: &str) -> (r: String)
    ensures
        r@ == uppercase_of(s@),
{
    s.to_uppercase()
}

/// Whether some row of the listing carries this name.
pub open spec fn listed(rows: Seq<(Seq<char>, Seq<char>)>, name: Seq<char>) -> bool {
    exists|i: int| 0 <= i < rows.len() && (#[trigger] rows[i]).0 == name
}

/// The value in the last row that carries this name, if any row does.
pub open spec fn last_value(rows: Seq<(Seq<char>, Seq<char>)>, name: Seq<char>) -> Option<
    Seq<char>,
>
    decreases rows.len(),
{
    if rows.len() == 0 {
        None
    } else if rows.last().0 == name {
        Some(rows.last().1)
    } else {
        last_value(rows.drop_last(), name)
    }
}

/// The value the listing gives the name, or the empty text where the
/// listing does not hold it.
pub open spec fn value_or_empty(rows: Seq<(Seq<char>, Seq<char>)>, name: Seq<char>) -> Seq<char> {
    match last_value(rows, name) {
        Some(v) => v,
        None => Seq::empty(),
    }
}

/// The scope rows as they are looked up: names in lower case, scopes in
/// upper case.
pub open spec fn normalized(scopes: Seq<(Seq<char>, Seq<char>)>) -> Seq<(Seq<char>, Seq<char>)> {
    Seq::new(scopes.len(), |i: int| (lowercase_of(scopes[i].0), uppercase_of(scopes[i].1)))
}

/// The scope of a variable: that of the last scope row whose name equals the
/// variable's, letter case aside.
pub open spec fn scope_of(scopes: Seq<(Seq<char>, Seq<char>)>, name: Seq<char>) -> Option<
    Seq<char>,
> {
    last_value(normalized(scopes), lowercase_of(name))
}

/// The record that the three listings give one name.
pub open spec fn merged_record(
    name: Seq<char>,
    session: Seq<(Seq<char>, Seq<char>)>,
    global: Seq<(Seq<char>, Seq<char>)>,
    scopes: Seq<(Seq<char>, Seq<char>)>,
) -> VariableText {
    VariableText {
        name,
        session_value: value_or_empty(session, name),
        global_value: value_or_empty(global, name),
        scope: scope_of(scopes, name),
    }
}

/// Whether the records come in strictly rising order of their names. No name
/// then occurs twice.
pub open spec fn sorted_by_name(out: Seq<VariableInfo>) -> bool {
    forall|i: int, j: int|
        0 <= i < j < out.len() ==> text_before((#[trigger] out[i]).name@, (#[trigger] out[j]).name@)
}

/// Whether some record carries this name.
pub open spec fn has_name(out: Seq<VariableInfo>, name: Seq<char>) -> bool {
    exists|i: int| 0 <= i < out.len() && (#[trigger] out[i]).name@ == name
}

/// Whether `out` is the merge of the listings: one record for each name of
/// the session or the global listing and no other, in rising order of name,
/// each with the values and the scope that the listings give its name.
pub open spec fn is_merge(
    out: Seq<VariableInfo>,
    session: Seq<(Seq<char>, Seq<char>)>,
    global: Seq<(Seq<char>, Seq<char>)>,
    scopes: Seq<(Seq<char>, Seq<char>)>,
) -> bool {
    &&& sorted_by_name(out)
    &&& forall|n: Seq<char>| (listed(session, n) || listed(global, n)) <==> has_name(out, n)
    &&& forall|i: int|
        0 <= i < out.len() ==> (#[trigger] out[i])@ == merged_record(
            out[i].name@,
            session,
            global,
            scopes,
        )
}

/// Whether `out` holds the names and values of the two listings, with no
/// scope filled in yet.
pub open spec fn holds_values(
    out: Seq<VariableInfo>,
    session: Seq<(Seq<char>, Seq<char>)>,
    global: Seq<(Seq<char>, Seq<char>)>,
) -> bool {
    &&& sorted_by_name(out)
    &&& forall|n: Seq<char>| (listed(session, n) || listed(global, n)) <==> has_name(out, n)
    &&& forall|i: int|
        0 <= i < out.len() ==> {
            &&& (#[trigger] out[i]).session_value@ == value_or_empty(session, out[i].name@)
            &&& out[i].global_value@ == value_or_empty(global, out[i].name@)
            &&& out[i].scope is None
        }
}

/// A name that no row carries has no value in the listing.
pub proof fn lemma_unlisted_has_no_value(rows: Seq<(Seq<char>, Seq<char>)>, name: Seq<char>)
    requires
        !listed(rows, name),
    ensures
        last_value(rows, name) is None,
    decreases rows.len(),
{
    if rows.len() > 0 {
        assert(rows[rows.len() - 1].0 != name);
        assert forall|i: int| 0 <= i < rows.drop_last().len() implies (#[trigger] rows.drop_last()[i]).0
            != name by {
            assert(rows[i].0 != name);
        }
        lemma_unlisted_has_no_value(rows.drop_last(), name);
    }
}

/// A row added at the end of a listing sets the value of its own name and
/// leaves every other name as it was.
pub proof fn lemma_row_added(
    rows: Seq<(Seq<char>, Seq<char>)>,
    row: (Seq<char>, Seq<char>),
    name: Seq<char>,
)
    ensures
        listed(rows.push(row), name) <==> (listed(rows, name) || row.0 == name),
        last_value(rows.push(row), name) == (if row.0 == name {
            Some(row.1)
        } else {
            last_value(rows, name)
        }),
{
    let more = rows.push(row);
    assert(more.drop_last() =~= rows);
    assert(more.last() == row);
    if listed(rows, name) {
        let i = choose|i: int| 0 <= i < rows.len() && (#[trigger] rows[i]).0 == name;
        assert(more[i].0 == name);
    }
    if row.0 == name {
        assert(more[rows.len() as int].0 == name);
    }
    if listed(more, name) {
        let i = choose|i: int| 0 <= i < more.len() && (#[trigger] more[i]).0 == name;
        if i < rows.len() {
            assert(rows[i].0 == name);
        }
    }
}

/// Two names of which neither is listed before the other are the same name.
pub proof fn lemma_neither_before(a: Seq<char>, b: Seq<char>)
    requires
        !text_before(a, b),
        !text_before(b, a),
    ensures
        a == b,
{
    lemma_bytes_before_total(encode_utf8(a), encode_utf8(b));
    lemma_encoding_is_injective(a, b);
}

/// Two runs of records in strictly rising order of name that hold the same
/// names hold them at the same places.
pub proof fn lemma_same_names_same_places(a: Seq<VariableInfo>, b: Seq<VariableInfo>, i: int)
    requires
        sorted_by_name(a),
        sorted_by_name(b),
        forall|n: Seq<char>| has_name(a, n) <==> has_name(b, n),
        0 <= i < a.len(),
    ensures
        i < b.len(),
        a[i].name@ == b[i].name@,
    decreases i,
{
    assert forall|j: int| 0 <= j < i implies j < b.len() && (#[trigger] a[j]).name@ == b[j].name@ by {
        lemma_same_names_same_places(a, b, j);
    }
    let name = a[i].name@;
    assert(has_name(a, name));
    let k = choose|k: int| 0 <= k < b.len() && (#[trigger] b[k]).name@ == name;
    if k < i {
        assert(a[k].name@ == b[k].name@);
        assert(text_before(a[k].name@, a[i].name@));
    } else if k > i {
        let other = b[i].name@;
        assert(text_before(b[i].name@, b[k].name@));
        assert(has_name(b, other));
        let m = choose|m: int| 0 <= m < a.len() && (#[trigger] a[m]).name@ == other;
        if m < i {
            assert(a[m].name@ == b[m].name@);
            assert(text_before(b[m].name@, b[i].name@));
        } else if m > i {
            assert(text_before(a[i].name@, a[m].name@));
            lemma_bytes_before_transitive(encode_utf8(name), encode_utf8(other), encode_utf8(name));
        }
    }
}

/// The listings have one merge: two merges of the same listings have the
/// same length and say the same at every place.
pub proof fn lemma_merge_is_unique(
    a: Seq<VariableInfo>,
    b: Seq<VariableInfo>,
    session: Seq<(Seq<char>, Seq<char>)>,
    global: Seq<(Seq<char>, Seq<char>)>,
    scopes: Seq<(Seq<char>, Seq<char>)>,
)
    requires
        is_merge(a, session, global, scopes),
        is_merge(b, session, global, scopes),
    ensures
        a.len() == b.len(),
        forall|i: int| 0 <= i < a.len() ==> (#[trigger] a[i])@ == b[i]@,
{
    assert forall|n: Seq<char>| has_name(a, n) <==> has_name(b, n) by {
        assert((listed(session, n) || listed(global, n)) <==> has_name(a, n));
        assert((listed(session, n) || listed(global, n)) <==> has_name(b, n));
    }
    if a.len() > 0 {
        lemma_same_names_same_places(a, b, a.len() - 1);
    }
    if b.len() > 0 {
        lemma_same_names_same_places(b, a, b.len() - 1);
    }
    assert forall|i: int| 0 <= i < a.len() implies (#[trigger] a[i])@ == b[i]@ by {
        lemma_same_names_same_places(a, b, i);
        assert(b[i]@ == merged_record(b[i].name@, session, global, scopes));
    }
}

/// A merge holds every name once: two records of it never share a name.
pub proof fn lemma_one_record_per_name(out: Seq<VariableInfo>, i: int, j: int)
    requires
        sorted_by_name(out),
        0 <= i < out.len(),
        0 <= j < out.len(),
        i != j,
    ensures
        out[i].name@ != out[j].name@,
{
    if i < j {
        assert(text_before(out[i].name@, out[j].name@));
    } else {
        assert(text_before(out[j].name@, out[i].name@));
    }
}

/// The first place in `out` whose name is not listed before `name`.
fn position_of(out: &Vec<VariableInfo>, name: &str) -> (pos: usize)
    requires
        sorted_by_name(out@),
    ensures
        pos <= out.len(),
        forall|i: int| 0 <= i < pos ==> text_before((#[trigger] out@[i]).name@, name@),
        forall|i: int| pos <= i < out.len() ==> !text_before((#[trigger] out@[i]).name@, name@),
{
    let mut pos: usize = 0;
    while pos < out.len() && str_before(out[pos].name.as_str(), name)
        invariant
            pos <= out.len(),
            forall|i: int| 0 <= i < pos ==> text_before((#[trigger] out@[i]).name@, name@),
        decreases out.len() - pos,
    {
        pos += 1;
    }
    proof {
        assert forall|i: int| pos <= i < out.len() implies !text_before(
            (#[trigger] out@[i]).name@,
            name@,
        ) by {
            if i > pos && text_before(out@[i].name@, name@) {
                assert(text_before(out@[pos as int].name@, out@[i].name@));
                lemma_bytes_before_transitive(
                    encode_utf8(out@[pos as int].name@),
                    encode_utf8(out@[i].name@),
                    encode_utf8(name@),
                );
            }
        }
    }
    pos
}

/// Takes one row of the session listing (or, with `global_side`, of the
/// global listing) into the records.
fn take_row(
    out: &mut Vec<VariableInfo>,
    name: &String,
    value: &String,
    global_side: bool,
    Ghost(session): Ghost<Seq<(Seq<char>, Seq<char>)>>,
    Ghost(global): Ghost<Seq<(Seq<char>, Seq<char>)>>,
)
    requires
        holds_values(old(out)@, session, global),
    ensures
        !global_side ==> holds_values(final(out)@, session.push((name@, value@)), global),
        global_side ==> holds_values(final(out)@, session, global.push((name@, value@))),
{
    let ghost before = out@;
    let ghost row = (name@, value@);
    let ghost session_after = if global_side {
        session
    } else {
        session.push(row)
    };
    let ghost global_after = if global_side {
        global.push(row)
    } else {
        global
    };
    let pos = position_of(out, name.as_str());
    let found = pos < out.len() && str_eq(out[pos].name.as_str(), name.as_str());
    if found {
        let record = if global_side {
            VariableInfo {
                name: name.clone(),
                session_value: out[pos].session_value.clone(),
                global_value: value.clone(),
                scope: None,
            }
        } else {
            VariableInfo {
                name: name.clone(),
                session_value: value.clone(),
                global_value: out[pos].global_value.clone(),
                scope: None,
            }
        };
        out.set(pos, record);
        proof {
            let after = out@;
            assert forall|i: int, j: int| 0 <= i < j < after.len() implies text_before(
                (#[trigger] after[i]).name@,
                (#[trigger] after[j]).name@,
            ) by {
                assert(text_before(before[i].name@, before[j].name@));
            }
            assert forall|n: Seq<char>|
                (listed(session_after, n) || listed(global_after, n)) <==> has_name(after, n) by {
                lemma_row_added(session, row, n);
                lemma_row_added(global, row, n);
                assert(before[pos as int].name@ == name@);
                if has_name(before, n) {
                    let i = choose|i: int| 0 <= i < before.len() && (#[trigger] before[i]).name@ == n;
                    assert(after[i].name@ == n);
                }
                if has_name(after, n) {
                    let i = choose|i: int| 0 <= i < after.len() && (#[trigger] after[i]).name@ == n;
                    assert(before[i].name@ == n);
                }
            }
            assert forall|i: int| 0 <= i < after.len() implies {
                &&& (#[trigger] after[i]).session_value@ == value_or_empty(session_after, after[i].name@)
                &&& after[i].global_value@ == value_or_empty(global_after, after[i].name@)
                &&& after[i].scope is None
            } by {
                lemma_row_added(session, row, after[i].name@);
                lemma_row_added(global, row, after[i].name@);
                assert(before[i].session_value@ == value_or_empty(session, before[i].name@));
                if i < pos {
                    assert(text_before(before[i].name@, before[pos as int].name@));
                } else if i > pos {
                    assert(text_before(before[pos as int].name@, before[i].name@));
                }
            }
        }
    } else {
        let record = if global_side {
            VariableInfo {
                name: name.clone(),
                session_value: String::new(),
                global_value: value.clone(),
                scope: None,
            }
        } else {
            VariableInfo {
                name: name.clone(),
                session_value: value.clone(),
                global_value: String::new(),
                scope: None,
            }
        };
        out.insert(pos, record);
        proof {
            let after = out@;
            assert forall|j: int| pos <= j < before.len() implies text_before(
                name@,
                (#[trigger] before[j]).name@,
            ) by {
                if !text_before(name@, before[pos as int].name@) {
                    lemma_neither_before(before[pos as int].name@, name@);
                }
                if j > pos {
                    assert(text_before(before[pos as int].name@, before[j].name@));
                    lemma_bytes_before_transitive(
                        encode_utf8(name@),
                        encode_utf8(before[pos as int].name@),
                        encode_utf8(before[j].name@),
                    );
                }
            }
            assert forall|i: int| 0 <= i < after.len() implies (#[trigger] after[i]) == (if i < pos {
                before[i]
            } else if i == pos {
                record
            } else {
                before[i - 1]
            }) by {}
            assert forall|i: int, j: int| 0 <= i < j < after.len() implies text_before(
                (#[trigger] after[i]).name@,
                (#[trigger] after[j]).name@,
            ) by {
                if i < pos && j > pos {
                    assert(text_before(before[i].name@, name@));
                    assert(text_before(name@, before[j - 1].name@));
                    lemma_bytes_before_transitive(
                        encode_utf8(before[i].name@),
                        encode_utf8(name@),
                        encode_utf8(before[j - 1].name@),
                    );
                } else if i < pos && j < pos {
                    assert(text_before(before[i].name@, before[j].name@));
                } else if i > pos {
                    assert(text_before(before[i - 1].name@, before[j - 1].name@));
                } else if i == pos {
                    assert(text_before(name@, before[j - 1].name@));
                } else {
                    assert(text_before(before[i].name@, name@));
                }
            }
            assert(!has_name(before, name@)) by {
                if has_name(before, name@) {
                    let i = choose|i: int|
                        0 <= i < before.len() && (#[trigger] before[i]).name@ == name@;
                    if i < pos {
                        assert(text_before(before[i].name@, name@));
                    } else {
                        assert(text_before(name@, before[i].name@));
                    }
                }
            }
            assert forall|n: Seq<char>|
                (listed(session_after, n) || listed(global_after, n)) <==> has_name(after, n) by {
                lemma_row_added(session, row, n);
                lemma_row_added(global, row, n);
                if has_name(before, n) {
                    let i = choose|i: int| 0 <= i < before.len() && (#[trigger] before[i]).name@ == n;
                    if i < pos {
                        assert(after[i].name@ == n);
                    } else {
                        assert(after[i + 1].name@ == n);
                    }
                }
                if n == name@ {
                    assert(after[pos as int].name@ == n);
                }
                if has_name(after, n) {
                    let i = choose|i: int| 0 <= i < after.len() && (#[trigger] after[i]).name@ == n;
                    if i < pos {
                        assert(before[i].name@ == n);
                    } else if i > pos {
                        assert(before[i - 1].name@ == n);
                    }
                }
            }
            assert forall|i: int| 0 <= i < after.len() implies {
                &&& (#[trigger] after[i]).session_value@ == value_or_empty(session_after, after[i].name@)
                &&& after[i].global_value@ == value_or_empty(global_after, after[i].name@)
                &&& after[i].scope is None
            } by {
                lemma_row_added(session, row, after[i].name@);
                lemma_row_added(global, row, after[i].name@);
                if i == pos {
                    lemma_unlisted_has_no_value(session, name@);
                    lemma_unlisted_has_no_value(global, name@);
                } else if i < pos {
                    assert(before[i].session_value@ == value_or_empty(session, before[i].name@));
                    assert(text_before(before[i].name@, name@));
                } else {
                    assert(before[i - 1].session_value@ == value_or_empty(
                        session,
                        before[i - 1].name@,
                    ));
                    assert(text_before(name@, before[i - 1].name@));
                }
            }
        }
    }
}

/// The scope rows with names in lower case and scopes in upper case.
fn normalize_scopes(scopes: &Vec<(String, String)>) -> (out: Vec<(String, String)>)
    ensures
        out.deep_view() == normalized(scopes.deep_view()),
{
    let mut out: Vec<(String, String)> = Vec::new();
    let mut i: usize = 0;
    while i < scopes.len()
        invariant
            i <= scopes.len(),
            out.len() == i,
            forall|k: int|
                0 <= k < i ==> (#[trigger] out@[k]).0@ == lowercase_of(scopes@[k].0@) && out@[k].1@
                    == uppercase_of(scopes@[k].1@),
        decreases scopes.len() - i,
    {
        let name = lowercase(scopes[i].0.as_str());
        let scope = uppercase(scopes[i].1.as_str());
        out.push((name, scope));
        i += 1;
    }
    proof {
        assert(out.deep_view() =~= normalized(scopes.deep_view()));
    }
    out
}

/// The value of the last row that carries the name, if any row does.
pub fn find_last(rows: &Vec<(String, String)>, name: &str) -> (found: Option<String>)
    ensures
        found.deep_view() == last_value(rows.deep_view(), name@),
{
    let ghost all = rows.deep_view();
    let mut i: usize = rows.len();
    proof {
        assert(all.subrange(0, i as int) =~= all);
    }
    while i > 0
        invariant
            i <= rows.len(),
            all == rows.deep_view(),
            last_value(all, name@) == last_value(all.subrange(0, i as int), name@),
        decreases i,
    {
        let ghost upto = all.subrange(0, i as int);
        proof {
            assert(upto.last() == all[i - 1]);
            assert(upto.drop_last() =~= all.subrange(0, i - 1));
        }
        i -= 1;
        if str_eq(rows[i].0.as_str(), name) {
            return Some(rows[i].1.clone());
        }
    }
    proof {
        assert(all.subrange(0, 0).len() == 0);
    }
    None
}

/// The names and values of the two listings, one record for each name, in
/// rising order of name and without scopes: a record holds the value of the
/// last row of each listing that carries its name, or the empty text where
/// the listing lacks the name.
pub fn merge_values(session: &Vec<(String, String)>, global: &Vec<(String, String)>) -> (out: Vec<
    VariableInfo,
>)
    ensures
        holds_values(out@, session.deep_view(), global.deep_view()),
{
    let ghost s = session.deep_view();
    let ghost g = global.deep_view();
    let mut out: Vec<VariableInfo> = Vec::new();
    proof {
        assert forall|n: Seq<char>|
            !listed(s.subrange(0, 0), n) && !listed(g.subrange(0, 0), n) && !has_name(out@, n) by {}
    }
    let mut i: usize = 0;
    while i < session.len()
        invariant
            i <= session.len(),
            s == session.deep_view(),
            g == global.deep_view(),
            holds_values(out@, s.subrange(0, i as int), g.subrange(0, 0)),
        decreases session.len() - i,
    {
        take_row(
            &mut out,
            &session[i].0,
            &session[i].1,
            false,
            Ghost(s.subrange(0, i as int)),
            Ghost(g.subrange(0, 0)),
        );
        proof {
            assert(s.subrange(0, i + 1) =~= s.subrange(0, i as int).push(
                (session@[i as int].0@, session@[i as int].1@),
            ));
        }
        i += 1;
    }
    proof {
        assert(s.subrange(0, i as int) =~= s);
    }
    let mut j: usize = 0;
    while j < global.len()
        invariant
            j <= global.len(),
            s == session.deep_view(),
            g == global.deep_view(),
            holds_values(out@, s, g.subrange(0, j as int)),
        decreases global.len() - j,
    {
        take_row(&mut out, &global[j].0, &global[j].1, true, Ghost(s), Ghost(g.subrange(0, j as int)));
        proof {
            assert(g.subrange(0, j + 1) =~= g.subrange(0, j as int).push(
                (global@[j as int].0@, global@[j as int].1@),
            ));
        }
        j += 1;
    }
    proof {
        assert(g.subrange(0, j as int) =~= g);
    }
    out
}

/// Merges the session listing and the global listing of the server's
/// variables into one record per name, in rising order of name.
///
/// A record holds the value of the last row of each listing that carries its
/// name, or the empty text where the listing lacks the name; its scope comes
/// from the last scope row whose name equals its own but for letter case,
/// written in upper case.
pub fn merge_variables(
    session: &Vec<(String, String)>,
    global: &Vec<(String, String)>,
    scopes: &Vec<(String, String)>,
) -> (out: Vec<VariableInfo>)
    ensures
        is_merge(out@, session.deep_view(), global.deep_view(), scopes.deep_view()),
{
    let ghost s = session.deep_view();
    let ghost g = global.deep_view();
    let mut out = merge_values(session, global);
    let lookup = normalize_scopes(scopes);
    let ghost filled = out@;
    let mut k: usize = 0;
    while k < out.len()
        invariant
            k <= out.len(),
            out.len() == filled.len(),
            holds_values(filled, s, g),
            lookup.deep_view() == normalized(scopes.deep_view()),
            forall|m: int|
                0 <= m < out.len() ==> {
                    &&& (#[trigger] out@[m]).name@ == filled[m].name@
                    &&& out@[m].session_value@ == filled[m].session_value@
                    &&& out@[m].global_value@ == filled[m].global_value@
                },
            forall|m: int|
                0 <= m < k ==> (#[trigger] out@[m])@.scope == scope_of(
                    scopes.deep_view(),
                    out@[m].name@,
                ),
        decreases out.len() - k,
    {
        let key = lowercase(out[k].name.as_str());
        let scope = find_last(&lookup, key.as_str());
        let record = VariableInfo {
            name: out[k].name.clone(),
            session_value: out[k].session_value.clone(),
            global_value: out[k].global_value.clone(),
            scope,
        };
        out.set(k, record);
        k += 1;
    }
    proof {
        let done = out@;
        assert forall|a: int, b: int| 0 <= a < b < done.len() implies text_before(
            (#[trigger] done[a]).name@,
            (#[trigger] done[b]).name@,
        ) by {
            assert(text_before(filled[a].name@, filled[b].name@));
        }
        assert forall|n: Seq<char>| (listed(s, n) || listed(g, n)) <==> has_name(done, n) by {
            if has_name(filled, n) {
                let m = choose|m: int| 0 <= m < filled.len() && (#[trigger] filled[m]).name@ == n;
                assert(done[m].name@ == n);
            }
            if has_name(done, n) {
                let m = choose|m: int| 0 <= m < done.len() && (#[trigger] done[m]).name@ == n;
                assert(filled[m].name@ == n);
            }
        }
        assert forall|m: int| 0 <= m < done.len() implies (#[trigger] done[m])@ == merged_record(
            done[m].name@,
            s,
            g,
            scopes.deep_view(),
        ) by {
            assert(filled[m].session_value@ == value_or_empty(s, filled[m].name@));
        }
    }
    out
}

/// What the variables command hands to the caller: the merge of the two
/// listings. Scope rows that the server did not give count as none: every
/// record is then without a scope.
pub fn variables_response(
    scopes: Option<Vec<(String, String)>>,
    session: Vec<(String, String)>,
    global: Vec<(String, String)>,
) -> (out: Vec<VariableInfo>)
    ensures
        is_merge(
            out@,
            session.deep_view(),
            global.deep_view(),
            match scopes {
                Some(rows) => rows.deep_view(),
                None => Seq::empty(),
            },
        ),
{
    match scopes {
        Some(rows) => merge_variables(&session, &global, &rows),
        None => {
            let rows: Vec<(String, String)> = Vec::new();
            proof {
                assert(rows.deep_view() =~= Seq::<(Seq<char>, Seq<char>)>::empty());
            }
            merge_variables(&session, &global, &rows)
        },
    }
}

} // verus!
