//! The argument lists of an operation's `defaults(name = value, ...)` and
//! `positional(name, ...)` attributes.
use vstd::prelude::*;
use crate::config::{is_punct, AttrError, AttrErrorView, AttrToken, Expected};
use crate::text::same_text;

verus! {

/// The text a token gives as a default value: a string's contents, a
/// literal or an identifier as written, `true` or `false`.
pub open spec fn value_text(t: AttrToken) -> Option<Seq<char>> {
    match t {
        AttrToken::Str(s) => Some(s@),
        AttrToken::Lit(s) => Some(s@),
        AttrToken::Int { text, .. } => Some(text@),
        AttrToken::Ident(s) => Some(s@),
        AttrToken::Bool(b) => Some(
            if b {
                "true"@
            } else {
                "false"@
            },
        ),
        _ => None,
    }
}

pub open spec fn has_key(acc: Seq<(Seq<char>, Seq<char>)>, k: Seq<char>) -> bool {
    exists|i: int| 0 <= i < acc.len() && (#[trigger] acc[i]).0 == k
}

pub open spec fn has_name(acc: Seq<Seq<char>>, k: Seq<char>) -> bool {
    exists|i: int| 0 <= i < acc.len() && acc[i] == k
}

/// The grammar `name = value (, name = value)*` from position `i`, with no
/// name twice.
pub open spec fn key_values_from(
    ts: Seq<AttrToken>,
    i: int,
    acc: Seq<(Seq<char>, Seq<char>)>,
) -> Result<Seq<(Seq<char>, Seq<char>)>, AttrErrorView>
    decreases ts.len() - i,
{
    if !(0 <= i < ts.len() && ts[i] is Ident) {
        Err(AttrErrorView::Expected { position: i, what: Expected::Ident })
    } else if !is_punct(ts, i + 1, '=') {
        Err(AttrErrorView::Expected { position: i + 1, what: Expected::Equals })
    } else if !(i + 2 < ts.len() && value_text(ts[i + 2]) is Some) {
        Err(AttrErrorView::Expected { position: i + 2, what: Expected::Value })
    } else if has_key(acc, ts[i]->Ident_0@) {
        Err(AttrErrorView::Duplicate { name: ts[i]->Ident_0@ })
    } else {
        let next = acc.push((ts[i]->Ident_0@, value_text(ts[i + 2])->0));
        if i + 3 >= ts.len() {
            Ok(next)
        } else if is_punct(ts, i + 3, ',') {
            key_values_from(ts, i + 4, next)
        } else {
            Err(AttrErrorView::Expected { position: i + 3, what: Expected::Comma })
        }
    }
}

/// The grammar `(name (, name)*)?` from position `i`, with no name twice.
pub open spec fn names_from(ts: Seq<AttrToken>, i: int, acc: Seq<Seq<char>>) -> Result<
    Seq<Seq<char>>,
    AttrErrorView,
>
    decreases ts.len() - i,
{
    if !(0 <= i < ts.len() && ts[i] is Ident) {
        Err(AttrErrorView::Expected { position: i, what: Expected::Ident })
    } else if has_name(acc, ts[i]->Ident_0@) {
        Err(AttrErrorView::Duplicate { name: ts[i]->Ident_0@ })
    } else {
        let next = acc.push(ts[i]->Ident_0@);
        if i + 1 >= ts.len() {
            Ok(next)
        } else if is_punct(ts, i + 1, ',') {
            names_from(ts, i + 2, next)
        } else {
            Err(AttrErrorView::Expected { position: i + 1, what: Expected::Comma })
        }
    }
}

pub open spec fn pairs_view(v: Seq<(String, String)>) -> Seq<(Seq<char>, Seq<char>)> {
    v.map_values(|p: (String, String)| (p.0@, p.1@))
}

pub open spec fn names_view(v: Seq<String>) -> Seq<Seq<char>> {
    v.map_values(|x: String| x@)
}

fn value_of(t: &AttrToken) -> (r: Option<String>)
    ensures
        r matches Some(s) ==> value_text(*t) == Some(s@),
        r is None ==> value_text(*t) is None,
{
    match t {
        AttrToken::Str(s) => Some(s.clone()),
        AttrToken::Lit(s) => Some(s.clone()),
        AttrToken::Int { text, .. } => Some(text.clone()),
        AttrToken::Ident(s) => Some(s.clone()),
        AttrToken::Bool(b) => {
            let text = if *b {
                "true".to_string()
            } else {
                "false".to_string()
            };
            proof {
                reveal_strlit("true");
                reveal_strlit("false");
            }
            Some(text)
        },
        _ => None,
    }
}

fn contains_key(acc: &Vec<(String, String)>, k: &String) -> (r: bool)
    ensures
        r == has_key(pairs_view(acc@), k@),
{
    let mut i: usize = 0;
    while i < acc.len()
        invariant
            i <= acc@.len(),
            forall|x: int| 0 <= x < i ==> acc@[x].0@ != k@,
        decreases acc@.len() - i,
    {
        if same_text(acc[i].0.as_str(), k.as_str()) {
            assert(pairs_view(acc@)[i as int].0 == k@);
            return true;
        }
        i = i + 1;
    }
    false
}

fn contains_name(acc: &Vec<String>, k: &String) -> (r: bool)
    ensures
        r == has_name(names_view(acc@), k@),
{
    let mut i: usize = 0;
    while i < acc.len()
        invariant
            i <= acc@.len(),
            forall|x: int| 0 <= x < i ==> acc@[x]@ != k@,
        decreases acc@.len() - i,
    {
        if same_text(acc[i].as_str(), k.as_str()) {
            assert(names_view(acc@)[i as int] == k@);
            return true;
        }
        i = i + 1;
    }
    false
}

/// Parses the list of a `defaults(...)` attribute into (argument, value)
/// pairs in order; the list may not be empty.
pub fn parse_key_value_list(ts: &Vec<AttrToken>) -> (r: Result<Vec<(String, String)>, AttrError>)
    ensures
        key_values_from(ts@, 0, Seq::empty()) matches Ok(v) ==> (r matches Ok(x) && pairs_view(x@)
            == v),
        key_values_from(ts@, 0, Seq::empty()) matches Err(e) ==> (r matches Err(x) && x@ == e),
{
    let mut acc: Vec<(String, String)> = Vec::new();
    assert(pairs_view(acc@) =~= Seq::<(Seq<char>, Seq<char>)>::empty());
    let mut i: usize = 0;
    loop
        invariant
            i <= ts@.len(),
            key_values_from(ts@, 0, Seq::empty()) == key_values_from(ts@, i as int, pairs_view(acc@)),
        decreases ts@.len() - i,
    {
        let key = if i < ts.len() {
            match &ts[i] {
                AttrToken::Ident(k) => k,
                _ => {
                    return Err(AttrError::Expected { position: i, what: Expected::Ident });
                },
            }
        } else {
            return Err(AttrError::Expected { position: i, what: Expected::Ident });
        };
        if !(i + 1 < ts.len() && matches!(&ts[i + 1], AttrToken::Punct(c) if *c == '=')) {
            return Err(AttrError::Expected { position: i + 1, what: Expected::Equals });
        }
        let value = if i + 2 < ts.len() {
            match value_of(&ts[i + 2]) {
                Some(v) => v,
                None => {
                    return Err(AttrError::Expected { position: i + 2, what: Expected::Value });
                },
            }
        } else {
            return Err(AttrError::Expected { position: i + 2, what: Expected::Value });
        };
        if contains_key(&acc, key) {
            return Err(AttrError::Duplicate { name: key.clone() });
        }
        let ghost before = acc@;
        acc.push((key.clone(), value));
        assert(pairs_view(acc@) =~= pairs_view(before).push((key@, value@)));
        if i + 3 >= ts.len() {
            return Ok(acc);
        }
        if !matches!(&ts[i + 3], AttrToken::Punct(c) if *c == ',') {
            return Err(AttrError::Expected { position: i + 3, what: Expected::Comma });
        }
        i = i + 4;
    }
}

/// Parses the list of a `positional(...)` attribute into argument names in
/// order; the list may be empty.
pub fn parse_identifier_list(ts: &Vec<AttrToken>) -> (r: Result<Vec<String>, AttrError>)
    ensures
        ts@.len() == 0 ==> (r matches Ok(x) && x@.len() == 0),
        ts@.len() > 0 ==> (names_from(ts@, 0, Seq::empty()) matches Ok(v) ==> (r matches Ok(x)
            && names_view(x@) == v)),
        ts@.len() > 0 ==> (names_from(ts@, 0, Seq::empty()) matches Err(e) ==> (r matches Err(x)
            && x@ == e)),
{
    let mut acc: Vec<String> = Vec::new();
    if ts.len() == 0 {
        return Ok(acc);
    }
    assert(names_view(acc@) =~= Seq::<Seq<char>>::empty());
    let mut i: usize = 0;
    loop
        invariant
            i <= ts@.len(),
            ts@.len() > 0,
            names_from(ts@, 0, Seq::empty()) == names_from(ts@, i as int, names_view(acc@)),
        decreases ts@.len() - i,
    {
        let name = if i < ts.len() {
            match &ts[i] {
                AttrToken::Ident(k) => k,
                _ => {
                    return Err(AttrError::Expected { position: i, what: Expected::Ident });
                },
            }
        } else {
            return Err(AttrError::Expected { position: i, what: Expected::Ident });
        };
        if contains_name(&acc, name) {
            return Err(AttrError::Duplicate { name: name.clone() });
        }
        let ghost before = acc@;
        acc.push(name.clone());
        assert(names_view(acc@) =~= names_view(before).push(name@));
        if i + 1 >= ts.len() {
            return Ok(acc);
        }
        if !matches!(&ts[i + 1], AttrToken::Punct(c) if *c == ',') {
            return Err(AttrError::Expected { position: i + 1, what: Expected::Comma });
        }
        i = i + 2;
    }
}

} // verus!
