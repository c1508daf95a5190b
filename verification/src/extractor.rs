//! Reading a download request's query string into a project description.

use vstd::prelude::*;
use crate::project_description::{
    target_kind_of_text, unnamed_project, PackageDescription, PackageDescriptionName,
    PackageDescriptionView, ProjectDescriptionDto, ProjectDescriptionView, TargetKind,
};
use crate::text::{chars_of, split_chars, split_on, string_from_chars, texts};

verus! {

/// Whether a text can lose its first and last character: it has two or
/// more, and both are ASCII, so that byte offsets 1 and `len - 1` fall on
/// character boundaries.
pub open spec fn trimmable(s: Seq<char>) -> bool {
    s.len() >= 2 && (s[0] as u32) < 128 && (s.last() as u32) < 128
}

/// The text without its first and last character.
pub fn remove_first_and_last_character(str: &str) -> (r: String)
    requires
        trimmable(str@),
    ensures
        r@ == str@.subrange(1, str@.len() - 1),
{
    let cs = chars_of(str);
    let mut inner: Vec<char> = Vec::new();
    let mut i: usize = 1;
    while i < cs.len() - 1
        invariant
            cs@ == str@,
            1 <= i <= cs@.len() - 1,
            inner@ == cs@.subrange(1, i as int),
        decreases cs@.len() - i,
    {
        inner.push(cs[i]);
        i = i + 1;
    }
    string_from_chars(inner.as_slice())
}

/// Whether `i` is the position of the first `=` of `piece`.
pub open spec fn first_equals_at(piece: Seq<char>, i: int) -> bool {
    0 <= i < piece.len() && piece[i] == '=' && forall|j: int| 0 <= j < i ==> piece[j] != '='
}

/// A query component split at its first `=` into name and value.
pub open spec fn split_at_equals(piece: Seq<char>) -> (Seq<char>, Seq<char>) {
    let i = choose|i: int| first_equals_at(piece, i);
    (piece.take(i), piece.skip(i + 1))
}

/// Whether a query component holds a `=`.
pub open spec fn has_equals(piece: Seq<char>) -> bool {
    exists|i: int| 0 <= i < piece.len() && piece[i] == '='
}

/// The name-value pairs of a query string: its `&`-separated components,
/// each split at its first `=`.
pub open spec fn query_pairs(q: Seq<char>) -> Seq<(Seq<char>, Seq<char>)> {
    split_on(q, '&').map_values(|p: Seq<char>| split_at_equals(p))
}

/// The value a query gives a name: that of its last pair with the name.
pub open spec fn param_value(pairs: Seq<(Seq<char>, Seq<char>)>, k: Seq<char>) -> Option<Seq<char>>
    decreases pairs.len(),
{
    if pairs.len() == 0 {
        None
    } else if pairs.last().0 == k {
        Some(pairs.last().1)
    } else {
        param_value(pairs.drop_last(), k)
    }
}

/// Whether a query string can be read: every component holds a `=`, a
/// target kind is one that is understood, and a starter list is enclosed in
/// one ASCII character on each side.
pub open spec fn query_well_formed(q: Seq<char>) -> bool {
    let pairs = query_pairs(q);
    &&& forall|i: int| 0 <= i < split_on(q, '&').len() ==> has_equals(#[trigger] split_on(q, '&')[i])
    &&& (param_value(pairs, "target_kind"@) matches Some(t) ==> target_kind_of_text(t) is Some)
    &&& (param_value(pairs, "starters"@) matches Some(s) ==> trimmable(s))
}

/// The project description a well-formed query string asks for: absent
/// fields take their defaults; the starter list loses its enclosing
/// characters and is split at `;`.
pub open spec fn description_of_query(q: Seq<char>) -> ProjectDescriptionView {
    let pairs = query_pairs(q);
    ProjectDescriptionView {
        target_kind: match param_value(pairs, "target_kind"@) {
            Some(t) => target_kind_of_text(t).unwrap(),
            None => TargetKind::Bin,
        },
        package_description: PackageDescriptionView {
            name: match param_value(pairs, "name"@) {
                Some(n) => n,
                None => unnamed_project(),
            },
            author: param_value(pairs, "author"@),
            description: param_value(pairs, "description"@),
        },
        starters: match param_value(pairs, "starters"@) {
            Some(s) => split_on(s.subrange(1, s.len() - 1), ';'),
            None => Seq::empty(),
        },
    }
}

/// The payload of a download request.
#[derive(Debug)]
pub struct DownloadPayload {
    pub project_description_dto: ProjectDescriptionDto,
}

/// Splits a query component at its first `=`; `None` where it has none.
fn split_once_equals(piece: &Vec<char>) -> (r: Option<(Vec<char>, Vec<char>)>)
    ensures
        match r {
            Some(kv) => has_equals(piece@) && (kv.0@, kv.1@) == split_at_equals(piece@),
            None => !has_equals(piece@),
        },
{
    let mut i: usize = 0;
    while i < piece.len()
        invariant
            i <= piece@.len(),
            forall|j: int| 0 <= j < i ==> piece@[j] != '=',
        decreases piece@.len() - i,
    {
        if piece[i] == '=' {
            assert(first_equals_at(piece@, i as int));
            proof {
                let k = choose|k: int| first_equals_at(piece@, k);
                assert(k == i) by {
                    if k < i {
                        assert(piece@[k] != '=');
                    } else if k > i {
                        assert(piece@[i as int] != '=');
                    }
                }
            }
            let mut key: Vec<char> = Vec::new();
            let mut j: usize = 0;
            while j < i
                invariant
                    j <= i < piece@.len(),
                    key@ == piece@.take(j as int),
                decreases i - j,
            {
                key.push(piece[j]);
                j = j + 1;
            }
            let mut value: Vec<char> = Vec::new();
            let mut m: usize = i + 1;
            while m < piece.len()
                invariant
                    i + 1 <= m <= piece@.len(),
                    value@ == piece@.subrange(i + 1, m as int),
                decreases piece@.len() - m,
            {
                value.push(piece[m]);
                m = m + 1;
            }
            assert(value@ =~= piece@.skip(i + 1));
            return Some((key, value));
        }
        i = i + 1;
    }
    None
}

/// Whether two character sequences are equal.
fn chars_eq(a: &Vec<char>, b: &Vec<char>) -> (r: bool)
    ensures
        r == (a@ == b@),
{
    if a.len() != b.len() {
        return false;
    }
    let mut i: usize = 0;
    while i < a.len()
        invariant
            a@.len() == b@.len(),
            i <= a@.len(),
            a@.take(i as int) == b@.take(i as int),
        decreases a@.len() - i,
    {
        if a[i] != b[i] {
            return false;
        }
        assert(a@.take(i + 1) =~= a@.take(i as int).push(a@[i as int]));
        assert(b@.take(i + 1) =~= b@.take(i as int).push(b@[i as int]));
        i = i + 1;
    }
    assert(a@.take(a@.len() as int) =~= a@);
    assert(b@.take(b@.len() as int) =~= b@);
    true
}

/// The value the pairs give a name.
fn lookup(pairs: &Vec<(Vec<char>, Vec<char>)>, name: &str) -> (r: Option<String>)
    ensures
        crate::text::opt_text(r) == param_value(pairs@.map_values(|p: (Vec<char>, Vec<char>)| (p.0@, p.1@)), name@),
{
    let ghost pv = pairs@.map_values(|p: (Vec<char>, Vec<char>)| (p.0@, p.1@));
    let key = chars_of(name);
    let mut i: usize = pairs.len();
    assert(pv.take(i as int) =~= pv);
    while i > 0
        invariant
            i <= pairs@.len(),
            pv == pairs@.map_values(|p: (Vec<char>, Vec<char>)| (p.0@, p.1@)),
            key@ == name@,
            param_value(pv, name@) == param_value(pv.take(i as int), name@),
        decreases i,
    {
        assert(pv.take(i as int).drop_last() =~= pv.take(i - 1));
        assert(pv.take(i as int).last() == pv[i - 1]);
        if chars_eq(&pairs[i - 1].0, &key) {
            return Some(string_from_chars(pairs[i - 1].1.as_slice()));
        }
        i = i - 1;
    }
    assert(pv.take(0) =~= Seq::<(Seq<char>, Seq<char>)>::empty());
    None
}

/// The name-value pairs of a query string; `None` where a component has no `=`.
fn pairs_of(query: &str) -> (r: Option<Vec<(Vec<char>, Vec<char>)>>)
    ensures
        match r {
            Some(p) => (forall|i: int| 0 <= i < split_on(query@, '&').len() ==> has_equals(#[trigger] split_on(query@, '&')[i]))
                && p@.map_values(|p: (Vec<char>, Vec<char>)| (p.0@, p.1@)) == query_pairs(query@),
            None => !(forall|i: int| 0 <= i < split_on(query@, '&').len() ==> has_equals(#[trigger] split_on(query@, '&')[i])),
        },
{
    let pieces = split_chars(&chars_of(query), '&');
    let ghost pv = split_on(query@, '&');
    assert(pieces@.map_values(|p: Vec<char>| p@) == pv);
    let mut pairs: Vec<(Vec<char>, Vec<char>)> = Vec::new();
    let mut i: usize = 0;
    while i < pieces.len()
        invariant
            pieces@.map_values(|p: Vec<char>| p@) == pv,
            pv == split_on(query@, '&'),
            pieces@.len() == pv.len(),
            i <= pieces@.len(),
            forall|j: int| 0 <= j < i ==> has_equals(#[trigger] pv[j]),
            pairs@.map_values(|p: (Vec<char>, Vec<char>)| (p.0@, p.1@)) == pv.take(i as int).map_values(|p: Seq<char>| split_at_equals(p)),
        decreases pieces@.len() - i,
    {
        assert(pv[i as int] == pieces@[i as int]@);
        match split_once_equals(&pieces[i]) {
            Some(kv) => {
                let ghost before = pairs@;
                let ghost kvv = (kv.0@, kv.1@);
                pairs.push(kv);
                assert(pairs@.map_values(|p: (Vec<char>, Vec<char>)| (p.0@, p.1@)) =~= before.map_values(|p: (Vec<char>, Vec<char>)| (p.0@, p.1@)).push(kvv));
                assert(pv.take(i + 1).map_values(|p: Seq<char>| split_at_equals(p)) =~= pv.take(i as int).map_values(|p: Seq<char>| split_at_equals(p)).push(split_at_equals(pv[i as int])));
            },
            None => {
                assert(!has_equals(pv[i as int]));
                assert(!(forall|j: int| 0 <= j < split_on(query@, '&').len() ==> has_equals(#[trigger] split_on(query@, '&')[j]))) by {
                    assert(split_on(query@, '&')[i as int] == pv[i as int]);
                }
                return None;
            },
        }
        i = i + 1;
    }
    assert(pv.take(pv.len() as int) =~= pv);
    Some(pairs)
}

/// Whether a query string can be read into a download payload.
pub fn query_is_well_formed(query: &str) -> (r: bool)
    ensures
        r == query_well_formed(query@),
{
    let pairs = match pairs_of(query) {
        Some(p) => p,
        None => {
            return false;
        },
    };
    match lookup(&pairs, "target_kind") {
        Some(t) => {
            if !(crate::text::str_eq(t.as_str(), "Lib") || crate::text::str_eq(t.as_str(), "lib")
                || crate::text::str_eq(t.as_str(), "Bin") || crate::text::str_eq(t.as_str(), "bin")) {
                return false;
            }
        },
        None => {},
    }
    match lookup(&pairs, "starters") {
        Some(s) => {
            let cs = chars_of(s.as_str());
            let n = cs.len();
            if !(n >= 2 && (cs[0] as u32) < 128 && (cs[n - 1] as u32) < 128) {
                return false;
            }
        },
        None => {},
    }
    true
}

impl DownloadPayload {
    /// Reads the payload of a download request from its query string.
    pub fn from_query(query: &str) -> (r: DownloadPayload)
        requires
            query_well_formed(query@),
        ensures
            r.project_description_dto@ == description_of_query(query@),
    {
        let pairs = match pairs_of(query) {
            Some(p) => p,
            None => {
                proof {
                    assert(false);
                }
                Vec::new()
            },
        };
        let target_kind = match lookup(&pairs, "target_kind") {
            Some(t) => match TargetKind::from_str(t.as_str()) {
                Ok(k) => k,
                Err(()) => TargetKind::Bin,
            },
            None => TargetKind::Bin,
        };
        let package_description = PackageDescription {
            name: match lookup(&pairs, "name") {
                Some(n) => PackageDescriptionName(n),
                None => PackageDescriptionName::default(),
            },
            author: lookup(&pairs, "author"),
            description: lookup(&pairs, "description"),
        };
        let starters = match lookup(&pairs, "starters") {
            Some(s) => {
                let inner = remove_first_and_last_character(s.as_str());
                let parts = split_chars(&chars_of(inner.as_str()), ';');
                let mut names: Vec<String> = Vec::new();
                let mut i: usize = 0;
                while i < parts.len()
                    invariant
                        i <= parts@.len(),
                        texts(names@) == parts@.take(i as int).map_values(|p: Vec<char>| p@),
                    decreases parts@.len() - i,
                {
                    let ghost before = names@;
                    names.push(string_from_chars(parts[i].as_slice()));
                    assert(texts(names@) =~= texts(before).push(parts@[i as int]@));
                    assert(parts@.take(i + 1).map_values(|p: Vec<char>| p@) =~= parts@.take(i as int).map_values(|p: Vec<char>| p@).push(parts@[i as int]@));
                    i = i + 1;
                }
                assert(parts@.take(parts@.len() as int) =~= parts@);
                names
            },
            None => Vec::new(),
        };
        let r = DownloadPayload {
            project_description_dto: ProjectDescriptionDto { target_kind, package_description, starters },
        };
        assert(r.project_description_dto@.starters =~= description_of_query(query@).starters);
        r
    }
}

} // verus!
