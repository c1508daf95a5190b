//! The link behind the generate button: the download route of the back end
//! with the description and the chosen starters as query parameters.

use vstd::prelude::*;
use crate::project_description::{target_kind_text, ProjectDescriptionDto, ProjectDescriptionView};
use crate::starter::StarterDto;
use crate::stores::{IntegrationMode, StartersState};
use crate::extractor::{
    description_of_query, first_equals_at, has_equals, param_value, query_pairs, query_well_formed,
    split_at_equals,
};
use crate::project_description::lemma_target_kind_round_trip;
use crate::text::{
    chars_of, copy_string, decimal_text, free_of, join_chars, join_with, lemma_split_on_join,
    split_on, string_from_chars, texts,
};
use url_builder::URLBuilder;

verus! {

/// The text of one query parameter: its name, `=`, and its value.
pub open spec fn param_text(p: (Seq<char>, Seq<char>)) -> Seq<char> {
    p.0 + seq!['='] + p.1
}

/// Query parameters, each as `name=value`, joined with `&`.
pub open spec fn query_text(params: Seq<(Seq<char>, Seq<char>)>) -> Seq<char> {
    join_with(params.map_values(|p: (Seq<char>, Seq<char>)| param_text(p)), seq!['&'])
}

/// Each route preceded by `/`, one after another.
pub open spec fn routes_text(routes: Seq<Seq<char>>) -> Seq<char>
    decreases routes.len(),
{
    if routes.len() == 0 {
        Seq::<char>::empty()
    } else {
        routes_text(routes.drop_last()) + seq!['/'] + routes.last()
    }
}

/// A URL as `protocol://host`, then `:port` unless the port is 0, then the
/// routes, then `?` and the query parameters if there are any.
pub open spec fn url_text(
    protocol: Seq<char>,
    host: Seq<char>,
    port: u16,
    routes: Seq<Seq<char>>,
    params: Seq<(Seq<char>, Seq<char>)>,
) -> Seq<char> {
    protocol + seq![':', '/', '/'] + host + (if port == 0 {
        Seq::<char>::empty()
    } else {
        seq![':'] + decimal_text(port as nat)
    }) + routes_text(routes) + (if params.len() == 0 {
        Seq::<char>::empty()
    } else {
        seq!['?'] + query_text(params)
    })
}

/// Whether `perm` lists every index below `n` exactly once.
pub open spec fn is_permutation(perm: Seq<int>, n: nat) -> bool {
    &&& perm.len() == n
    &&& forall|i: int| 0 <= i < n ==> 0 <= #[trigger] perm[i] < n
    &&& forall|i: int, j: int| 0 <= i < n && 0 <= j < n && i != j ==> perm[i] != perm[j]
    &&& forall|m: int| 0 <= m < n ==> #[trigger] perm.contains(m)
}

/// The items of `s` in the order that `perm` gives.
pub open spec fn reordered<T>(s: Seq<T>, perm: Seq<int>) -> Seq<T> {
    Seq::new(perm.len(), |i: int| s[perm[i]])
}

/// Whether no two parameters share a name.
pub open spec fn names_unique(params: Seq<(Seq<char>, Seq<char>)>) -> bool {
    forall|i: int, j: int|
        0 <= i < params.len() && 0 <= j < params.len() && i != j ==> #[trigger] params[i].0
            != #[trigger] params[j].0
}

/// Whether `u` is the URL of the given parts with the query parameters in
/// some order.
pub open spec fn url_in_some_order(
    u: Seq<char>,
    protocol: Seq<char>,
    host: Seq<char>,
    port: u16,
    routes: Seq<Seq<char>>,
    params: Seq<(Seq<char>, Seq<char>)>,
) -> bool {
    exists|perm: Seq<int>|
        #[trigger] is_permutation(perm, params.len()) && u == url_text(
            protocol,
            host,
            port,
            routes,
            reordered(params, perm),
        )
}

/// The value of each name-value pair of strings.
pub open spec fn pair_texts(v: Seq<(String, String)>) -> Seq<(Seq<char>, Seq<char>)> {
    v.map_values(|p: (String, String)| (p.0@, p.1@))
}

/// Builds a URL with `url_builder::URLBuilder`.
///
/// Trusted: calls `set_protocol`, `set_host`, `set_port`, `add_route` for each
/// route and `add_param` for each parameter, then `build`. The crate's
/// source formats `protocol://host`, `:port` unless the port is 0, `/route`
/// for each route in order, and, where a parameter was added, `?` followed by
/// the `name=value` entries of its `HashMap` joined with `&`. The map is
/// walked in an order that the process's hasher decides, so the contract says
/// only that the parameters come in some order, each once since their names
/// differ.
#[verifier::external_body]
fn build_url(
    protocol: &str,
    host: &str,
    port: u16,
    routes: &Vec<String>,
    params: &Vec<(String, String)>,
) -> (r: String)
    requires
        names_unique(pair_texts(params@)),
    ensures
        url_in_some_order(r@, protocol@, host@, port, texts(routes@), pair_texts(params@)),
{
    let mut builder = URLBuilder::new();
    builder.set_protocol(protocol).set_host(host).set_port(port);
    for route in routes.iter() {
        builder.add_route(route);
    }
    for (name, value) in params.iter() {
        builder.add_param(name, value);
    }
    builder.build()
}

/// The starter list parameter: the names joined with `;`, in brackets.
pub open spec fn starters_param(names: Seq<Seq<char>>) -> Seq<char> {
    seq!['['] + join_with(names, seq![';']) + seq![']']
}

/// The query parameters of a download link: target kind and name, the
/// author and the description where present, and the starter list where
/// starters are chosen.
pub open spec fn download_params(d: ProjectDescriptionView, names: Seq<Seq<char>>) -> Seq<
    (Seq<char>, Seq<char>),
> {
    seq![("target_kind"@, target_kind_text(d.target_kind)), ("name"@, d.package_description.name)]
        + match d.package_description.author {
        Some(a) => seq![("author"@, a)],
        None => Seq::<(Seq<char>, Seq<char>)>::empty(),
    } + match d.package_description.description {
        Some(t) => seq![("description"@, t)],
        None => Seq::<(Seq<char>, Seq<char>)>::empty(),
    } + if names.len() > 0 {
        seq![("starters"@, starters_param(names))]
    } else {
        Seq::<(Seq<char>, Seq<char>)>::empty()
    }
}

/// The names of starters, in order.
pub open spec fn starter_names(v: Seq<StarterDto>) -> Seq<Seq<char>> {
    v.map_values(|d: StarterDto| d.name@)
}

/// Strings joined with one separator character.
fn join_strings(v: &Vec<String>, sep: char) -> (r: String)
    ensures
        r@ == join_with(texts(v@), seq![sep]),
{
    let mut parts: Vec<Vec<char>> = Vec::new();
    let mut i: usize = 0;
    while i < v.len()
        invariant
            i <= v@.len(),
            parts@.map_values(|p: Vec<char>| p@) == texts(v@).take(i as int),
        decreases v@.len() - i,
    {
        let ghost before = parts@;
        parts.push(chars_of(v[i].as_str()));
        assert(parts@.map_values(|p: Vec<char>| p@) =~= before.map_values(|p: Vec<char>| p@).push(
            v@[i as int]@,
        ));
        assert(texts(v@).take(i + 1) =~= texts(v@).take(i as int).push(v@[i as int]@));
        i = i + 1;
    }
    assert(texts(v@).take(v@.len() as int) =~= texts(v@));
    let mut sep_chars: Vec<char> = Vec::new();
    sep_chars.push(sep);
    assert(sep_chars@ =~= seq![sep]);
    let joined = join_chars(&parts, &sep_chars);
    string_from_chars(joined.as_slice())
}

/// The names of the chosen starters.
fn selected_names(v: &Vec<StarterDto>) -> (r: Vec<String>)
    ensures
        texts(r@) == starter_names(v@),
{
    let mut r: Vec<String> = Vec::new();
    let mut i: usize = 0;
    while i < v.len()
        invariant
            i <= v@.len(),
            texts(r@) == starter_names(v@).take(i as int),
        decreases v@.len() - i,
    {
        let ghost before = r@;
        r.push(copy_string(&v[i].name));
        assert(texts(r@) =~= texts(before).push(v@[i as int].name@));
        assert(starter_names(v@).take(i + 1) =~= starter_names(v@).take(i as int).push(
            v@[i as int].name@,
        ));
        i = i + 1;
    }
    assert(starter_names(v@).take(v@.len() as int) =~= starter_names(v@));
    r
}

/// The parameter names used by a download link are all different.
proof fn lemma_download_names_unique(d: ProjectDescriptionView, names: Seq<Seq<char>>)
    ensures
        names_unique(download_params(d, names)),
{
    reveal_strlit("target_kind");
    reveal_strlit("name");
    reveal_strlit("author");
    reveal_strlit("description");
    reveal_strlit("starters");
    let p = download_params(d, names);
    assert forall|i: int, j: int| 0 <= i < p.len() && 0 <= j < p.len() && i != j implies #[trigger] p[i].0
        != #[trigger] p[j].0 by {
        let keys = seq!["target_kind"@, "name"@, "author"@, "description"@, "starters"@];
        assert(forall|a: int, b: int| 0 <= a < 5 && 0 <= b < 5 && a != b ==> keys[a] != keys[b]) by {
            assert(keys[0].len() != keys[1].len());
            assert(keys[0].len() != keys[2].len());
            assert(keys[0][0] != keys[3][0]);
            assert(keys[0].len() != keys[4].len());
            assert(keys[1].len() != keys[2].len());
            assert(keys[1].len() != keys[3].len());
            assert(keys[1].len() != keys[4].len());
            assert(keys[2].len() != keys[3].len());
            assert(keys[2][0] != keys[4][0]);
            assert(keys[3].len() != keys[4].len());
        }
        assert(exists|a: int, b: int| 0 <= a < b < 5 && ((p[i].0 == keys[a] && p[j].0 == keys[b]) || (p[i].0 == keys[b] && p[j].0 == keys[a])));
    }
}

/// With unique names, a query gives each name the value of its one pair.
proof fn lemma_param_value_at(pairs: Seq<(Seq<char>, Seq<char>)>, i: int)
    requires
        names_unique(pairs),
        0 <= i < pairs.len(),
    ensures
        param_value(pairs, pairs[i].0) == Some(pairs[i].1),
    decreases pairs.len(),
{
    if i != pairs.len() - 1 {
        let init = pairs.drop_last();
        assert(pairs.last().0 != pairs[i].0) by {
            assert(pairs[pairs.len() - 1] == pairs.last());
        }
        assert(names_unique(init)) by {
            assert forall|a: int, b: int| 0 <= a < init.len() && 0 <= b < init.len() && a != b implies #[trigger] init[a].0
                != #[trigger] init[b].0 by {
                assert(init[a] == pairs[a] && init[b] == pairs[b]);
            }
        }
        lemma_param_value_at(init, i);
        assert(init[i] == pairs[i]);
    }
}

/// A name that no pair has gets no value.
proof fn lemma_param_value_absent(pairs: Seq<(Seq<char>, Seq<char>)>, k: Seq<char>)
    requires
        forall|i: int| 0 <= i < pairs.len() ==> #[trigger] pairs[i].0 != k,
    ensures
        param_value(pairs, k) is None,
    decreases pairs.len(),
{
    if pairs.len() > 0 {
        let init = pairs.drop_last();
        assert(pairs[pairs.len() - 1] == pairs.last());
        assert forall|i: int| 0 <= i < init.len() implies #[trigger] init[i].0 != k by {
            assert(init[i] == pairs[i]);
        }
        lemma_param_value_absent(init, k);
    }
}

/// Reordering parameters keeps their names unique.
proof fn lemma_reordered_unique(p: Seq<(Seq<char>, Seq<char>)>, perm: Seq<int>)
    requires
        names_unique(p),
        is_permutation(perm, p.len()),
    ensures
        names_unique(reordered(p, perm)),
{
    let r = reordered(p, perm);
    assert forall|a: int, b: int| 0 <= a < r.len() && 0 <= b < r.len() && a != b implies #[trigger] r[a].0
        != #[trigger] r[b].0 by {
        assert(perm[a] != perm[b]);
        assert(0 <= perm[a] < p.len() && 0 <= perm[b] < p.len());
        assert(r[a] == p[perm[a]] && r[b] == p[perm[b]]);
    }
}

/// In any order, each parameter's name keeps its value.
proof fn lemma_reordered_value(p: Seq<(Seq<char>, Seq<char>)>, perm: Seq<int>, m: int)
    requires
        names_unique(p),
        is_permutation(perm, p.len()),
        0 <= m < p.len(),
    ensures
        param_value(reordered(p, perm), p[m].0) == Some(p[m].1),
{
    let r = reordered(p, perm);
    lemma_reordered_unique(p, perm);
    assert(perm.contains(m));
    let i = choose|i: int| 0 <= i < perm.len() && perm[i] == m;
    assert(r[i] == p[m]);
    lemma_param_value_at(r, i);
}

/// In any order, a name no parameter has gets no value.
proof fn lemma_reordered_absent(p: Seq<(Seq<char>, Seq<char>)>, perm: Seq<int>, k: Seq<char>)
    requires
        is_permutation(perm, p.len()),
        forall|j: int| 0 <= j < p.len() ==> #[trigger] p[j].0 != k,
    ensures
        param_value(reordered(p, perm), k) is None,
{
    let r = reordered(p, perm);
    assert forall|i: int| 0 <= i < r.len() implies #[trigger] r[i].0 != k by {
        assert(0 <= perm[i] < p.len());
        assert(r[i] == p[perm[i]]);
    }
    lemma_param_value_absent(r, k);
}

/// A parameter whose name holds no `=` splits back into name and value.
proof fn lemma_split_param(p: (Seq<char>, Seq<char>))
    requires
        free_of(p.0, '='),
    ensures
        has_equals(param_text(p)),
        split_at_equals(param_text(p)) == p,
{
    let t = param_text(p);
    let n = p.0.len() as int;
    assert(t[n] == '=');
    assert(first_equals_at(t, n)) by {
        assert forall|j: int| 0 <= j < n implies t[j] != '=' by {
            assert(t[j] == p.0[j]);
        }
    }
    let i = choose|i: int| first_equals_at(t, i);
    assert(i == n) by {
        if i < n {
            assert(t[i] == p.0[i]);
        } else if i > n {
            assert(t[n] != '=');
        }
    }
    assert(t.take(n) =~= p.0);
    assert(t.skip(n + 1) =~= p.1);
}

/// Joining parts free of `c` with a separator free of `c` gives a text free
/// of `c`.
proof fn lemma_join_free(parts: Seq<Seq<char>>, sep: Seq<char>, c: char)
    requires
        free_of(sep, c),
        forall|i: int| 0 <= i < parts.len() ==> free_of(#[trigger] parts[i], c),
    ensures
        free_of(join_with(parts, sep), c),
    decreases parts.len(),
{
    if parts.len() == 1 {
        assert(free_of(parts[0], c));
    } else if parts.len() > 1 {
        let init = parts.drop_last();
        assert forall|i: int| 0 <= i < init.len() implies free_of(#[trigger] init[i], c) by {
            assert(init[i] == parts[i]);
        }
        lemma_join_free(init, sep, c);
        assert(free_of(parts.last(), c)) by {
            assert(parts[parts.len() - 1] == parts.last());
        }
        let j = join_with(init, sep);
        let whole = j + sep + parts.last();
        assert forall|k: int| 0 <= k < whole.len() implies whole[k] != c by {
            if k < j.len() {
                assert(whole[k] == j[k]);
            } else if k < j.len() + sep.len() {
                assert(whole[k] == sep[k - j.len()]);
            } else {
                assert(whole[k] == parts.last()[k - j.len() - sep.len()]);
            }
        }
    }
}

/// The query string of a download link reads back, on the back end, as the
/// description the link was made from with the chosen starters' names as its
/// starter list, whatever order the parameters come in: where no value holds
/// `&` and no starter name holds `;`, the query is accepted and every field
/// is recovered.
pub proof fn lemma_download_query_round_trip(
    d: ProjectDescriptionView,
    names: Seq<Seq<char>>,
    perm: Seq<int>,
)
    requires
        free_of(d.package_description.name, '&'),
        d.package_description.author matches Some(a) ==> free_of(a, '&'),
        d.package_description.description matches Some(t) ==> free_of(t, '&'),
        forall|i: int|
            0 <= i < names.len() ==> free_of(#[trigger] names[i], '&') && free_of(names[i], ';'),
        is_permutation(perm, download_params(d, names).len()),
    ensures
        query_well_formed(query_text(reordered(download_params(d, names), perm))),
        description_of_query(query_text(reordered(download_params(d, names), perm)))
            == (ProjectDescriptionView { starters: names, ..d }),
{
    reveal_strlit("target_kind");
    reveal_strlit("name");
    reveal_strlit("author");
    reveal_strlit("description");
    reveal_strlit("starters");
    reveal_strlit("Lib");
    reveal_strlit("lib");
    reveal_strlit("Bin");
    reveal_strlit("bin");
    let p = download_params(d, names);
    let r = reordered(p, perm);
    let q = query_text(r);
    let texts_of_r = r.map_values(|x: (Seq<char>, Seq<char>)| param_text(x));
    lemma_download_names_unique(d, names);
    lemma_reordered_unique(p, perm);
    // every name and value is free of `&`, and every name of `=`
    if names.len() > 0 {
        lemma_join_free(names, seq![';'], '&');
        let sp = starters_param(names);
        assert forall|k: int| 0 <= k < sp.len() implies sp[k] != '&' by {
            let j = join_with(names, seq![';']);
            if 0 < k < sp.len() - 1 {
                assert(sp[k] == j[k - 1]);
            }
        }
    }
    assert forall|m: int| 0 <= m < p.len() implies free_of(#[trigger] p[m].0, '&') && free_of(p[m].0, '=')
        && free_of(p[m].1, '&') by {
        assert(free_of(target_kind_text(d.target_kind), '&'));
    }
    assert forall|i: int| 0 <= i < texts_of_r.len() implies free_of(#[trigger] texts_of_r[i], '&') by {
        assert(0 <= perm[i] < p.len());
        assert(r[i] == p[perm[i]]);
        let t = param_text(r[i]);
        assert forall|k: int| 0 <= k < t.len() implies t[k] != '&' by {
            if k < r[i].0.len() {
                assert(t[k] == r[i].0[k]);
            } else if k > r[i].0.len() {
                assert(t[k] == r[i].1[k - r[i].0.len() - 1]);
            }
        }
    }
    lemma_split_on_join(texts_of_r, '&');
    assert(split_on(q, '&') == texts_of_r);
    assert forall|i: int| 0 <= i < r.len() implies has_equals(#[trigger] texts_of_r[i]) && split_at_equals(
        texts_of_r[i],
    ) == r[i] by {
        assert(0 <= perm[i] < p.len());
        assert(r[i] == p[perm[i]]);
        lemma_split_param(r[i]);
    }
    assert(query_pairs(q) =~= r);
    // the value each name gets
    lemma_reordered_value(p, perm, 0);
    lemma_reordered_value(p, perm, 1);
    let na: int = if d.package_description.author is Some { 1 } else { 0 };
    let nd: int = if d.package_description.description is Some { 1 } else { 0 };
    if d.package_description.author is Some {
        lemma_reordered_value(p, perm, 2);
    } else {
        assert forall|j: int| 0 <= j < p.len() implies #[trigger] p[j].0 != "author"@ by {
            assert(p[j].0.len() != 6 || p[j].0[0] != 'a') by {
                if j == 0 {
                } else if j == 1 {
                } else if j == 2 && nd == 1 {
                } else {
                }
            }
        }
        lemma_reordered_absent(p, perm, "author"@);
    }
    if d.package_description.description is Some {
        lemma_reordered_value(p, perm, 2 + na);
    } else {
        assert forall|j: int| 0 <= j < p.len() implies #[trigger] p[j].0 != "description"@ by {
            assert(p[j].0.len() != 11 || p[j].0[0] != 'd') by {
                if j == 0 {
                } else if j == 1 {
                } else if j == 2 && na == 1 {
                } else {
                }
            }
        }
        lemma_reordered_absent(p, perm, "description"@);
    }
    if names.len() > 0 {
        lemma_reordered_value(p, perm, 2 + na + nd);
        let sp = starters_param(names);
        assert(sp.subrange(1, sp.len() - 1) =~= join_with(names, seq![';']));
        if names.len() >= 1 {
            lemma_split_on_join(names, ';');
        }
    } else {
        assert forall|j: int| 0 <= j < p.len() implies #[trigger] p[j].0 != "starters"@ by {
            assert(p[j].0.len() != 8) by {
                if j == 0 {
                } else if j == 1 {
                } else if j == 2 {
                } else {
                }
            }
        }
        lemma_reordered_absent(p, perm, "starters"@);
    }
    lemma_target_kind_round_trip(d.target_kind);
    let got = description_of_query(q);
    assert(got.target_kind == d.target_kind);
    assert(got.package_description == d.package_description);
    assert(got.starters == names);
}

/// The link the generate button points at: nothing while testing without a
/// back end; otherwise the download route of the local back end, with the
/// description's target kind, name, author and description and the names
/// of the chosen starters as query parameters, in an order the URL builder
/// decides.
pub fn generate_button(
    mode: IntegrationMode,
    desc: &ProjectDescriptionDto,
    starters: &StartersState,
) -> (r: String)
    ensures
        mode == IntegrationMode::Test ==> r@ == Seq::<char>::empty(),
        mode == IntegrationMode::Production ==> url_in_some_order(
            r@,
            "http"@,
            "localhost"@,
            8080,
            seq!["download"@],
            download_params(desc@, starter_names(starters.selected_starters@)),
        ),
{
    match mode {
        IntegrationMode::Test => String::new(),
        IntegrationMode::Production => {
            let ghost names = starter_names(starters.selected_starters@);
            let ghost d = desc@;
            let mut params: Vec<(String, String)> = Vec::new();
            params.push(("target_kind".to_owned(), desc.target_kind.to_string()));
            params.push(("name".to_owned(), copy_string(&desc.package_description.name.0)));
            let ghost base = seq![("target_kind"@, target_kind_text(d.target_kind)), ("name"@, d.package_description.name)];
            assert(pair_texts(params@) =~= base);
            let ghost with_author = base + match d.package_description.author {
                Some(a) => seq![("author"@, a)],
                None => Seq::<(Seq<char>, Seq<char>)>::empty(),
            };
            match &desc.package_description.author {
                Some(a) => {
                    let ghost before = params@;
                    params.push(("author".to_owned(), copy_string(a)));
                    assert(pair_texts(params@) =~= pair_texts(before).push(("author"@, a@)));
                },
                None => {},
            }
            assert(pair_texts(params@) =~= with_author);
            let ghost with_description = with_author + match d.package_description.description {
                Some(t) => seq![("description"@, t)],
                None => Seq::<(Seq<char>, Seq<char>)>::empty(),
            };
            match &desc.package_description.description {
                Some(t) => {
                    let ghost before = params@;
                    params.push(("description".to_owned(), copy_string(t)));
                    assert(pair_texts(params@) =~= pair_texts(before).push(("description"@, t@)));
                },
                None => {},
            }
            assert(pair_texts(params@) =~= with_description);
            if starters.selected_starters.len() > 0 {
                let chosen = selected_names(&starters.selected_starters);
                let joined = join_strings(&chosen, ';');
                let mut list = "[".to_owned();
                list.append(joined.as_str());
                list.append("]");
                proof {
                    reveal_strlit("[");
                    reveal_strlit("]");
                }
                assert(list@ =~= starters_param(names));
                let ghost before = params@;
                params.push(("starters".to_owned(), list));
                assert(pair_texts(params@) =~= pair_texts(before).push(("starters"@, starters_param(names))));
                assert(pair_texts(params@) =~= download_params(d, names));
            } else {
                assert(pair_texts(params@) =~= download_params(d, names));
            }
            proof {
                lemma_download_names_unique(desc@, names);
            }
            let mut routes: Vec<String> = Vec::new();
            routes.push("download".to_owned());
            assert(texts(routes@) =~= seq!["download"@]);
            build_url("http", "localhost", 8080, &routes, &params)
        },
    }
}

} // verus!
