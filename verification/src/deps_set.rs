//! A set of dependencies keyed by name, kept in ascending order of name as
//! a sorted map keeps them.

use vstd::prelude::*;
use crate::cargo_toml_parser_extensions::{Dependency, DependencyView};
use crate::text::{chars_of, copy_string, texts};

verus! {

/// Whether name `a` sorts before name `b`: lexicographically, by the code
/// of each character, a proper prefix first.
pub open spec fn key_precedes(a: Seq<char>, b: Seq<char>) -> bool
    decreases a.len(),
{
    if a.len() == 0 {
        b.len() > 0
    } else if b.len() == 0 {
        false
    } else if a[0] != b[0] {
        (a[0] as u32) < (b[0] as u32)
    } else {
        key_precedes(a.drop_first(), b.drop_first())
    }
}

/// No name sorts before itself.
pub proof fn lemma_key_irreflexive(a: Seq<char>)
    ensures
        !key_precedes(a, a),
    decreases a.len(),
{
    if a.len() > 0 {
        lemma_key_irreflexive(a.drop_first());
    }
}

/// Of two different names, exactly one sorts first.
pub proof fn lemma_key_total(a: Seq<char>, b: Seq<char>)
    ensures
        a != b ==> (key_precedes(a, b) || key_precedes(b, a)),
        !(key_precedes(a, b) && key_precedes(b, a)),
    decreases a.len(),
{
    if a.len() > 0 && b.len() > 0 {
        if a[0] == b[0] {
            lemma_key_total(a.drop_first(), b.drop_first());
            if a.drop_first() == b.drop_first() {
                assert forall|i: int| 0 <= i < a.len() implies a[i] == b[i] by {
                    if i > 0 {
                        assert(a[i] == a.drop_first()[i - 1]);
                        assert(b[i] == b.drop_first()[i - 1]);
                    }
                }
                assert(a =~= b);
            }
        } else {
            vstd::utf8::char_u32_cast(a[0], a[0] as u32);
            vstd::utf8::char_u32_cast(b[0], b[0] as u32);
        }
    } else if a.len() == 0 && b.len() == 0 {
        assert(a =~= b);
    }
}

/// Sorting before is transitive.
pub proof fn lemma_key_transitive(a: Seq<char>, b: Seq<char>, c: Seq<char>)
    requires
        key_precedes(a, b),
        key_precedes(b, c),
    ensures
        key_precedes(a, c),
    decreases a.len(),
{
    if a.len() > 0 && b.len() > 0 && c.len() > 0 {
        if a[0] == b[0] && b[0] == c[0] {
            lemma_key_transitive(a.drop_first(), b.drop_first(), c.drop_first());
        }
    }
}

proof fn lemma_key_skip(a: Seq<char>, b: Seq<char>, i: int)
    requires
        0 <= i <= a.len(),
        i <= b.len(),
        a.take(i) == b.take(i),
    ensures
        key_precedes(a, b) == key_precedes(a.skip(i), b.skip(i)),
    decreases i,
{
    if i > 0 {
        assert(a[0] == a.take(i)[0]);
        assert(b[0] == b.take(i)[0]);
        assert(a.drop_first().take(i - 1) =~= a.take(i).drop_first());
        assert(b.drop_first().take(i - 1) =~= b.take(i).drop_first());
        lemma_key_skip(a.drop_first(), b.drop_first(), i - 1);
        assert(a.drop_first().skip(i - 1) =~= a.skip(i));
        assert(b.drop_first().skip(i - 1) =~= b.skip(i));
    } else {
        assert(a.skip(0) =~= a);
        assert(b.skip(0) =~= b);
    }
}

/// Whether name `a` sorts before name `b`.
pub fn key_less(a: &Vec<char>, b: &Vec<char>) -> (r: bool)
    ensures
        r == key_precedes(a@, b@),
{
    let mut i: usize = 0;
    while i < a.len() && i < b.len() && a[i] == b[i]
        invariant
            i <= a@.len(),
            i <= b@.len(),
            a@.take(i as int) == b@.take(i as int),
        decreases a@.len() - i,
    {
        assert(a@.take(i + 1) =~= a@.take(i as int).push(a@[i as int]));
        assert(b@.take(i + 1) =~= b@.take(i as int).push(b@[i as int]));
        i = i + 1;
    }
    proof {
        lemma_key_skip(a@, b@, i as int);
    }
    if i == a.len() {
        assert(a@.skip(i as int).len() == 0);
        i < b.len()
    } else if i == b.len() {
        false
    } else {
        assert(a@.skip(i as int)[0] == a@[i as int]);
        assert(b@.skip(i as int)[0] == b@[i as int]);
        let x = a[i];
        let y = b[i];
        (x as u32) < (y as u32)
    }
}

/// Whether the names of the entries strictly ascend.
pub open spec fn ascending(s: Seq<(Seq<char>, DependencyView)>) -> bool {
    forall|i: int, j: int| 0 <= i < j < s.len() ==> key_precedes(#[trigger] s[i].0, #[trigger] s[j].0)
}

/// The map the entries describe, a later entry for a name replacing an
/// earlier one.
pub open spec fn entries_map(s: Seq<(Seq<char>, DependencyView)>) -> Map<Seq<char>, DependencyView>
    decreases s.len(),
{
    if s.len() == 0 {
        Map::empty()
    } else {
        entries_map(s.drop_last()).insert(s.last().0, s.last().1)
    }
}

/// The names the map holds are those of the entries.
pub proof fn lemma_entries_map_dom(s: Seq<(Seq<char>, DependencyView)>, k: Seq<char>)
    ensures
        entries_map(s).contains_key(k) <==> exists|i: int| 0 <= i < s.len() && #[trigger] s[i].0 == k,
    decreases s.len(),
{
    if s.len() > 0 {
        lemma_entries_map_dom(s.drop_last(), k);
        if entries_map(s.drop_last()).contains_key(k) {
            let i = choose|i: int| 0 <= i < s.drop_last().len() && #[trigger] s.drop_last()[i].0 == k;
            assert(s[i].0 == k);
        }
        if exists|i: int| 0 <= i < s.len() && #[trigger] s[i].0 == k {
            let i = choose|i: int| 0 <= i < s.len() && #[trigger] s[i].0 == k;
            if i < s.len() - 1 {
                assert(s.drop_last()[i].0 == k);
            }
        }
    }
}

/// In ascending entries, each name maps to the value of its entry.
pub proof fn lemma_entries_map_index(s: Seq<(Seq<char>, DependencyView)>, i: int)
    requires
        ascending(s),
        0 <= i < s.len(),
    ensures
        entries_map(s).contains_key(s[i].0),
        entries_map(s)[s[i].0] == s[i].1,
    decreases s.len(),
{
    if i < s.len() - 1 {
        assert(ascending(s.drop_last()));
        lemma_entries_map_index(s.drop_last(), i);
        assert(key_precedes(s[i].0, s[s.len() - 1].0));
        lemma_key_irreflexive(s[i].0);
    }
}

/// Dropping the last of ascending entries drops its name from the map.
proof fn lemma_entries_map_drop_last(s: Seq<(Seq<char>, DependencyView)>)
    requires
        ascending(s),
        s.len() > 0,
    ensures
        entries_map(s.drop_last()) == entries_map(s).remove(s.last().0),
{
    let k = s.last().0;
    assert(!entries_map(s.drop_last()).contains_key(k)) by {
        lemma_entries_map_dom(s.drop_last(), k);
        if entries_map(s.drop_last()).contains_key(k) {
            let i = choose|i: int| 0 <= i < s.drop_last().len() && #[trigger] s.drop_last()[i].0 == k;
            assert(key_precedes(s[i].0, s[s.len() - 1].0));
            lemma_key_irreflexive(k);
        }
    }
    assert(entries_map(s.drop_last()) =~= entries_map(s).remove(k));
}

/// The largest name of ascending entries is the last one.
proof fn lemma_last_is_largest(s: Seq<(Seq<char>, DependencyView)>, k: Seq<char>)
    requires
        ascending(s),
        s.len() > 0,
        entries_map(s).contains_key(k),
        k != s.last().0,
    ensures
        key_precedes(k, s.last().0),
{
    lemma_entries_map_dom(s, k);
    let i = choose|i: int| 0 <= i < s.len() && #[trigger] s[i].0 == k;
    assert(i != s.len() - 1);
    assert(key_precedes(s[i].0, s[s.len() - 1].0));
}

/// Ascending entries are determined by the map they describe.
pub proof fn lemma_ascending_unique(s: Seq<(Seq<char>, DependencyView)>, t: Seq<(Seq<char>, DependencyView)>)
    requires
        ascending(s),
        ascending(t),
        entries_map(s) == entries_map(t),
    ensures
        s == t,
    decreases s.len(),
{
    if s.len() == 0 {
        if t.len() > 0 {
            assert(entries_map(t).contains_key(t.last().0));
        }
        assert(s =~= t);
    } else if t.len() == 0 {
        assert(entries_map(s).contains_key(s.last().0));
    } else {
        let ks = s.last().0;
        let kt = t.last().0;
        assert(entries_map(s).contains_key(ks));
        assert(entries_map(t).contains_key(kt));
        if ks != kt {
            lemma_last_is_largest(s, kt);
            lemma_last_is_largest(t, ks);
            lemma_key_total(ks, kt);
        }
        lemma_entries_map_drop_last(s);
        lemma_entries_map_drop_last(t);
        assert(ascending(s.drop_last()));
        assert(ascending(t.drop_last()));
        lemma_ascending_unique(s.drop_last(), t.drop_last());
        assert(s.last().1 == entries_map(s)[ks]);
        assert(t.last().1 == entries_map(t)[kt]);
        assert(s =~= s.drop_last().push(s.last()));
        assert(t =~= t.drop_last().push(t.last()));
    }
}

/// The ascending entries of a map, where it has some.
pub open spec fn ordered_entries(m: Map<Seq<char>, DependencyView>) -> Seq<(Seq<char>, DependencyView)> {
    choose|s: Seq<(Seq<char>, DependencyView)>| ascending(s) && entries_map(s) == m
}

/// Ascending entries are the ordered entries of their map.
pub proof fn lemma_ordered_entries(s: Seq<(Seq<char>, DependencyView)>)
    requires
        ascending(s),
    ensures
        ordered_entries(entries_map(s)) == s,
{
    let m = entries_map(s);
    assert(ascending(s) && entries_map(s) == m);
    let t = ordered_entries(m);
    lemma_ascending_unique(s, t);
}

/// Dependencies by name, in ascending order of name.
#[derive(Debug)]
pub struct DepsSet {
    entries: Vec<(String, Dependency)>,
}

impl View for DepsSet {
    type V = Seq<(Seq<char>, DependencyView)>;

    /// The entries, in ascending order of name.
    closed spec fn view(&self) -> Seq<(Seq<char>, DependencyView)> {
        self.entries@.map_values(|e: (String, Dependency)| (e.0@, e.1@))
    }
}

impl DepsSet {
    /// The entries of a set always ascend by name.
    #[verifier::type_invariant]
    pub open spec fn names_ascend(self) -> bool {
        ascending(self@)
    }

    /// The dependencies by name.
    pub open spec fn map(self) -> Map<Seq<char>, DependencyView> {
        entries_map(self@)
    }

    /// An empty set.
    pub fn new() -> (r: DepsSet)
        ensures
            r@ == Seq::<(Seq<char>, DependencyView)>::empty(),
            r.map() == Map::<Seq<char>, DependencyView>::empty(),
    {
        let r = DepsSet { entries: Vec::new() };
        assert(r@ =~= Seq::<(Seq<char>, DependencyView)>::empty());
        r
    }

    /// A copy with the same entries.
    pub fn duplicate(&self) -> (r: DepsSet)
        ensures
            r@ == self@,
    {
        proof {
            use_type_invariant(self);
        }
        let mut entries: Vec<(String, Dependency)> = Vec::new();
        let mut i: usize = 0;
        while i < self.entries.len()
            invariant
                i <= self.entries@.len(),
                entries@.map_values(|e: (String, Dependency)| (e.0@, e.1@)) == self@.take(i as int),
            decreases self.entries@.len() - i,
        {
            let ghost before = entries@;
            entries.push((copy_string(&self.entries[i].0), self.entries[i].1.duplicate()));
            assert(entries@.map_values(|e: (String, Dependency)| (e.0@, e.1@)) =~= before.map_values(
                |e: (String, Dependency)| (e.0@, e.1@),
            ).push(self@[i as int]));
            assert(self@.take(i + 1) =~= self@.take(i as int).push(self@[i as int]));
            i = i + 1;
        }
        assert(self@.take(self@.len() as int) =~= self@);
        DepsSet { entries }
    }

    /// The number of dependencies.
    pub fn len(&self) -> (r: usize)
        ensures
            r == self@.len(),
    {
        self.entries.len()
    }

    /// The name and declaration at position `i` in ascending order.
    pub fn entry(&self, i: usize) -> (r: (&String, &Dependency))
        requires
            i < self@.len(),
        ensures
            (r.0@, r.1@) == self@[i as int],
    {
        let e = &self.entries[i];
        (&e.0, &e.1)
    }

    /// The declaration for `name`, if the set has one.
    pub fn get(&self, name: &String) -> (r: Option<&Dependency>)
        ensures
            match r {
                Some(d) => self.map().contains_key(name@) && self.map()[name@] == d@,
                None => !self.map().contains_key(name@),
            },
    {
        proof {
            use_type_invariant(self);
        }
        let mut i: usize = 0;
        while i < self.entries.len()
            invariant
                i <= self@.len(),
                ascending(self@),
                forall|j: int| 0 <= j < i ==> self@[j].0 != name@,
            decreases self@.len() - i,
        {
            if self.entries[i].0 == *name {
                proof {
                    lemma_entries_map_index(self@, i as int);
                }
                return Some(&self.entries[i].1);
            }
            i = i + 1;
        }
        proof {
            lemma_entries_map_dom(self@, name@);
        }
        None
    }

    /// Whether the set has a declaration for `name`.
    pub fn contains_key(&self, name: &String) -> (r: bool)
        ensures
            r == self.map().contains_key(name@),
    {
        self.get(name).is_some()
    }

    /// Sets the declaration of `name` to `dep`, keeping the names ascending.
    pub fn insert(&mut self, name: String, dep: Dependency)
        ensures
            final(self).map() == old(self).map().insert(name@, dep@),
    {
        proof {
            use_type_invariant(&*self);
        }
        let key = chars_of(name.as_str());
        let ghost s = self@;
        let mut i: usize = 0;
        while i < self.entries.len()
            invariant
                i <= s.len(),
                s == self@,
                ascending(s),
                key@ == name@,
                forall|j: int| 0 <= j < i ==> key_precedes(#[trigger] s[j].0, name@),
            ensures
                i <= s.len(),
                s == self@,
                forall|j: int| 0 <= j < i ==> key_precedes(#[trigger] s[j].0, name@),
                i < s.len() ==> !key_precedes(s[i as int].0, name@),
            decreases s.len() - i,
        {
            let here = chars_of(self.entries[i].0.as_str());
            if !key_less(&here, &key) {
                break;
            }
            i = i + 1;
        }
        let ghost e = (name@, dep@);
        if i < self.entries.len() && self.entries[i].0 == name {
            let ghost t = s.update(i as int, e);
            assert(ascending(t)) by {
                assert forall|a: int, b: int| 0 <= a < b < t.len() implies key_precedes(
                    #[trigger] t[a].0,
                    #[trigger] t[b].0,
                ) by {
                    assert(key_precedes(s[a].0, s[b].0));
                }
            }
            proof {
                self.lemma_replace_map(i as int, e);
            }
            let mut entries: Vec<(String, Dependency)> = Vec::new();
            std::mem::swap(&mut entries, &mut self.entries);
            entries.set(i, (name, dep));
            assert(entries@.map_values(|x: (String, Dependency)| (x.0@, x.1@)) =~= t);
            *self = DepsSet { entries };
        } else {
            proof {
                if i < s.len() {
                    lemma_key_total(s[i as int].0, name@);
                }
                lemma_entries_map_dom(s, name@);
                if entries_map(s).contains_key(name@) {
                    let j = choose|j: int| 0 <= j < s.len() && #[trigger] s[j].0 == name@;
                    lemma_key_irreflexive(name@);
                    if j > i {
                        assert(key_precedes(s[i as int].0, s[j].0));
                        lemma_key_transitive(name@, s[i as int].0, s[j].0);
                    }
                }
            }
            let ghost t = s.insert(i as int, e);
            assert(ascending(t)) by {
                assert forall|a: int, b: int| 0 <= a < b < t.len() implies key_precedes(
                    #[trigger] t[a].0,
                    #[trigger] t[b].0,
                ) by {
                    if b < i {
                        assert(key_precedes(s[a].0, s[b].0));
                    } else if b == i {
                        assert(key_precedes(s[a].0, name@));
                    } else if a == i {
                        if b - 1 > i {
                            assert(key_precedes(s[i as int].0, s[b - 1].0));
                            lemma_key_transitive(name@, s[i as int].0, s[b - 1].0);
                        }
                    } else if a < i {
                        assert(key_precedes(s[a].0, s[b - 1].0));
                    } else {
                        assert(key_precedes(s[a - 1].0, s[b - 1].0));
                    }
                }
            }
            proof {
                self.lemma_insert_map(i as int, e);
            }
            let mut entries: Vec<(String, Dependency)> = Vec::new();
            std::mem::swap(&mut entries, &mut self.entries);
            entries.insert(i, (name, dep));
            assert(entries@.map_values(|x: (String, Dependency)| (x.0@, x.1@)) =~= t);
            *self = DepsSet { entries };
        }
    }

    proof fn lemma_replace_map(&self, i: int, e: (Seq<char>, DependencyView))
        requires
            ascending(self@),
            0 <= i < self@.len(),
            self@[i].0 == e.0,
            ascending(self@.update(i, e)),
        ensures
            entries_map(self@.update(i, e)) == entries_map(self@).insert(e.0, e.1),
    {
        let s = self@;
        let t = s.update(i, e);
        assert forall|k: Seq<char>| #![trigger entries_map(t).contains_key(k)]
            entries_map(t).contains_key(k) == entries_map(s).insert(e.0, e.1).contains_key(k) by {
            lemma_entries_map_dom(t, k);
            lemma_entries_map_dom(s, k);
            if exists|j: int| 0 <= j < s.len() && #[trigger] s[j].0 == k {
                let j = choose|j: int| 0 <= j < s.len() && #[trigger] s[j].0 == k;
                assert(t[j].0 == k);
            }
            if exists|j: int| 0 <= j < t.len() && #[trigger] t[j].0 == k {
                let j = choose|j: int| 0 <= j < t.len() && #[trigger] t[j].0 == k;
                assert(s[j].0 == k);
            }
        }
        assert forall|k: Seq<char>| #[trigger] entries_map(t).contains_key(k) implies entries_map(t)[k]
            == entries_map(s).insert(e.0, e.1)[k] by {
            lemma_entries_map_dom(t, k);
            let j = choose|j: int| 0 <= j < t.len() && #[trigger] t[j].0 == k;
            lemma_entries_map_index(t, j);
            if j != i {
                lemma_entries_map_index(s, j);
                lemma_key_irreflexive(k);
                if j < i {
                    assert(key_precedes(t[j].0, t[i].0));
                } else {
                    assert(key_precedes(t[i].0, t[j].0));
                }
                assert(k != e.0);
            }
        }
        assert(entries_map(t) =~= entries_map(s).insert(e.0, e.1));
    }

    proof fn lemma_insert_map(&self, i: int, e: (Seq<char>, DependencyView))
        requires
            ascending(self@),
            0 <= i <= self@.len(),
            !entries_map(self@).contains_key(e.0),
            ascending(self@.insert(i, e)),
        ensures
            entries_map(self@.insert(i, e)) == entries_map(self@).insert(e.0, e.1),
    {
        let s = self@;
        let t = s.insert(i, e);
        assert forall|k: Seq<char>| #![trigger entries_map(t).contains_key(k)]
            entries_map(t).contains_key(k) == entries_map(s).insert(e.0, e.1).contains_key(k) by {
            lemma_entries_map_dom(t, k);
            lemma_entries_map_dom(s, k);
            if exists|j: int| 0 <= j < s.len() && #[trigger] s[j].0 == k {
                let j = choose|j: int| 0 <= j < s.len() && #[trigger] s[j].0 == k;
                if j < i {
                    assert(t[j].0 == k);
                } else {
                    assert(t[j + 1].0 == k);
                }
            }
            if exists|j: int| 0 <= j < t.len() && #[trigger] t[j].0 == k {
                let j = choose|j: int| 0 <= j < t.len() && #[trigger] t[j].0 == k;
                if j < i {
                    assert(s[j].0 == k);
                } else if j > i {
                    assert(s[j - 1].0 == k);
                }
            }
            if k == e.0 {
                assert(t[i].0 == k);
            }
        }
        assert forall|k: Seq<char>| #[trigger] entries_map(t).contains_key(k) implies entries_map(t)[k]
            == entries_map(s).insert(e.0, e.1)[k] by {
            lemma_entries_map_dom(t, k);
            let j = choose|j: int| 0 <= j < t.len() && #[trigger] t[j].0 == k;
            lemma_entries_map_index(t, j);
            if j < i {
                lemma_entries_map_index(s, j);
                assert(s[j].0 == k);
            } else if j > i {
                lemma_entries_map_index(s, j - 1);
                assert(s[j - 1].0 == k);
            }
        }
        assert(entries_map(t) =~= entries_map(s).insert(e.0, e.1));
    }

    /// The names, in ascending order.
    pub fn names(&self) -> (r: Vec<String>)
        ensures
            texts(r@) == self@.map_values(|e: (Seq<char>, DependencyView)| e.0),
    {
        let mut r: Vec<String> = Vec::new();
        let mut i: usize = 0;
        while i < self.entries.len()
            invariant
                i <= self@.len(),
                texts(r@) == self@.take(i as int).map_values(|e: (Seq<char>, DependencyView)| e.0),
            decreases self@.len() - i,
        {
            let ghost prev = r@;
            r.push(copy_string(&self.entries[i].0));
            assert(texts(r@) =~= texts(prev).push(self@[i as int].0));
            assert(self@.take(i + 1).map_values(|e: (Seq<char>, DependencyView)| e.0)
                =~= self@.take(i as int).map_values(|e: (Seq<char>, DependencyView)| e.0).push(self@[i as int].0));
            i = i + 1;
        }
        assert(self@.take(self@.len() as int) =~= self@);
        r
    }
}

} // verus!
