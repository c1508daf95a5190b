//! Character-level helpers shared by the rest of the library.

use vstd::prelude::*;
use vstd::string::*;

verus! {

/// Appends one character to a string.
///
/// Trusted: calls `String::push`, which std documents as appending the
/// given char to the end of the string.
#[verifier::external_body]
pub(crate) fn push_char(s: &mut String, c: char)
    ensures
        final(s)@ == old(s)@.push(c),
{
    s.push(c);
}

/// The characters of a string slice, in order.
pub fn chars_of(s: &str) -> (r: Vec<char>)
    ensures
        r@ == s@,
{
    let n = s.unicode_len();
    let mut r: Vec<char> = Vec::new();
    let mut i: usize = 0;
    while i < n
        invariant
            n == s@.len(),
            i <= n,
            r@ == s@.subrange(0, i as int),
        decreases n - i,
    {
        let c = s.get_char(i);
        r.push(c);
        i = i + 1;
    }
    r
}

/// A string holding exactly the given characters.
pub fn string_from_chars(cs: &[char]) -> (r: String)
    ensures
        r@ == cs@,
{
    let mut r = String::new();
    let mut i: usize = 0;
    while i < cs.len()
        invariant
            i <= cs@.len(),
            r@ == cs@.subrange(0, i as int),
        decreases cs@.len() - i,
    {
        push_char(&mut r, cs[i]);
        i = i + 1;
    }
    r
}

/// Whether two string slices hold the same characters.
pub fn str_eq(a: &str, b: &str) -> (r: bool)
    ensures
        r == (a@ == b@),
{
    let x = a.to_owned();
    let y = b.to_owned();
    x == y
}

/// Concatenation of two string slices into a new string.
pub fn concat(a: &str, b: &str) -> (r: String)
    ensures
        r@ == a@ + b@,
{
    let mut r = a.to_owned();
    r.append(b);
    r
}


/// The pieces of `t` between occurrences of `c`, as `str::split` with a
/// single-character pattern yields them: always at least one piece.
pub open spec fn split_on(t: Seq<char>, c: char) -> Seq<Seq<char>>
    decreases t.len(),
{
    if t.len() == 0 {
        seq![Seq::<char>::empty()]
    } else {
        let r = split_on(t.drop_last(), c);
        if t.last() == c {
            r.push(Seq::<char>::empty())
        } else {
            r.update(r.len() - 1, r.last().push(t.last()))
        }
    }
}

/// `parts` joined with `sep` between consecutive parts.
pub open spec fn join_with(parts: Seq<Seq<char>>, sep: Seq<char>) -> Seq<char>
    decreases parts.len(),
{
    if parts.len() == 0 {
        Seq::<char>::empty()
    } else if parts.len() == 1 {
        parts[0]
    } else {
        join_with(parts.drop_last(), sep) + sep + parts.last()
    }
}

/// Each part preceded by `sep`, one after another.
pub open spec fn each_preceded(parts: Seq<Seq<char>>, sep: Seq<char>) -> Seq<char>
    decreases parts.len(),
{
    if parts.len() == 0 {
        Seq::<char>::empty()
    } else {
        sep + parts[0] + each_preceded(parts.skip(1), sep)
    }
}

proof fn lemma_each_preceded_push(parts: Seq<Seq<char>>, last: Seq<char>, sep: Seq<char>)
    ensures
        each_preceded(parts.push(last), sep) == each_preceded(parts, sep) + sep + last,
    decreases parts.len(),
{
    if parts.len() == 0 {
        assert(parts.push(last).skip(1) =~= Seq::<Seq<char>>::empty());
        assert(each_preceded(parts.push(last).skip(1), sep) =~= Seq::<char>::empty());
        assert(sep + last + Seq::<char>::empty() =~= Seq::<char>::empty() + sep + last);
    } else {
        lemma_each_preceded_push(parts.skip(1), last, sep);
        assert(parts.push(last).skip(1) =~= parts.skip(1).push(last));
        assert(parts.push(last)[0] == parts[0]);
        let rest = each_preceded(parts.skip(1), sep);
        assert(sep + parts[0] + (rest + sep + last) =~= (sep + parts[0] + rest) + sep + last);
    }
}

/// Joining parts gives the first part, then each further part preceded by
/// the separator: between each part and the next stands exactly one
/// separator.
pub proof fn lemma_join_from_front(parts: Seq<Seq<char>>, sep: Seq<char>)
    requires
        parts.len() > 0,
    ensures
        join_with(parts, sep) == parts[0] + each_preceded(parts.skip(1), sep),
    decreases parts.len(),
{
    if parts.len() == 1 {
        assert(parts.skip(1) =~= Seq::<Seq<char>>::empty());
        assert(parts[0] + each_preceded(parts.skip(1), sep) =~= parts[0]);
    } else {
        let front = parts.drop_last();
        lemma_join_from_front(front, sep);
        lemma_each_preceded_push(front.skip(1), parts.last(), sep);
        assert(front.skip(1).push(parts.last()) =~= parts.skip(1));
        assert(front[0] == parts[0]);
        let rest = each_preceded(front.skip(1), sep);
        assert(parts[0] + rest + sep + parts.last() =~= parts[0] + (rest + sep + parts.last()));
    }
}

/// A line with one trailing carriage return removed, if it has one.
pub open spec fn strip_cr(s: Seq<char>) -> Seq<char> {
    if s.len() > 0 && s.last() == '\r' {
        s.drop_last()
    } else {
        s
    }
}

/// The lines of a text as `str::lines` yields them: split at `\n`, a `\r`
/// right before a `\n` dropped, and no empty last line after a final `\n`.
pub open spec fn text_lines(t: Seq<char>) -> Seq<Seq<char>> {
    let p = split_on(t, '\n');
    if t.len() == 0 {
        Seq::<Seq<char>>::empty()
    } else if t.last() == '\n' {
        p.take(p.len() - 1).map_values(|l: Seq<char>| strip_cr(l))
    } else {
        p.take(p.len() - 1).map_values(|l: Seq<char>| strip_cr(l)).push(p[p.len() - 1])
    }
}

/// The view of each string in a sequence of strings.
pub open spec fn texts(v: Seq<String>) -> Seq<Seq<char>> {
    v.map_values(|s: String| s@)
}

/// The view of an optional string.
pub open spec fn opt_text(o: Option<String>) -> Option<Seq<char>> {
    match o {
        Some(s) => Some(s@),
        None => None,
    }
}

proof fn lemma_split_on_nonempty(t: Seq<char>, c: char)
    ensures
        split_on(t, c).len() >= 1,
    decreases t.len(),
{
    if t.len() > 0 {
        lemma_split_on_nonempty(t.drop_last(), c);
    }
}

/// Whether `c` occurs nowhere in `t`.
pub open spec fn free_of(t: Seq<char>, c: char) -> bool {
    forall|i: int| 0 <= i < t.len() ==> t[i] != c
}

/// Appending text free of `c` extends the last piece of a split at `c`.
proof fn lemma_split_on_append_free(x: Seq<char>, y: Seq<char>, c: char)
    requires
        free_of(y, c),
    ensures
        split_on(x + y, c) == split_on(x, c).update(split_on(x, c).len() - 1, split_on(x, c).last() + y),
    decreases y.len(),
{
    lemma_split_on_nonempty(x, c);
    let s = split_on(x, c);
    if y.len() == 0 {
        assert(x + y =~= x);
        assert(s.last() + y =~= s.last());
        assert(s.update(s.len() - 1, s.last() + y) =~= s);
    } else {
        let y0 = y.drop_last();
        lemma_split_on_append_free(x, y0, c);
        assert((x + y).drop_last() =~= x + y0);
        assert((x + y).last() == y.last());
        assert((s.last() + y0).push(y.last()) =~= s.last() + y);
        let r = split_on(x + y0, c);
        assert(r.update(r.len() - 1, r.last().push(y.last())) =~= s.update(s.len() - 1, s.last() + y));
    }
}

/// Splitting at `c` undoes joining with `c`, where no part holds `c`.
pub proof fn lemma_split_on_join(parts: Seq<Seq<char>>, c: char)
    requires
        parts.len() >= 1,
        forall|i: int| 0 <= i < parts.len() ==> free_of(#[trigger] parts[i], c),
    ensures
        split_on(join_with(parts, seq![c]), c) == parts,
    decreases parts.len(),
{
    if parts.len() == 1 {
        lemma_split_on_append_free(Seq::<char>::empty(), parts[0], c);
        assert(Seq::<char>::empty() + parts[0] =~= parts[0]);
        assert(Seq::<char>::empty() + parts[0] =~= parts[0]);
        assert(seq![Seq::<char>::empty()].update(0, Seq::<char>::empty() + parts[0]) =~= parts);
    } else {
        let init = parts.drop_last();
        assert forall|i: int| 0 <= i < init.len() implies free_of(#[trigger] init[i], c) by {
            assert(init[i] == parts[i]);
        }
        lemma_split_on_join(init, c);
        let j = join_with(init, seq![c]);
        assert(free_of(parts.last(), c)) by {
            assert(parts[parts.len() - 1] == parts.last());
        }
        lemma_split_on_append_free(j + seq![c], parts.last(), c);
        assert((j + seq![c]).drop_last() =~= j);
        assert((j + seq![c]).last() == c);
        let t = split_on(j, c).push(Seq::<char>::empty());
        assert(split_on(j + seq![c], c) == t);
        assert(t.last() + parts.last() =~= parts.last());
        assert(t.update(t.len() - 1, t.last() + parts.last()) =~= parts);
    }
}

/// Splits a character sequence at every occurrence of `c`.
pub fn split_chars(t: &Vec<char>, c: char) -> (r: Vec<Vec<char>>)
    ensures
        r@.map_values(|p: Vec<char>| p@) == split_on(t@, c),
{
    let mut pieces: Vec<Vec<char>> = Vec::new();
    let mut cur: Vec<char> = Vec::new();
    let mut i: usize = 0;
    while i < t.len()
        invariant
            i <= t@.len(),
            pieces@.map_values(|p: Vec<char>| p@).push(cur@) == split_on(t@.take(i as int), c),
        decreases t@.len() - i,
    {
        let ghost before = t@.take(i as int);
        assert(t@.take(i + 1).drop_last() == before);
        proof { lemma_split_on_nonempty(before, c); }
        if t[i] == c {
            let done = cur;
            pieces.push(done);
            cur = Vec::new();
            assert(pieces@.map_values(|p: Vec<char>| p@).push(cur@) =~= split_on(before, c).push(
                Seq::<char>::empty(),
            ));
        } else {
            cur.push(t[i]);
            let ghost r = split_on(before, c);
            assert(pieces@.map_values(|p: Vec<char>| p@).push(cur@) =~= r.update(
                r.len() - 1,
                r.last().push(t@[i as int]),
            ));
        }
        i = i + 1;
    }
    pieces.push(cur);
    assert(t@.take(t@.len() as int) == t@);
    assert(pieces@.map_values(|p: Vec<char>| p@) =~= split_on(t@, c));
    pieces
}

/// The character sequences in `parts` joined with `sep`.
pub fn join_chars(parts: &Vec<Vec<char>>, sep: &Vec<char>) -> (r: Vec<char>)
    ensures
        r@ == join_with(parts@.map_values(|p: Vec<char>| p@), sep@),
{
    let ghost whole = parts@.map_values(|p: Vec<char>| p@);
    let mut r: Vec<char> = Vec::new();
    let mut i: usize = 0;
    while i < parts.len()
        invariant
            i <= parts@.len(),
            whole == parts@.map_values(|p: Vec<char>| p@),
            r@ == join_with(whole.take(i as int), sep@),
        decreases parts@.len() - i,
    {
        assert(whole.take(i + 1).drop_last() =~= whole.take(i as int));
        if i > 0 {
            append_chars(&mut r, sep);
        }
        append_chars(&mut r, &parts[i]);
        i = i + 1;
    }
    assert(whole.take(parts@.len() as int) =~= whole);
    r
}

/// Appends the characters of `b` to `a`.
pub fn append_chars(a: &mut Vec<char>, b: &Vec<char>)
    ensures
        final(a)@ == old(a)@ + b@,
{
    let mut i: usize = 0;
    while i < b.len()
        invariant
            i <= b@.len(),
            a@ == old(a)@ + b@.take(i as int),
        decreases b@.len() - i,
    {
        a.push(b[i]);
        assert(old(a)@ + b@.take(i + 1) =~= old(a)@ + b@.take(i as int) + seq![b@[i as int]]);
        i = i + 1;
    }
    assert(b@.take(b@.len() as int) =~= b@);
}

/// A fresh copy of a character sequence.
pub fn copy_chars(a: &Vec<char>) -> (r: Vec<char>)
    ensures
        r@ == a@,
{
    let mut r: Vec<char> = Vec::new();
    append_chars(&mut r, a);
    assert(Seq::<char>::empty() + a@ =~= a@);
    r
}

/// The lines of a text, as `str::lines` yields them.
pub fn lines_of(t: &Vec<char>) -> (r: Vec<Vec<char>>)
    ensures
        r@.map_values(|p: Vec<char>| p@) == text_lines(t@),
{
    if t.len() == 0 {
        let r: Vec<Vec<char>> = Vec::new();
        assert(r@.map_values(|p: Vec<char>| p@) =~= text_lines(t@));
        return r;
    }
    let mut p = split_chars(t, '\n');
    let ghost pv = split_on(t@, '\n');
    proof {
        lemma_split_on_nonempty(t@, '\n');
    }
    let last = p.pop().unwrap();
    let ghost head = pv.take(pv.len() - 1);
    assert(p@.map_values(|q: Vec<char>| q@) =~= head);
    let mut r: Vec<Vec<char>> = Vec::new();
    let mut i: usize = 0;
    while i < p.len()
        invariant
            i <= p@.len(),
            p@.map_values(|q: Vec<char>| q@) == head,
            r@.map_values(|q: Vec<char>| q@) == head.take(i as int).map_values(
                |l: Seq<char>| strip_cr(l),
            ),
        decreases p@.len() - i,
    {
        let mut line = copy_chars(&p[i]);
        assert(line@ == head[i as int]);
        let n = line.len();
        if n > 0 && line[n - 1] == '\r' {
            line.pop();
            assert(line@ =~= head[i as int].drop_last());
        }
        assert(line@ == strip_cr(head[i as int]));
        let ghost prev = r@;
        r.push(line);
        assert(r@.map_values(|q: Vec<char>| q@) =~= prev.map_values(|q: Vec<char>| q@).push(
            strip_cr(head[i as int]),
        ));
        assert(head.take(i + 1).map_values(|l: Seq<char>| strip_cr(l)) =~= head.take(
            i as int,
        ).map_values(|l: Seq<char>| strip_cr(l)).push(strip_cr(head[i as int])));
        assert(r@.map_values(|q: Vec<char>| q@) =~= head.take(i + 1).map_values(
            |l: Seq<char>| strip_cr(l),
        ));
        i = i + 1;
    }
    assert(head.take(p@.len() as int) =~= head);
    if t[t.len() - 1] != '\n' {
        r.push(last);
        assert(r@.map_values(|q: Vec<char>| q@) =~= text_lines(t@));
    } else {
        assert(r@.map_values(|q: Vec<char>| q@) =~= text_lines(t@));
    }
    r
}


/// A fresh copy of a string.
pub fn copy_string(s: &String) -> (r: String)
    ensures
        r@ == s@,
{
    s.as_str().to_owned()
}

/// A fresh copy of an optional string.
pub fn copy_opt_string(o: &Option<String>) -> (r: Option<String>)
    ensures
        opt_text(r) == opt_text(*o),
{
    match o {
        Some(s) => Some(copy_string(s)),
        None => None,
    }
}

/// A fresh copy of a list of strings.
pub fn copy_strings(v: &Vec<String>) -> (r: Vec<String>)
    ensures
        texts(r@) == texts(v@),
{
    let mut r: Vec<String> = Vec::new();
    let mut i: usize = 0;
    while i < v.len()
        invariant
            i <= v@.len(),
            texts(r@) == texts(v@.take(i as int)),
        decreases v@.len() - i,
    {
        let ghost prev = r@;
        r.push(copy_string(&v[i]));
        assert(texts(r@) =~= texts(prev).push(v@[i as int]@));
        assert(texts(v@.take(i + 1)) =~= texts(v@.take(i as int)).push(v@[i as int]@));
        i = i + 1;
    }
    assert(v@.take(v@.len() as int) =~= v@);
    r
}

/// Whether a list of strings holds one equal to `x`.
pub fn contains_text(v: &Vec<String>, x: &String) -> (r: bool)
    ensures
        r == texts(v@).contains(x@),
{
    let mut i: usize = 0;
    while i < v.len()
        invariant
            i <= v@.len(),
            forall|j: int| 0 <= j < i ==> v@[j]@ != x@,
        decreases v@.len() - i,
    {
        if v[i] == *x {
            assert(texts(v@)[i as int] == x@);
            return true;
        }
        i = i + 1;
    }
    assert(!texts(v@).contains(x@)) by {
        if texts(v@).contains(x@) {
            let j = choose|j: int| 0 <= j < texts(v@).len() && texts(v@)[j] == x@;
            assert(v@[j]@ == x@);
        }
    }
    false
}

/// The texts of `s` with every repetition of an earlier text left out.
pub open spec fn dedup(s: Seq<Seq<char>>) -> Seq<Seq<char>>
    decreases s.len(),
{
    if s.len() == 0 {
        s
    } else {
        let r = dedup(s.drop_last());
        if r.contains(s.last()) {
            r
        } else {
            r.push(s.last())
        }
    }
}

/// `dedup` keeps exactly the texts it is given, each once.
pub proof fn lemma_dedup(s: Seq<Seq<char>>)
    ensures
        dedup(s).no_duplicates(),
        forall|x: Seq<char>| dedup(s).contains(x) <==> s.contains(x),
    decreases s.len(),
{
    if s.len() > 0 {
        lemma_dedup(s.drop_last());
        let r = dedup(s.drop_last());
        assert forall|x: Seq<char>| dedup(s).contains(x) <==> s.contains(x) by {
            if s.contains(x) && !s.drop_last().contains(x) {
                let j = choose|j: int| 0 <= j < s.len() && s[j] == x;
                if j < s.len() - 1 {
                    assert(s.drop_last()[j] == x);
                }
                assert(x == s.last());
            }
            if s.drop_last().contains(x) {
                let j = choose|j: int| 0 <= j < s.drop_last().len() && s.drop_last()[j] == x;
                assert(s[j] == x);
            }
            if !r.contains(s.last()) {
                if dedup(s).contains(x) && x != s.last() {
                    let j = choose|j: int| 0 <= j < dedup(s).len() && dedup(s)[j] == x;
                    assert(r[j] == x);
                }
                if r.contains(x) {
                    let j = choose|j: int| 0 <= j < r.len() && r[j] == x;
                    assert(dedup(s)[j] == x);
                }
                assert(dedup(s)[r.len() as int] == s.last());
            }
        }
    }
}

/// Appends to `r` each string of `v` whose text `r` does not hold yet.
fn push_new_strings(r: &mut Vec<String>, v: &Vec<String>)
    ensures
        texts(final(r)@) == dedup_onto(texts(old(r)@), texts(v@)),
{
    let mut i: usize = 0;
    while i < v.len()
        invariant
            i <= v@.len(),
            texts(r@) == dedup_onto(texts(old(r)@), texts(v@.take(i as int))),
        decreases v@.len() - i,
    {
        let x = &v[i];
        assert(texts(v@.take(i + 1)).drop_last() =~= texts(v@.take(i as int)));
        assert(texts(v@.take(i + 1)).last() == x@);
        if !contains_text(r, x) {
            let ghost prev = r@;
            r.push(copy_string(x));
            assert(texts(r@) =~= texts(prev).push(x@));
        }
        i = i + 1;
    }
    assert(v@.take(v@.len() as int) =~= v@);
}

/// `base` extended by the texts of `s` it does not hold yet, in order,
/// each kept once.
pub open spec fn dedup_onto(base: Seq<Seq<char>>, s: Seq<Seq<char>>) -> Seq<Seq<char>>
    decreases s.len(),
{
    if s.len() == 0 {
        base
    } else {
        let r = dedup_onto(base, s.drop_last());
        if r.contains(s.last()) {
            r
        } else {
            r.push(s.last())
        }
    }
}

proof fn lemma_dedup_onto_split(s: Seq<Seq<char>>, t: Seq<Seq<char>>)
    ensures
        dedup_onto(dedup(s), t) == dedup(s + t),
    decreases t.len(),
{
    if t.len() == 0 {
        assert(s + t =~= s);
    } else {
        lemma_dedup_onto_split(s, t.drop_last());
        assert((s + t).drop_last() =~= s + t.drop_last());
    }
}

proof fn lemma_dedup_onto_empty(s: Seq<Seq<char>>)
    ensures
        dedup_onto(Seq::<Seq<char>>::empty(), s) == dedup(s),
    decreases s.len(),
{
    if s.len() > 0 {
        lemma_dedup_onto_empty(s.drop_last());
    }
}

/// The strings of `a` followed by those of `b`, each text kept once, in the
/// order of its first appearance.
pub fn union_of_strings(a: &Vec<String>, b: &Vec<String>) -> (r: Vec<String>)
    ensures
        texts(r@) == dedup(texts(a@) + texts(b@)),
{
    let mut r: Vec<String> = Vec::new();
    push_new_strings(&mut r, a);
    proof {
        assert(texts(Seq::<String>::empty()) =~= Seq::<Seq<char>>::empty());
        lemma_dedup_onto_empty(texts(a@));
    }
    push_new_strings(&mut r, b);
    proof {
        lemma_dedup_onto_split(texts(a@), texts(b@));
    }
    r
}


/// The decimal digit for `d < 10`.
pub open spec fn digit_char(d: nat) -> char {
    if d == 0 { '0' } else if d == 1 { '1' } else if d == 2 { '2' } else if d == 3 { '3' }
    else if d == 4 { '4' } else if d == 5 { '5' } else if d == 6 { '6' } else if d == 7 { '7' }
    else if d == 8 { '8' } else { '9' }
}

/// The decimal notation of a number, without leading zeros.
pub open spec fn decimal_text(n: nat) -> Seq<char>
    decreases n,
{
    if n < 10 {
        seq![digit_char(n)]
    } else {
        decimal_text(n / 10).push(digit_char(n % 10))
    }
}

fn digit(d: usize) -> (c: char)
    requires
        d < 10,
    ensures
        c == digit_char(d as nat),
{
    if d == 0 { '0' } else if d == 1 { '1' } else if d == 2 { '2' } else if d == 3 { '3' }
    else if d == 4 { '4' } else if d == 5 { '5' } else if d == 6 { '6' } else if d == 7 { '7' }
    else if d == 8 { '8' } else { '9' }
}

fn decimal_chars(n: usize) -> (r: Vec<char>)
    ensures
        r@ == decimal_text(n as nat),
    decreases n,
{
    if n < 10 {
        let mut r: Vec<char> = Vec::new();
        r.push(digit(n));
        assert(r@ =~= seq![digit_char(n as nat)]);
        r
    } else {
        let mut r = decimal_chars(n / 10);
        r.push(digit(n % 10));
        r
    }
}

/// The decimal notation of a number, as `usize::to_string` writes it.
pub fn decimal_string(n: usize) -> (r: String)
    ensures
        r@ == decimal_text(n as nat),
{
    let cs = decimal_chars(n);
    string_from_chars(cs.as_slice())
}

} // verus!
