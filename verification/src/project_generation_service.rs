//! Generating a project from its description: the dependency section merged
//! from the chosen starters, the package section, and the files written.

use vstd::prelude::*;
use crate::cargo_toml_parser_extensions::{
    combined_dependency, dependency_error_message, Combine, DependencyError, DependencyErrorView,
    DependencyView, entry_rendering, MyToString,
};
use crate::deps_set::{
    ascending, entries_map, lemma_entries_map_dom, lemma_entries_map_index, lemma_key_irreflexive,
    lemma_ordered_entries, ordered_entries, DepsSet,
};
use crate::project::{source_target, ProjectError, ProjectErrorView, ProjectFileTarget};
use crate::manifest::{manifest_reading, parse_manifest, dependency_set_of};
use crate::project_description::{ProjectDescriptionDto, ProjectDescriptionView, TargetKind};
use crate::text::{copy_string, opt_text};

verus! {

/// The source of a generated binary.
pub const MAIN: &'static str = "fn main() {\n    println!(\"Hello, world!\");\n}";

/// The source of a generated library.
pub const LIB: &'static str = "pub fn add(left: usize, right: usize) -> usize {\n    left + right\n}\n\n#[cfg(test)]\nmod tests {\n    use super::*;\n\n    #[test]\n    fn it_works() {\n        let result = add(2, 2);\n        assert_eq!(result, 4);\n    }\n}\n";

/// The source a target kind starts with.
pub open spec fn starting_source(k: TargetKind) -> Seq<char> {
    match k {
        TargetKind::Bin => MAIN@,
        TargetKind::Lib => LIB@,
    }
}

/// The file that gets the starting source for a target kind, and that source.
pub fn source_file_for(target_kind: &TargetKind) -> (r: (ProjectFileTarget, &'static str))
    ensures
        r.0 == source_target(*target_kind),
        r.1@ == starting_source(*target_kind),
{
    match target_kind {
        TargetKind::Bin => (ProjectFileTarget::Main, MAIN),
        TargetKind::Lib => (ProjectFileTarget::Lib, LIB),
    }
}

/// Why a project could not be generated.
#[derive(Debug)]
pub enum ProjectGeneratingServiceError {
    /// The package section could not be built; the builder's error.
    DescriptionSection(cargo_toml_builder::Error),
    /// The dependency section could not be built.
    DependencySection(String),
    /// The content of the named starter could not be read.
    CouldNotGetStarterContent(String),
    /// A starter's manifest could not be parsed; the parser's error.
    CouldNotParseStarterManifest(cargo_toml::Error),
    /// The project could not be compressed; the compressor's message.
    CompressionError(String),
    /// A file operation failed; the system's message.
    IoError(String),
    /// The project's files could not be laid out or written.
    ProjectError(ProjectError),
}

/// The value of a `ProjectGeneratingServiceError`.
pub enum GenerationErrorView {
    DescriptionSection,
    DependencySection(Seq<char>),
    CouldNotGetStarterContent(Seq<char>),
    CouldNotParseStarterManifest,
    CompressionError(Seq<char>),
    IoError(Seq<char>),
    ProjectError(ProjectErrorView),
}

impl View for ProjectGeneratingServiceError {
    type V = GenerationErrorView;

    open spec fn view(&self) -> GenerationErrorView {
        match self {
            ProjectGeneratingServiceError::DescriptionSection(_) => GenerationErrorView::DescriptionSection,
            ProjectGeneratingServiceError::DependencySection(m) => GenerationErrorView::DependencySection(m@),
            ProjectGeneratingServiceError::CouldNotGetStarterContent(m) => GenerationErrorView::CouldNotGetStarterContent(m@),
            ProjectGeneratingServiceError::CouldNotParseStarterManifest(_) => GenerationErrorView::CouldNotParseStarterManifest,
            ProjectGeneratingServiceError::CompressionError(m) => GenerationErrorView::CompressionError(m@),
            ProjectGeneratingServiceError::IoError(m) => GenerationErrorView::IoError(m@),
            ProjectGeneratingServiceError::ProjectError(e) => GenerationErrorView::ProjectError(e@),
        }
    }
}

/// Whether no name that both starters declare is left to the workspace by
/// either of them: those are the declarations a merge has to combine.
pub open spec fn shared_free(a: Seq<(Seq<char>, DependencyView)>, b: Seq<(Seq<char>, DependencyView)>) -> bool {
    forall|k: Seq<char>|
        #[trigger] entries_map(a).contains_key(k) && entries_map(b).contains_key(k) ==> !(entries_map(a)[k] is Inherited)
            && !(entries_map(b)[k] is Inherited)
}

/// The dependencies of `s` merged, in order, with those of the map `b`:
/// a name `b` also declares gets the combination of both declarations, any
/// other keeps its own; the first combination that fails is the error.
pub open spec fn common_merge(
    s: Seq<(Seq<char>, DependencyView)>,
    b: Map<Seq<char>, DependencyView>,
) -> Result<Map<Seq<char>, DependencyView>, DependencyErrorView>
    decreases s.len(),
{
    if s.len() == 0 {
        Ok(Map::empty())
    } else {
        match common_merge(s.drop_last(), b) {
            Err(e) => Err(e),
            Ok(m) => {
                let k = s.last().0;
                if b.contains_key(k) {
                    match combined_dependency(s.last().1, b[k]) {
                        Ok(c) => Ok(m.insert(k, c)),
                        Err(e) => Err(e),
                    }
                } else {
                    Ok(m.insert(k, s.last().1))
                }
            },
        }
    }
}

/// Two starters' dependencies merged: names in both combine, names in one
/// are kept as they are.
pub open spec fn merged_dependencies(
    a: Seq<(Seq<char>, DependencyView)>,
    b: Seq<(Seq<char>, DependencyView)>,
) -> Result<Map<Seq<char>, DependencyView>, DependencyErrorView> {
    match common_merge(a, entries_map(b)) {
        Err(e) => Err(e),
        Ok(m) => Ok(entries_map(b).remove_keys(entries_map(a).dom()).union_prefer_right(m)),
    }
}

/// The name at which merging the entries of `s` into the map `b` fails:
/// that of the first entry whose declaration cannot be combined with the
/// map's.
pub open spec fn merge_conflict(
    s: Seq<(Seq<char>, DependencyView)>,
    b: Map<Seq<char>, DependencyView>,
) -> Option<Seq<char>>
    decreases s.len(),
{
    if s.len() == 0 {
        None
    } else {
        match common_merge(s.drop_last(), b) {
            Err(_) => merge_conflict(s.drop_last(), b),
            Ok(_) => {
                let k = s.last().0;
                if b.contains_key(k) && combined_dependency(s.last().1, b[k]) is Err {
                    Some(k)
                } else {
                    None
                }
            },
        }
    }
}

proof fn lemma_common_merge_dom(s: Seq<(Seq<char>, DependencyView)>, b: Map<Seq<char>, DependencyView>)
    ensures
        common_merge(s, b) matches Ok(m) ==> m.dom() == entries_map(s).dom(),
    decreases s.len(),
{
    if s.len() > 0 {
        lemma_common_merge_dom(s.drop_last(), b);
        if common_merge(s, b) is Ok {
            assert(common_merge(s, b)->Ok_0.dom() =~= entries_map(s).dom());
        }
    }
}

/// Merging ascending entries into a map, entry by entry: it succeeds exactly
/// when every name the map also has combines, and then each name gets the
/// combination, or its own declaration where the map lacks it.
proof fn lemma_common_merge_values(s: Seq<(Seq<char>, DependencyView)>, b: Map<Seq<char>, DependencyView>)
    requires
        ascending(s),
    ensures
        common_merge(s, b) is Ok <==> forall|i: int|
            0 <= i < s.len() && b.contains_key(#[trigger] s[i].0) ==> combined_dependency(s[i].1, b[s[i].0]) is Ok,
        common_merge(s, b) matches Ok(m) ==> forall|i: int|
            0 <= i < s.len() ==> m.contains_key(#[trigger] s[i].0) && (if b.contains_key(s[i].0) {
                combined_dependency(s[i].1, b[s[i].0]) == Ok::<DependencyView, DependencyErrorView>(m[s[i].0])
            } else {
                m[s[i].0] == s[i].1
            }),
    decreases s.len(),
{
    if s.len() > 0 {
        let init = s.drop_last();
        assert(ascending(init));
        lemma_common_merge_values(init, b);
        let last = s.len() - 1;
        assert(s[last] == s.last());
        assert forall|i: int| 0 <= i < last implies s[i].0 != s.last().0 by {
            assert(crate::deps_set::key_precedes(s[i].0, s[last].0));
            lemma_key_irreflexive(s[i].0);
        }
        assert forall|i: int| 0 <= i < last implies #[trigger] init[i] == s[i] by {}
        let k = s.last().0;
        match common_merge(init, b) {
            Err(_) => {
                let i = choose|i: int|
                    !(0 <= i < init.len() && b.contains_key(#[trigger] init[i].0) ==> combined_dependency(init[i].1, b[init[i].0]) is Ok);
                assert(init[i] == s[i]);
                assert(!(0 <= i < s.len() && b.contains_key(s[i].0) ==> combined_dependency(s[i].1, b[s[i].0]) is Ok));
            },
            Ok(m0) => {
                if b.contains_key(k) && !(combined_dependency(s.last().1, b[k]) is Ok) {
                    assert(!(0 <= last < s.len() && b.contains_key(s[last].0) ==> combined_dependency(s[last].1, b[s[last].0]) is Ok));
                } else {
                    let m = common_merge(s, b)->Ok_0;
                    assert forall|i: int| 0 <= i < s.len() && b.contains_key(#[trigger] s[i].0) implies combined_dependency(s[i].1, b[s[i].0]) is Ok by {
                        if i < last {
                            assert(init[i] == s[i]);
                        }
                    }
                    assert forall|i: int| 0 <= i < s.len() implies m.contains_key(#[trigger] s[i].0) && (if b.contains_key(s[i].0) {
                        combined_dependency(s[i].1, b[s[i].0]) == Ok::<DependencyView, DependencyErrorView>(m[s[i].0])
                    } else {
                        m[s[i].0] == s[i].1
                    }) by {
                        if i < last {
                            assert(init[i] == s[i]);
                            assert(m0.contains_key(init[i].0));
                            assert(s[i].0 != k);
                            assert(m[s[i].0] == m0[s[i].0]);
                        }
                    }
                }
            },
        }
    }
}

/// Merging two starters' dependencies succeeds exactly when every name both
/// declare can be combined; the merged dependencies then declare exactly the
/// names of both, a name only one of them declares keeps that declaration,
/// and a name both declare gets the combination of the two.
pub proof fn lemma_merged_dependencies(a: Seq<(Seq<char>, DependencyView)>, b: Seq<(Seq<char>, DependencyView)>)
    requires
        ascending(a),
        ascending(b),
    ensures
        merged_dependencies(a, b) is Ok <==> forall|k: Seq<char>|
            #[trigger] entries_map(a).contains_key(k) && entries_map(b).contains_key(k) ==> combined_dependency(
                entries_map(a)[k],
                entries_map(b)[k],
            ) is Ok,
        merged_dependencies(a, b) matches Ok(m) ==> {
            &&& m.dom() == entries_map(a).dom().union(entries_map(b).dom())
            &&& forall|k: Seq<char>|
                #[trigger] m.contains_key(k) ==> if entries_map(a).contains_key(k) && entries_map(b).contains_key(k) {
                    combined_dependency(entries_map(a)[k], entries_map(b)[k]) == Ok::<DependencyView, DependencyErrorView>(m[k])
                } else if entries_map(a).contains_key(k) {
                    m[k] == entries_map(a)[k]
                } else {
                    m[k] == entries_map(b)[k]
                }
        },
{
    let ma = entries_map(a);
    let mb = entries_map(b);
    lemma_common_merge_values(a, mb);
    lemma_common_merge_dom(a, mb);
    if merged_dependencies(a, b) is Ok {
        assert forall|k: Seq<char>| #[trigger] ma.contains_key(k) && mb.contains_key(k) implies combined_dependency(ma[k], mb[k]) is Ok by {
            lemma_entries_map_dom(a, k);
            let i = choose|i: int| 0 <= i < a.len() && #[trigger] a[i].0 == k;
            lemma_entries_map_index(a, i);
        }
        let m = common_merge(a, mb)->Ok_0;
        let r = merged_dependencies(a, b)->Ok_0;
        assert(r.dom() =~= ma.dom().union(mb.dom()));
        assert forall|k: Seq<char>| #[trigger] r.contains_key(k) implies (if ma.contains_key(k) && mb.contains_key(k) {
            combined_dependency(ma[k], mb[k]) == Ok::<DependencyView, DependencyErrorView>(r[k])
        } else if ma.contains_key(k) {
            r[k] == ma[k]
        } else {
            r[k] == mb[k]
        }) by {
            if ma.contains_key(k) {
                lemma_entries_map_dom(a, k);
                let i = choose|i: int| 0 <= i < a.len() && #[trigger] a[i].0 == k;
                lemma_entries_map_index(a, i);
                assert(m.contains_key(a[i].0));
            }
        }
    } else {
        let i = choose|i: int|
            !(0 <= i < a.len() && mb.contains_key(#[trigger] a[i].0) ==> combined_dependency(a[i].1, mb[a[i].0]) is Ok);
        lemma_entries_map_index(a, i);
        assert(ma.contains_key(a[i].0) && mb.contains_key(a[i].0));
    }
}

/// Merging with a starter that declares nothing changes nothing, whichever
/// side it is on.
pub proof fn lemma_merge_with_nothing(a: Seq<(Seq<char>, DependencyView)>)
    requires
        ascending(a),
    ensures
        merged_dependencies(a, Seq::empty()) == Ok::<Map<Seq<char>, DependencyView>, DependencyErrorView>(entries_map(a)),
        merged_dependencies(Seq::empty(), a) == Ok::<Map<Seq<char>, DependencyView>, DependencyErrorView>(entries_map(a)),
{
    let e = Seq::<(Seq<char>, DependencyView)>::empty();
    assert(ascending(e));
    assert(entries_map(e) =~= Map::<Seq<char>, DependencyView>::empty());
    lemma_merged_dependencies(a, e);
    lemma_merged_dependencies(e, a);
    let m1 = merged_dependencies(a, e)->Ok_0;
    let m2 = merged_dependencies(e, a)->Ok_0;
    assert(m1 =~= entries_map(a));
    assert(m2 =~= entries_map(a));
}

/// Merges the dependencies of two starters; where two declarations of a
/// name cannot be combined, that name and the reason.
pub(crate) fn merge_dependency_sets(starter_a: DepsSet, starter_b: DepsSet) -> (r: Result<DepsSet, (String, DependencyError)>)
    requires
        shared_free(starter_a@, starter_b@),
    ensures
        match (r, merged_dependencies(starter_a@, starter_b@)) {
            (Ok(d), Ok(m)) => d.map() == m,
            (Err(e), Err(ev)) => e.1@ == ev && merge_conflict(starter_a@, starter_b.map()) == Some(e.0@),
            _ => false,
        },
{
    proof {
        use_type_invariant(&starter_a);
        use_type_invariant(&starter_b);
    }
    let ghost av = starter_a@;
    let ghost bmap = starter_b.map();
    let mut result = DepsSet::new();
    let mut i: usize = 0;
    while i < starter_a.len()
        invariant
            av == starter_a@,
            bmap == starter_b.map(),
            shared_free(starter_a@, starter_b@),
            ascending(starter_a@),
            ascending(starter_b@),
            i <= av.len(),
            common_merge(av.take(i as int), bmap) == Ok::<Map<Seq<char>, DependencyView>, DependencyErrorView>(result.map()),
        decreases av.len() - i,
    {
        let (name, dep_a) = starter_a.entry(i);
        assert(av.take(i + 1).drop_last() =~= av.take(i as int));
        assert(av.take(i + 1).last() == av[i as int]);
        match starter_b.get(name) {
            Some(dep_b) => {
                proof {
                    lemma_entries_map_index(av, i as int);
                    assert(entries_map(av).contains_key(name@) && bmap.contains_key(name@));
                }
                let combined = dep_a.combine_dependencies(dep_b);
                match combined {
                    Ok(c) => {
                        result.insert(copy_string(name), c);
                    },
                    Err(e) => {
                        proof {
                            lemma_common_merge_error(av, bmap, i as int);
                        }
                        return Err((copy_string(name), e));
                    },
                }
            },
            None => {
                result.insert(copy_string(name), dep_a.duplicate());
            },
        }
        i = i + 1;
    }
    assert(av.take(av.len() as int) =~= av);
    let ghost m = result.map();
    proof {
        lemma_common_merge_dom(av, bmap);
    }
    let ghost bv = starter_b@;
    let ghost adom = entries_map(av).dom();
    let mut j: usize = 0;
    while j < starter_b.len()
        invariant
            av == starter_a@,
            bv == starter_b@,
            adom == starter_a.map().dom(),
            m.dom() == adom,
            j <= bv.len(),
            result.map() == entries_map(bv.take(j as int)).remove_keys(adom).union_prefer_right(m),
        decreases bv.len() - j,
    {
        let (name, dep_b) = starter_b.entry(j);
        let ghost before = result.map();
        if !starter_a.contains_key(name) {
            result.insert(copy_string(name), dep_b.duplicate());
        }
        assert(bv.take(j + 1).drop_last() =~= bv.take(j as int));
        assert(bv.take(j + 1).last() == bv[j as int]);
        assert(result.map() =~= entries_map(bv.take(j + 1)).remove_keys(adom).union_prefer_right(m));
        j = j + 1;
    }
    assert(bv.take(bv.len() as int) =~= bv);
    Ok(result)
}

/// Merges the dependencies of two starters: a name both declare gets the
/// combination of the two declarations, any other keeps its own; where a
/// combination fails, the reason is the error.
pub fn proceed_starters(starter_a: DepsSet, starter_b: DepsSet) -> (r: Result<DepsSet, ProjectGeneratingServiceError>)
    requires
        shared_free(starter_a@, starter_b@),
    ensures
        match (r, merged_dependencies(starter_a@, starter_b@)) {
            (Ok(d), Ok(m)) => d.map() == m,
            (Err(e), Err(ev)) => e@ == GenerationErrorView::DependencySection(dependency_error_message(ev)),
            _ => false,
        },
{
    match merge_dependency_sets(starter_a, starter_b) {
        Ok(d) => Ok(d),
        Err((_, e)) => Err(ProjectGeneratingServiceError::DependencySection(e.to_string())),
    }
}

/// The starters' dependency sets merged one after another, from an empty
/// set; `None` where two merged sets share a name that one of them leaves to
/// the workspace, which stops the merge.
pub open spec fn folded_dependencies(
    sets: Seq<Seq<(Seq<char>, DependencyView)>>,
) -> Option<Result<Map<Seq<char>, DependencyView>, DependencyErrorView>>
    decreases sets.len(),
{
    if sets.len() == 0 {
        Some(Ok(Map::empty()))
    } else {
        match folded_dependencies(sets.drop_last()) {
            None => None,
            Some(Err(e)) => Some(Err(e)),
            Some(Ok(acc)) => if shared_free(ordered_entries(acc), sets.last()) {
                Some(merged_dependencies(ordered_entries(acc), sets.last()))
            } else {
                None
            },
        }
    }
}

/// The manifest lines of the entries, each followed by a line break; the
/// first entry that cannot be written is the error, and an entry left to the
/// workspace, reached first, stops the writing (`None`).
pub open spec fn rendered_section(s: Seq<(Seq<char>, DependencyView)>) -> Option<Result<Seq<char>, DependencyErrorView>>
    decreases s.len(),
{
    if s.len() == 0 {
        Some(Ok(Seq::<char>::empty()))
    } else {
        match rendered_section(s.drop_last()) {
            None => None,
            Some(Err(e)) => Some(Err(e)),
            Some(Ok(t)) => if s.last().1 is Inherited {
                None
            } else {
                match entry_rendering(s.last().0, s.last().1) {
                    Ok(l) => Some(Ok(t + l + seq!['\n'])),
                    Err(e) => Some(Err(e)),
                }
            },
        }
    }
}

/// The dependency section built from the starters' dependency sets: merged
/// in order, then written in ascending order of name; `None` where the merge
/// or the writing meets a declaration left to the workspace.
pub open spec fn dependency_section_text(
    sets: Seq<Seq<(Seq<char>, DependencyView)>>,
) -> Option<Result<Seq<char>, DependencyErrorView>> {
    match folded_dependencies(sets) {
        None => None,
        Some(Err(e)) => Some(Err(e)),
        Some(Ok(m)) => rendered_section(ordered_entries(m)),
    }
}

/// The view of a text-or-generation-error result.
pub open spec fn generation_result(r: Result<String, ProjectGeneratingServiceError>) -> Result<Seq<char>, GenerationErrorView> {
    match r {
        Ok(t) => Ok(t@),
        Err(e) => Err(e@),
    }
}

/// A dependency-section result as the generation reports it.
pub open spec fn as_section_result(r: Result<Seq<char>, DependencyErrorView>) -> Result<Seq<char>, GenerationErrorView> {
    match r {
        Ok(t) => Ok(t),
        Err(e) => Err(GenerationErrorView::DependencySection(dependency_error_message(e))),
    }
}

/// The views of a list of dependency sets.
pub open spec fn set_views(sets: Seq<DepsSet>) -> Seq<Seq<(Seq<char>, DependencyView)>> {
    sets.map_values(|d: DepsSet| d@)
}

/// Whether two dependency sets share a name that one of them leaves to the
/// workspace.
pub fn shares_workspace_dependency(a: &DepsSet, b: &DepsSet) -> (r: bool)
    ensures
        r == !shared_free(a@, b@),
{
    proof {
        use_type_invariant(a);
        use_type_invariant(b);
    }
    let mut i: usize = 0;
    while i < a.len()
        invariant
            ascending(a@),
            ascending(b@),
            i <= a@.len(),
            forall|j: int| 0 <= j < i && #[trigger] entries_map(b@).contains_key(a@[j].0) ==> !(a@[j].1 is Inherited)
                && !(entries_map(b@)[a@[j].0] is Inherited),
        decreases a@.len() - i,
    {
        let (name, dep) = a.entry(i);
        match b.get(name) {
            Some(other) => {
                if dep.is_inherited() || other.is_inherited() {
                    proof {
                        lemma_entries_map_index(a@, i as int);
                        assert(entries_map(a@).contains_key(name@) && entries_map(b@).contains_key(name@));
                    }
                    return true;
                }
            },
            None => {},
        }
        i = i + 1;
    }
    assert forall|k: Seq<char>| #[trigger] entries_map(a@).contains_key(k) && entries_map(b@).contains_key(k) implies !(
    entries_map(a@)[k] is Inherited) && !(entries_map(b@)[k] is Inherited) by {
        lemma_entries_map_dom(a@, k);
        let j = choose|j: int| 0 <= j < a@.len() && #[trigger] a@[j].0 == k;
        lemma_entries_map_index(a@, j);
    }
    false
}

/// The view of an optional dependency section as the generation reports it.
pub open spec fn as_section_option(r: Option<Result<Seq<char>, DependencyErrorView>>) -> Option<Result<Seq<char>, GenerationErrorView>> {
    match r {
        Some(x) => Some(as_section_result(x)),
        None => None,
    }
}

/// Builds the dependency section for a list of starters' dependency sets,
/// or `None` where it meets a declaration left to the workspace.
#[verifier::loop_isolation(false)]
#[verifier::spinoff_prover]
#[verifier::rlimit(40)]
pub(crate) fn section_or_stop(sets: &Vec<DepsSet>) -> (r: Option<Result<String, ProjectGeneratingServiceError>>)
    ensures
        optional_generation_result(r) == as_section_option(dependency_section_text(set_views(sets@))),
{
    let ghost all = set_views(sets@);
    let mut acc = DepsSet::new();
    let mut done: usize = 0;
    assert(all.take(0) =~= Seq::<Seq<(Seq<char>, DependencyView)>>::empty());
    while done < sets.len()
        invariant
            all == set_views(sets@),
            done <= sets@.len(),
            folded_dependencies(all.take(done as int)) == Some(
                Ok::<Map<Seq<char>, DependencyView>, DependencyErrorView>(acc.map()),
            ),
        decreases sets@.len() - done,
    {
        let next = sets[done].duplicate();
        assert(all[done as int] == next@);
        proof {
            use_type_invariant(&acc);
            lemma_ordered_entries(acc@);
            assert(all.take(done + 1).drop_last() =~= all.take(done as int));
            assert(all.take(done + 1).last() == all[done as int]);
        }
        if shares_workspace_dependency(&acc, &next) {
            proof {
                lemma_fold_stop(all, done + 1);
            }
            return None;
        }
        match merge_dependency_sets(acc, next) {
            Ok(merged) => {
                acc = merged;
            },
            Err((_, e)) => {
                proof {
                    lemma_fold_stop(all, done + 1);
                }
                return Some(Err(ProjectGeneratingServiceError::DependencySection(e.to_string())));
            },
        }
        done = done + 1;
    }
    assert(all.take(sets@.len() as int) =~= all);
    proof {
        use_type_invariant(&acc);
        lemma_ordered_entries(acc@);
    }
    let mut section = String::new();
    let mut i: usize = 0;
    while i < acc.len()
        invariant
            i <= acc@.len(),
            rendered_section(acc@.take(i as int)) == Some(Ok::<Seq<char>, DependencyErrorView>(section@)),
        decreases acc@.len() - i,
    {
        let entry = acc.entry(i);
        assert(acc@.take(i + 1).drop_last() =~= acc@.take(i as int));
        assert(acc@.take(i + 1).last() == acc@[i as int]);
        if entry.1.is_inherited() {
            proof {
                lemma_render_stop(acc@, i + 1);
            }
            return None;
        }
        match entry.to_string() {
            Ok(line) => {
                section.append(line.as_str());
                section.append("\n");
                proof {
                    reveal_strlit("\n");
                }
                assert(section@ =~= rendered_section(acc@.take(i as int))->0->Ok_0 + line@ + seq!['\n']);
            },
            Err(e) => {
                proof {
                    lemma_render_stop(acc@, i + 1);
                }
                return Some(Err(ProjectGeneratingServiceError::DependencySection(e.to_string())));
            },
        }
        i = i + 1;
    }
    assert(acc@.take(acc@.len() as int) =~= acc@);
    Some(Ok(section))
}

/// Writes the dependency section for a list of starters' dependency sets:
/// merged in order, then written in ascending order of name.
pub fn dependency_section_of(sets: Vec<DepsSet>) -> (r: Result<String, ProjectGeneratingServiceError>)
    requires
        dependency_section_text(set_views(sets@)) is Some,
    ensures
        generation_result(r) == as_section_result(dependency_section_text(set_views(sets@))->0),
{
    match section_or_stop(&sets) {
        Some(r) => r,
        None => {
            proof {
                assert(false);
            }
            Ok(String::new())
        },
    }
}

proof fn lemma_fold_stop(all: Seq<Seq<(Seq<char>, DependencyView)>>, n: int)
    requires
        0 < n <= all.len(),
        !(folded_dependencies(all.take(n)) matches Some(Ok(_))),
    ensures
        folded_dependencies(all) == folded_dependencies(all.take(n)),
        dependency_section_text(all) == dependency_section_text(all.take(n)),
    decreases all.len() - n,
{
    if n < all.len() {
        assert(all.take(n + 1).drop_last() =~= all.take(n));
        lemma_fold_stop(all, n + 1);
    } else {
        assert(all.take(n) =~= all);
    }
}

proof fn lemma_render_stop(s: Seq<(Seq<char>, DependencyView)>, n: int)
    requires
        0 < n <= s.len(),
        !(rendered_section(s.take(n)) matches Some(Ok(_))),
    ensures
        rendered_section(s) == rendered_section(s.take(n)),
    decreases s.len() - n,
{
    if n < s.len() {
        assert(s.take(n + 1).drop_last() =~= s.take(n));
        lemma_render_stop(s, n + 1);
    } else {
        assert(s.take(n) =~= s);
    }
}

proof fn lemma_common_merge_error(s: Seq<(Seq<char>, DependencyView)>, b: Map<Seq<char>, DependencyView>, i: int)
    requires
        0 <= i < s.len(),
        common_merge(s.take(i), b) is Ok,
        b.contains_key(s[i].0),
        combined_dependency(s[i].1, b[s[i].0]) is Err,
    ensures
        common_merge(s, b) == Err::<Map<Seq<char>, DependencyView>, DependencyErrorView>(
            combined_dependency(s[i].1, b[s[i].0])->Err_0,
        ),
        merge_conflict(s, b) == Some(s[i].0),
    decreases s.len() - i,
{
    if i == s.len() - 1 {
        assert(s.drop_last() =~= s.take(i));
    } else {
        assert(s.drop_last().take(i) =~= s.take(i));
        lemma_common_merge_error(s.drop_last(), b, i);
    }
}


/// The index of the first starter whose content is missing, if any.
pub open spec fn first_absent(c: Seq<Option<Seq<char>>>) -> Option<int>
    decreases c.len(),
{
    if c.len() == 0 {
        None
    } else {
        match first_absent(c.drop_last()) {
            Some(i) => Some(i),
            None => if c.last() is None {
                Some(c.len() - 1)
            } else {
                None
            },
        }
    }
}

/// The dependency sets read from the starters' manifest texts, in order; the
/// first text that cannot be read is the error.
pub open spec fn starter_sets(contents: Seq<Seq<char>>) -> Result<Seq<Seq<(Seq<char>, DependencyView)>>, ()>
    decreases contents.len(),
{
    if contents.len() == 0 {
        Ok(Seq::empty())
    } else {
        match starter_sets(contents.drop_last()) {
            Err(e) => Err(e),
            Ok(sets) => match manifest_reading(contents.last()) {
                Err(e) => Err(e),
                Ok(m) => Ok(sets.push(ordered_entries(entries_map(m.dependencies)))),
            },
        }
    }
}

/// The dependency section for the named starters, given their manifest
/// texts (`None` where a text could not be read): the first missing text,
/// then the first unreadable one, is the error; `None` where the merge or
/// the writing meets a dependency left to the workspace, which cannot be
/// combined or written.
pub open spec fn starters_dependency_section(
    names: Seq<Seq<char>>,
    contents: Seq<Option<Seq<char>>>,
) -> Option<Result<Seq<char>, GenerationErrorView>> {
    match first_absent(contents) {
        Some(i) => Some(Err(GenerationErrorView::CouldNotGetStarterContent(names[i]))),
        None => match starter_sets(contents.map_values(|c: Option<Seq<char>>| c.unwrap())) {
            Err(_) => Some(Err(GenerationErrorView::CouldNotParseStarterManifest)),
            Ok(sets) => as_section_option(dependency_section_text(sets)),
        },
    }
}

/// The views of the starters' manifest texts.
pub open spec fn contents_view(c: Seq<Option<String>>) -> Seq<Option<Seq<char>>> {
    c.map_values(|o: Option<String>| opt_text(o))
}

/// The view of an optional generation result.
pub open spec fn optional_generation_result(
    r: Option<Result<String, ProjectGeneratingServiceError>>,
) -> Option<Result<Seq<char>, GenerationErrorView>> {
    match r {
        Some(x) => Some(generation_result(x)),
        None => None,
    }
}

proof fn lemma_first_absent_none(c: Seq<Option<Seq<char>>>, i: int)
    requires
        0 <= i < c.len(),
        first_absent(c) is None,
    ensures
        c[i] is Some,
    decreases c.len(),
{
    if i < c.len() - 1 {
        lemma_first_absent_none(c.drop_last(), i);
    }
}

proof fn lemma_first_absent_take(c: Seq<Option<Seq<char>>>, n: int)
    requires
        0 <= n <= c.len(),
        first_absent(c.take(n)) is Some,
    ensures
        first_absent(c) == first_absent(c.take(n)),
    decreases c.len() - n,
{
    if n < c.len() {
        assert(c.take(n + 1).drop_last() =~= c.take(n));
        lemma_first_absent_take(c, n + 1);
    } else {
        assert(c.take(n) =~= c);
    }
}

proof fn lemma_starter_sets_take(c: Seq<Seq<char>>, n: int)
    requires
        0 <= n <= c.len(),
        starter_sets(c.take(n)) is Err,
    ensures
        starter_sets(c) == starter_sets(c.take(n)),
    decreases c.len() - n,
{
    if n < c.len() {
        assert(c.take(n + 1).drop_last() =~= c.take(n));
        lemma_starter_sets_take(c, n + 1);
    } else {
        assert(c.take(n) =~= c);
    }
}

/// Builds the dependency section for the starters a description names,
/// from their manifest texts (`None` where a text could not be read).
/// `None` where the merge or the writing meets a dependency left to the
/// workspace.
#[verifier::loop_isolation(false)]
pub fn generate_dependency_section(
    description_dto: &ProjectDescriptionDto,
    starter_contents: &Vec<Option<String>>,
) -> (r: Option<Result<String, ProjectGeneratingServiceError>>)
    requires
        starter_contents@.len() == description_dto.starters@.len(),
    ensures
        optional_generation_result(r) == starters_dependency_section(
            description_dto@.starters,
            contents_view(starter_contents@),
        ),
{
    let ghost cv = contents_view(starter_contents@);
    let n = starter_contents.len();
    let mut i: usize = 0;
    while i < n
        invariant
            i <= n,
            first_absent(cv.take(i as int)) is None,
        decreases n - i,
    {
        assert(cv.take(i + 1).drop_last() =~= cv.take(i as int));
        if starter_contents[i].is_none() {
            proof {
                lemma_first_absent_take(cv, i + 1);
            }
            return Some(Err(ProjectGeneratingServiceError::CouldNotGetStarterContent(copy_string(&description_dto.starters[i]))));
        }
        i = i + 1;
    }
    assert(cv.take(n as int) =~= cv);
    let ghost texts = cv.map_values(|c: Option<Seq<char>>| c.unwrap());
    let mut sets: Vec<DepsSet> = Vec::new();
    assert(texts.take(0) =~= Seq::<Seq<char>>::empty());
    assert(set_views(sets@) =~= Seq::<Seq<(Seq<char>, DependencyView)>>::empty());
    let mut k: usize = 0;
    while k < n
        invariant
            k <= n,
            starter_sets(texts.take(k as int)) == Ok::<Seq<Seq<(Seq<char>, DependencyView)>>, ()>(set_views(sets@)),
        decreases n - k,
    {
        proof {
            lemma_first_absent_none(cv, k as int);
        }
        let content = match &starter_contents[k] {
            Some(c) => c,
            None => {
                proof {
                    assert(false);
                }
                return None;
            },
        };
        assert(texts[k as int] == content@);
        assert(texts.take(k + 1).drop_last() =~= texts.take(k as int));
        match parse_manifest(content.as_str()) {
            Err(e) => {
                proof {
                    lemma_starter_sets_take(texts, k + 1);
                }
                return Some(Err(ProjectGeneratingServiceError::CouldNotParseStarterManifest(e)));
            },
            Ok(summary) => {
                let d = dependency_set_of(&summary);
                proof {
                    use_type_invariant(&d);
                    lemma_ordered_entries(d@);
                }
                let ghost before = sets@;
                let ghost dv = d@;
                sets.push(d);
                assert(set_views(sets@) =~= set_views(before).push(dv));
            },
        }
        k = k + 1;
    }
    assert(texts.take(n as int) =~= texts);
    match section_or_stop(&sets) {
        None => None,
        Some(_) => Some(dependency_section_of(sets)),
    }
}

/// The error `cargo_toml_builder` reports for a document it cannot build.
#[verifier::external_type_specification]
#[verifier::external_body]
pub struct ExBuilderError(cargo_toml_builder::Error);

/// The package section the builder writes for these field values, or that
/// it fails.
pub uninterp spec fn package_section_text(
    name: Seq<char>,
    version: Seq<char>,
    description: Seq<char>,
    author: Seq<char>,
) -> Result<Seq<char>, ()>;

/// The view of a builder result.
pub open spec fn builder_result(r: Result<String, cargo_toml_builder::Error>) -> Result<Seq<char>, ()> {
    match r {
        Ok(t) => Ok(t@),
        Err(_) => Err(()),
    }
}

/// Trusted: `cargo_toml_builder::CargoToml::builder()` given the name,
/// version, description and author, built, and the document turned into its
/// text.  The builder fails only without a name or an author, both of which
/// it is given here, so it succeeds.  The text is not stated; it is named
/// `package_section_text`.
#[verifier::external_body]
fn build_package_section(name: &str, version: &str, description: &str, author: &str) -> (r: Result<String, cargo_toml_builder::Error>)
    ensures
        builder_result(r) == package_section_text(name@, version@, description@, author@),
        r is Ok,
{
    cargo_toml_builder::CargoToml::builder()
        .name(name)
        .version(version)
        .description(description)
        .author(author)
        .build()
        .map(|document| document.to_string())
}

/// The package section for a description: version `0.1.0`, and the
/// stand-ins "No description" and "Unspecified Author" for missing fields.
pub open spec fn package_section_of(d: ProjectDescriptionView) -> Result<Seq<char>, GenerationErrorView> {
    let description = match d.package_description.description {
        Some(t) => t,
        None => "No description"@,
    };
    let author = match d.package_description.author {
        Some(t) => t,
        None => "Unspecified Author"@,
    };
    match package_section_text(d.package_description.name, "0.1.0"@, description, author) {
        Ok(t) => Ok(t),
        Err(_) => Err(GenerationErrorView::DescriptionSection),
    }
}

/// The package section gives the builder the description's own fields in
/// their own places: the package name as the name, `0.1.0` as the version,
/// the description's text (or "No description") as the description and its
/// author (or "Unspecified Author") as the author; the section is the text
/// the builder writes for them.
pub proof fn lemma_package_section_fields(d: ProjectDescriptionView, description: Seq<char>, author: Seq<char>)
    ensures
        ({
            &&& (d.package_description.description == Some(description) || (d.package_description.description is None
                && description == "No description"@))
            &&& (d.package_description.author == Some(author) || (d.package_description.author is None && author
                == "Unspecified Author"@))
        }) ==> match package_section_text(d.package_description.name, "0.1.0"@, description, author) {
            Ok(t) => package_section_of(d) == Ok::<Seq<char>, GenerationErrorView>(t),
            Err(_) => package_section_of(d) == Err::<Seq<char>, GenerationErrorView>(
                GenerationErrorView::DescriptionSection,
            ),
        },
{
}

/// Builds the package section of the generated manifest.
pub fn generate_package_section(description_dto: &ProjectDescriptionDto) -> (r: Result<String, ProjectGeneratingServiceError>)
    ensures
        generation_result(r) == package_section_of(description_dto@),
        r is Ok,
{
    let description = match &description_dto.package_description.description {
        Some(t) => copy_string(t),
        None => "No description".to_owned(),
    };
    let author = match &description_dto.package_description.author {
        Some(t) => copy_string(t),
        None => "Unspecified Author".to_owned(),
    };
    match build_package_section(
        description_dto.package_description.name.0.as_str(),
        "0.1.0",
        description.as_str(),
        author.as_str(),
    ) {
        Ok(t) => Ok(t),
        Err(e) => Err(ProjectGeneratingServiceError::DescriptionSection(e)),
    }
}

/// The generated manifest: the label as a comment, then the package section,
/// then the dependency section.
pub open spec fn cargo_file_text(
    d: ProjectDescriptionView,
    label: Seq<char>,
    contents: Seq<Option<Seq<char>>>,
) -> Option<Result<Seq<char>, GenerationErrorView>> {
    match package_section_of(d) {
        Err(e) => Some(Err(e)),
        Ok(p) => match starters_dependency_section(d.starters, contents) {
            None => None,
            Some(Err(e)) => Some(Err(e)),
            Some(Ok(deps)) => Some(Ok(seq!['#'] + label + p + deps)),
        },
    }
}

/// The content of the generated manifest for a description with starters,
/// given the label and the starters' manifest texts (`None` where a text
/// could not be read).  `None` where the merge or the writing meets a
/// dependency left to the workspace.
pub fn cargo_file_content(
    description_dto: &ProjectDescriptionDto,
    label: &str,
    starter_contents: &Vec<Option<String>>,
) -> (r: Option<Result<String, ProjectGeneratingServiceError>>)
    requires
        starter_contents@.len() == description_dto.starters@.len(),
    ensures
        optional_generation_result(r) == cargo_file_text(description_dto@, label@, contents_view(starter_contents@)),
{
    let package_section = match generate_package_section(description_dto) {
        Ok(p) => p,
        Err(e) => {
            return Some(Err(e));
        },
    };
    let dependency_section = match generate_dependency_section(description_dto, starter_contents) {
        None => {
            return None;
        },
        Some(Err(e)) => {
            return Some(Err(e));
        },
        Some(Ok(d)) => d,
    };
    let mut content = "#".to_owned();
    content.append(label);
    content.append(package_section.as_str());
    content.append(dependency_section.as_str());
    proof {
        reveal_strlit("#");
    }
    assert(content@ =~= seq!['#'] + label@ + package_section@ + dependency_section@);
    Some(Ok(content))
}

/// The text the generated manifest gets: nothing where no starter is asked
/// for (the file is left empty), otherwise the label, the package section
/// and the dependency section.
pub open spec fn manifest_text(
    d: ProjectDescriptionView,
    label: Seq<char>,
    contents: Seq<Option<Seq<char>>>,
) -> Option<Result<Seq<char>, GenerationErrorView>> {
    if d.starters.len() == 0 {
        Some(Ok(Seq::<char>::empty()))
    } else {
        cargo_file_text(d, label, contents)
    }
}

/// The text the generated manifest gets, given the label and the starters'
/// manifest texts (`None` where a text could not be read); `None` where the
/// merge or the writing meets a dependency left to the workspace.
pub fn cargo_toml_text(
    description_dto: &ProjectDescriptionDto,
    label: &str,
    starter_contents: &Vec<Option<String>>,
) -> (r: Option<Result<String, ProjectGeneratingServiceError>>)
    requires
        starter_contents@.len() == description_dto.starters@.len(),
    ensures
        optional_generation_result(r) == manifest_text(description_dto@, label@, contents_view(starter_contents@)),
{
    if description_dto.starters.len() == 0 {
        return Some(Ok(String::new()));
    }
    cargo_file_content(description_dto, label, starter_contents)
}

} // verus!
