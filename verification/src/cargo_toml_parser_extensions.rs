//! The dependencies of a manifest, how two declarations of one dependency
//! combine, and how a declaration is written back as a manifest line.

use vstd::prelude::*;
use crate::text::{
    copy_opt_string, copy_string, copy_strings, chars_of, dedup, join_chars, join_with,
    lemma_dedup, lines_of, opt_text, each_preceded, lemma_join_from_front, string_from_chars, text_lines, texts, union_of_strings, append_chars,
};

verus! {

/// A dependency declared with a table of details.
#[derive(Debug)]
pub struct DependencyDetail {
    pub version: Option<String>,
    pub registry: Option<String>,
    pub registry_index: Option<String>,
    pub path: Option<String>,
    pub git: Option<String>,
    pub branch: Option<String>,
    pub tag: Option<String>,
    pub rev: Option<String>,
    pub features: Vec<String>,
    pub optional: bool,
    pub default_features: bool,
    pub package: Option<String>,
}

/// One dependency declaration of a manifest.
#[derive(Debug)]
pub enum Dependency {
    /// Only a version requirement.
    Simple(String),
    /// Details left to the workspace, which the library does not read.
    Inherited,
    /// A table of details.
    Detailed(DependencyDetail),
}

/// The value of a detailed dependency.
pub struct DependencyDetailView {
    pub version: Option<Seq<char>>,
    pub registry: Option<Seq<char>>,
    pub registry_index: Option<Seq<char>>,
    pub path: Option<Seq<char>>,
    pub git: Option<Seq<char>>,
    pub branch: Option<Seq<char>>,
    pub tag: Option<Seq<char>>,
    pub rev: Option<Seq<char>>,
    pub features: Seq<Seq<char>>,
    pub optional: bool,
    pub default_features: bool,
    pub package: Option<Seq<char>>,
}

/// The value of a dependency declaration.
pub enum DependencyView {
    Simple(Seq<char>),
    Inherited,
    Detailed(DependencyDetailView),
}

impl View for DependencyDetail {
    type V = DependencyDetailView;

    open spec fn view(&self) -> DependencyDetailView {
        DependencyDetailView {
            version: opt_text(self.version),
            registry: opt_text(self.registry),
            registry_index: opt_text(self.registry_index),
            path: opt_text(self.path),
            git: opt_text(self.git),
            branch: opt_text(self.branch),
            tag: opt_text(self.tag),
            rev: opt_text(self.rev),
            features: texts(self.features@),
            optional: self.optional,
            default_features: self.default_features,
            package: opt_text(self.package),
        }
    }
}

impl View for Dependency {
    type V = DependencyView;

    open spec fn view(&self) -> DependencyView {
        match self {
            Dependency::Simple(v) => DependencyView::Simple(v@),
            Dependency::Inherited => DependencyView::Inherited,
            Dependency::Detailed(d) => DependencyView::Detailed(d@),
        }
    }
}

impl DependencyDetail {
    /// A copy with the same value.
    pub fn duplicate(&self) -> (r: DependencyDetail)
        ensures
            r@ == self@,
    {
        DependencyDetail {
            version: copy_opt_string(&self.version),
            registry: copy_opt_string(&self.registry),
            registry_index: copy_opt_string(&self.registry_index),
            path: copy_opt_string(&self.path),
            git: copy_opt_string(&self.git),
            branch: copy_opt_string(&self.branch),
            tag: copy_opt_string(&self.tag),
            rev: copy_opt_string(&self.rev),
            features: copy_strings(&self.features),
            optional: self.optional,
            default_features: self.default_features,
            package: copy_opt_string(&self.package),
        }
    }
}

impl Dependency {
    /// A copy with the same value.
    pub fn duplicate(&self) -> (r: Dependency)
        ensures
            r@ == self@,
    {
        match self {
            Dependency::Simple(v) => Dependency::Simple(copy_string(v)),
            Dependency::Inherited => Dependency::Inherited,
            Dependency::Detailed(d) => Dependency::Detailed(d.duplicate()),
        }
    }

    /// Whether this declaration leaves its details to the workspace.
    pub fn is_inherited(&self) -> (r: bool)
        ensures
            r == (self@ is Inherited),
    {
        match self {
            Dependency::Inherited => true,
            _ => false,
        }
    }
}

/// Why two dependency declarations could not be combined or written out.
#[derive(Debug)]
pub enum DependencyError {
    VersionComparatorError(String, String),
    MissingVersionInStarter,
    CouldNotParseDependencies(String),
}

/// The value of a `DependencyError`.
pub enum DependencyErrorView {
    VersionComparatorError(Seq<char>, Seq<char>),
    MissingVersionInStarter,
    CouldNotParseDependencies(Seq<char>),
}

impl View for DependencyError {
    type V = DependencyErrorView;

    open spec fn view(&self) -> DependencyErrorView {
        match self {
            DependencyError::VersionComparatorError(a, b) => DependencyErrorView::VersionComparatorError(
                a@,
                b@,
            ),
            DependencyError::MissingVersionInStarter => DependencyErrorView::MissingVersionInStarter,
            DependencyError::CouldNotParseDependencies(s) => DependencyErrorView::CouldNotParseDependencies(
                s@,
            ),
        }
    }
}

/// What `format!("{:?}", s)` gives for a string `s`: the string quoted, with
/// its special characters escaped.
pub uninterp spec fn debug_text(s: Seq<char>) -> Seq<char>;

/// Trusted: `format!("{:?}", s)`, the `Debug` form std gives a string slice;
/// std documents no more of its form than that it quotes and escapes, so
/// only that the result is a function of `s` is stated.
#[verifier::external_body]
fn debug_quoted(s: &str) -> (r: String)
    ensures
        r@ == debug_text(s@),
{
    format!("{:?}", s)
}

/// The message a dependency error displays.
pub open spec fn dependency_error_message(e: DependencyErrorView) -> Seq<char> {
    match e {
        DependencyErrorView::VersionComparatorError(a, b) => "Could not compare version: "@
            + debug_text(a) + " and "@ + debug_text(b),
        DependencyErrorView::MissingVersionInStarter => "Missing version in starter"@,
        DependencyErrorView::CouldNotParseDependencies(s) => "Could not parse "@ + debug_text(s),
    }
}

impl DependencyError {
    /// The message this error displays.
    pub fn to_string(&self) -> (r: String)
        ensures
            r@ == dependency_error_message(self@),
    {
        match self {
            DependencyError::VersionComparatorError(a, b) => {
                let mut r = "Could not compare version: ".to_owned();
                r.append(debug_quoted(a.as_str()).as_str());
                r.append(" and ");
                r.append(debug_quoted(b.as_str()).as_str());
                r
            },
            DependencyError::MissingVersionInStarter => "Missing version in starter".to_owned(),
            DependencyError::CouldNotParseDependencies(s) => {
                let mut r = "Could not parse ".to_owned();
                r.append(debug_quoted(s.as_str()).as_str());
                r
            },
        }
    }
}

/// How one version string compares to another.
#[derive(Clone, Copy, Debug, PartialEq, Eq, Structural)]
pub enum VersionComparison {
    Eq,
    Ne,
    Lt,
    Le,
    Ge,
    Gt,
}

/// How `version_compare::compare` rates version `a` against version `b`;
/// `None` where either is not a version it can read.
pub uninterp spec fn version_comparison(a: Seq<char>, b: Seq<char>) -> Option<VersionComparison>;

/// The answer a comparison gives with its operands swapped: less and
/// greater trade places, as do their "or equal" forms.
pub open spec fn swapped_comparison(c: Option<VersionComparison>) -> Option<VersionComparison> {
    match c {
        Some(VersionComparison::Lt) => Some(VersionComparison::Gt),
        Some(VersionComparison::Gt) => Some(VersionComparison::Lt),
        Some(VersionComparison::Le) => Some(VersionComparison::Ge),
        Some(VersionComparison::Ge) => Some(VersionComparison::Le),
        other => other,
    }
}

/// Trusted: calls `version_compare::compare(a, b)` and maps its `Cmp`
/// variant to the variant of the same name, its error to `None`.  The crate
/// documents that the comparison answers only less, equal or greater, and
/// its source compares the parts of both versions position by position, so
/// that comparing `b` with `a` gives the swapped answer (an error where
/// either is unreadable, both ways).  The order itself is not stated; it is
/// named `version_comparison`.
#[verifier::external_body]
fn compare_versions(a: &str, b: &str) -> (r: Option<VersionComparison>)
    ensures
        r == version_comparison(a@, b@),
        r matches Some(c) ==> (c is Lt || c is Eq || c is Gt),
        version_comparison(b@, a@) == swapped_comparison(r),
{
    match version_compare::compare(a, b) {
        Ok(version_compare::Cmp::Eq) => Some(VersionComparison::Eq),
        Ok(version_compare::Cmp::Ne) => Some(VersionComparison::Ne),
        Ok(version_compare::Cmp::Lt) => Some(VersionComparison::Lt),
        Ok(version_compare::Cmp::Le) => Some(VersionComparison::Le),
        Ok(version_compare::Cmp::Ge) => Some(VersionComparison::Ge),
        Ok(version_compare::Cmp::Gt) => Some(VersionComparison::Gt),
        Err(()) => None,
    }
}

/// The later of two versions: `b` where `a` rates below or equal-or-below
/// `b`, `a` otherwise; an error where they cannot be compared.
pub open spec fn latest_version(a: Seq<char>, b: Seq<char>) -> Result<Seq<char>, DependencyErrorView> {
    match version_comparison(a, b) {
        None => Err(DependencyErrorView::VersionComparatorError(a, b)),
        Some(VersionComparison::Lt) => Ok(b),
        Some(VersionComparison::Le) => Ok(b),
        Some(_) => Ok(a),
    }
}

/// The later of two versions is always one of them.
pub proof fn lemma_latest_version_is_one_of(a: Seq<char>, b: Seq<char>)
    ensures
        latest_version(a, b) matches Ok(v) ==> v == a || v == b,
        latest_version(a, b) is Err <==> version_comparison(a, b) is None,
{
}

/// The later version wins, by the version order and not by text: where
/// the comparison rates `a` below `b` the result is `b`; where it rates `a`
/// above `b`, or the two equal, it is `a`; where they cannot be compared,
/// the error names both.
pub proof fn lemma_latest_version_follows_order(a: Seq<char>, b: Seq<char>)
    ensures
        version_comparison(a, b) == Some(VersionComparison::Lt) ==> latest_version(a, b) == Ok::<
            Seq<char>,
            DependencyErrorView,
        >(b),
        version_comparison(a, b) == Some(VersionComparison::Gt) ==> latest_version(a, b) == Ok::<
            Seq<char>,
            DependencyErrorView,
        >(a),
        version_comparison(a, b) == Some(VersionComparison::Eq) ==> latest_version(a, b) == Ok::<
            Seq<char>,
            DependencyErrorView,
        >(a),
        version_comparison(a, b) is None ==> latest_version(a, b) == Err::<Seq<char>, DependencyErrorView>(
            DependencyErrorView::VersionComparatorError(a, b),
        ),
{
}

/// Two plain declarations of one dependency combine into the one whose
/// version the comparison rates later.
pub proof fn lemma_plain_declarations_keep_later_version(a: Seq<char>, b: Seq<char>)
    ensures
        version_comparison(a, b) == Some(VersionComparison::Lt) ==> combined_dependency(
            DependencyView::Simple(a),
            DependencyView::Simple(b),
        ) == Ok::<DependencyView, DependencyErrorView>(DependencyView::Simple(b)),
        version_comparison(a, b) == Some(VersionComparison::Gt) ==> combined_dependency(
            DependencyView::Simple(a),
            DependencyView::Simple(b),
        ) == Ok::<DependencyView, DependencyErrorView>(DependencyView::Simple(a)),
{
}

/// Combining two plain versions does not depend on their order where one
/// rates strictly below the other, given that the comparison the other way
/// round gives the swapped answer (which every comparison call states).
pub proof fn lemma_combine_plain_versions_commutes(a: Seq<char>, b: Seq<char>)
    requires
        version_comparison(a, b) == Some(VersionComparison::Lt) || version_comparison(a, b) == Some(
            VersionComparison::Gt,
        ),
        version_comparison(b, a) == swapped_comparison(version_comparison(a, b)),
    ensures
        combined_dependency(DependencyView::Simple(a), DependencyView::Simple(b)) == combined_dependency(
            DependencyView::Simple(b),
            DependencyView::Simple(a),
        ),
{
}

/// The view of a version result.
pub open spec fn version_result(r: Result<String, DependencyError>) -> Result<Seq<char>, DependencyErrorView> {
    match r {
        Ok(s) => Ok(s@),
        Err(e) => Err(e@),
    }
}

/// Picks the later of two versions.
pub fn get_latest_version(v1: &str, v2: &str) -> (r: Result<String, DependencyError>)
    ensures
        version_result(r) == latest_version(v1@, v2@),
        version_comparison(v2@, v1@) == swapped_comparison(version_comparison(v1@, v2@)),
        version_comparison(v1@, v2@) == Some(VersionComparison::Lt) ==> (r matches Ok(s) && s@ == v2@),
        version_comparison(v1@, v2@) == Some(VersionComparison::Gt) ==> (r matches Ok(s) && s@ == v1@),
        version_comparison(v1@, v2@) == Some(VersionComparison::Eq) ==> (r matches Ok(s) && s@ == v1@),
{
    match compare_versions(v1, v2) {
        None => Err(DependencyError::VersionComparatorError(v1.to_owned(), v2.to_owned())),
        Some(VersionComparison::Lt) | Some(VersionComparison::Le) => Ok(v2.to_owned()),
        Some(_) => Ok(v1.to_owned()),
    }
}

/// The version of a detailed declaration, or the error for its absence.
pub open spec fn required_version(d: DependencyDetailView) -> Result<Seq<char>, DependencyErrorView> {
    match d.version {
        Some(v) => Ok(v),
        None => Err(DependencyErrorView::MissingVersionInStarter),
    }
}

/// How two declarations of one dependency combine into one: the later
/// version wins; a table on the left keeps its other details and, when the
/// right is a table too, gains the features of both.
pub open spec fn combined_dependency(a: DependencyView, b: DependencyView) -> Result<DependencyView, DependencyErrorView> {
    match (a, b) {
        (DependencyView::Simple(va), DependencyView::Simple(vb)) => match latest_version(va, vb) {
            Ok(v) => Ok(DependencyView::Simple(v)),
            Err(e) => Err(e),
        },
        (DependencyView::Simple(va), DependencyView::Detailed(db)) => match required_version(db) {
            Err(e) => Err(e),
            Ok(vb) => match latest_version(va, vb) {
                Ok(v) => Ok(DependencyView::Detailed(DependencyDetailView { version: Some(v), ..db })),
                Err(e) => Err(e),
            },
        },
        (DependencyView::Detailed(da), DependencyView::Simple(vb)) => match required_version(da) {
            Err(e) => Err(e),
            Ok(va) => match latest_version(va, vb) {
                Ok(v) => Ok(DependencyView::Simple(v)),
                Err(e) => Err(e),
            },
        },
        (DependencyView::Detailed(da), DependencyView::Detailed(db)) => match required_version(da) {
            Err(e) => Err(e),
            Ok(va) => match required_version(db) {
                Err(e) => Err(e),
                Ok(vb) => match latest_version(va, vb) {
                    Ok(v) => Ok(
                        DependencyView::Detailed(
                            DependencyDetailView {
                                version: Some(v),
                                features: dedup(da.features + db.features),
                                ..da
                            },
                        ),
                    ),
                    Err(e) => Err(e),
                },
            },
        },
        _ => Err(DependencyErrorView::MissingVersionInStarter),
    }
}

/// Combining two tables of one dependency, where it succeeds, keeps the
/// later of the two versions, the left table's other details, and the
/// features of either table, each once.
pub proof fn lemma_combined_tables(da: DependencyDetailView, db: DependencyDetailView)
    ensures
        combined_dependency(DependencyView::Detailed(da), DependencyView::Detailed(db)) matches Ok(c) ==> {
            &&& c matches DependencyView::Detailed(d)
            &&& da.version matches Some(va)
            &&& db.version matches Some(vb)
            &&& latest_version(va, vb) == Ok::<Seq<char>, DependencyErrorView>(d.version->0)
            &&& d.registry == da.registry && d.path == da.path && d.git == da.git && d.package == da.package
            &&& d.optional == da.optional && d.default_features == da.default_features
            &&& d.features.no_duplicates()
            &&& forall|x: Seq<char>| #[trigger] d.features.contains(x) <==> da.features.contains(x) || db.features.contains(x)
        },
{
    lemma_dedup(da.features + db.features);
    assert forall|x: Seq<char>| (da.features + db.features).contains(x) <==> da.features.contains(x) || db.features.contains(x) by {
        if (da.features + db.features).contains(x) {
            let i = choose|i: int| 0 <= i < (da.features + db.features).len() && (da.features + db.features)[i] == x;
            if i < da.features.len() {
                assert(da.features[i] == x);
            } else {
                assert(db.features[i - da.features.len()] == x);
            }
        }
        if da.features.contains(x) {
            let i = choose|i: int| 0 <= i < da.features.len() && da.features[i] == x;
            assert((da.features + db.features)[i] == x);
        }
        if db.features.contains(x) {
            let i = choose|i: int| 0 <= i < db.features.len() && db.features[i] == x;
            assert((da.features + db.features)[da.features.len() + i] == x);
        }
    }
}

/// The view of a combination result.
pub open spec fn dependency_result(r: Result<Dependency, DependencyError>) -> Result<DependencyView, DependencyErrorView> {
    match r {
        Ok(d) => Ok(d@),
        Err(e) => Err(e@),
    }
}

/// Two declarations of one dependency merged into one.
pub trait Combine: Sized {
    /// Whether the two declarations can be merged at all.
    spec fn combinable(&self, other: &Self) -> bool;

    fn combine_dependencies(&self, other: &Self) -> (r: Result<Dependency, DependencyError>)
        requires
            self.combinable(other),
    ;
}

fn detail_version(d: &DependencyDetail) -> (r: Result<&String, DependencyError>)
    ensures
        match r {
            Ok(v) => required_version(d@) == Ok::<Seq<char>, DependencyErrorView>(v@),
            Err(e) => required_version(d@) == Err::<Seq<char>, DependencyErrorView>(e@),
        },
{
    match &d.version {
        Some(v) => Ok(v),
        None => Err(DependencyError::MissingVersionInStarter),
    }
}

impl Combine for Dependency {
    /// Declarations that leave their details to the workspace cannot be merged.
    open spec fn combinable(&self, other: &Self) -> bool {
        !(self@ is Inherited) && !(other@ is Inherited)
    }

    fn combine_dependencies(&self, other: &Self) -> (r: Result<Dependency, DependencyError>)
        ensures
            dependency_result(r) == combined_dependency(self@, other@),
            ({
                &&& self@ matches DependencyView::Simple(va)
                &&& other@ matches DependencyView::Simple(vb)
                &&& (version_comparison(va, vb) == Some(VersionComparison::Lt) || version_comparison(va, vb)
                    == Some(VersionComparison::Gt))
            }) ==> combined_dependency(other@, self@) == combined_dependency(self@, other@),
    {
        match self {
            Dependency::Simple(version_a) => match other {
                Dependency::Simple(version_b) => {
                    let latest = get_latest_version(version_a.as_str(), version_b.as_str());
                    proof {
                        let c = version_comparison(version_a@, version_b@);
                        if c == Some(VersionComparison::Lt) || c == Some(VersionComparison::Gt) {
                            lemma_combine_plain_versions_commutes(version_a@, version_b@);
                        }
                    }
                    let final_version = latest?;
                    Ok(Dependency::Simple(final_version))
                },
                Dependency::Detailed(details) => {
                    let version_b = detail_version(details)?;
                    let final_version = get_latest_version(version_a.as_str(), version_b.as_str())?;
                    let mut dependency_detail = details.duplicate();
                    dependency_detail.version = Some(final_version);
                    Ok(Dependency::Detailed(dependency_detail))
                },
                Dependency::Inherited => {
                    proof {
                        assert(false);
                    }
                    Err(DependencyError::MissingVersionInStarter)
                },
            },
            Dependency::Detailed(details_a) => match other {
                Dependency::Simple(version_b) => {
                    let version_a = detail_version(details_a)?;
                    let final_version = get_latest_version(version_a.as_str(), version_b.as_str())?;
                    Ok(Dependency::Simple(final_version))
                },
                Dependency::Detailed(details_b) => {
                    let version_a = detail_version(details_a)?;
                    let version_b = detail_version(details_b)?;
                    let final_version = get_latest_version(version_a.as_str(), version_b.as_str())?;
                    let final_features = union_of_strings(&details_a.features, &details_b.features);
                    let mut dependency_detail = details_a.duplicate();
                    dependency_detail.version = Some(final_version);
                    dependency_detail.features = final_features;
                    Ok(Dependency::Detailed(dependency_detail))
                },
                Dependency::Inherited => {
                    proof {
                        assert(false);
                    }
                    Err(DependencyError::MissingVersionInStarter)
                },
            },
            Dependency::Inherited => {
                proof {
                    assert(false);
                }
                Err(DependencyError::MissingVersionInStarter)
            },
        }
    }
}


/// The view of a text result.
pub open spec fn text_result(r: Result<String, String>) -> Result<Seq<char>, Seq<char>> {
    match r {
        Ok(s) => Ok(s@),
        Err(e) => Err(e@),
    }
}

/// What `toml::to_string` gives for a `cargo_toml::DependencyDetail` with
/// these field values: its TOML text, or the message of its error.
pub uninterp spec fn detail_toml(d: DependencyDetailView) -> Result<Seq<char>, Seq<char>>;

/// Trusted: builds the `cargo_toml::DependencyDetail` with the same field
/// values (its `inherited` flag, which is never written, left at its
/// default) and calls `toml::to_string` on it; an error is turned into its
/// message.  The text is not stated; it is named `detail_toml`.
#[verifier::external_body]
fn detail_to_toml(d: &DependencyDetail) -> (r: Result<String, String>)
    ensures
        text_result(r) == detail_toml(d@),
{
    let outside = cargo_toml::DependencyDetail {
        version: d.version.clone(), registry: d.registry.clone(),
        registry_index: d.registry_index.clone(), path: d.path.clone(),
        git: d.git.clone(), branch: d.branch.clone(), tag: d.tag.clone(), rev: d.rev.clone(),
        features: d.features.clone(), optional: d.optional,
        default_features: d.default_features, package: d.package.clone(),
        ..Default::default()
    };
    toml::to_string(&outside).map_err(|e| e.to_string())
}

/// A table of details as an inline TOML table: the lines of its TOML text
/// joined with commas, between braces.
pub open spec fn detail_rendering(d: DependencyDetailView) -> Result<Seq<char>, DependencyErrorView> {
    match detail_toml(d) {
        Ok(t) => Ok("{ "@ + join_with(text_lines(t), ", "@) + " }"@),
        Err(e) => Err(DependencyErrorView::CouldNotParseDependencies(e)),
    }
}

/// A table of details is written as a valid inline table: `{ `, the first
/// line of its TOML text, then each further line preceded by a comma and a
/// space, and ` }`; a text of no lines gives `{  }`.  Where the TOML writer
/// fails, its message is the error.
pub proof fn lemma_detail_rendering_is_inline_table(d: DependencyDetailView)
    ensures
        match detail_toml(d) {
            Ok(t) => if text_lines(t).len() > 0 {
                detail_rendering(d) == Ok::<Seq<char>, DependencyErrorView>(
                    "{ "@ + text_lines(t)[0] + each_preceded(text_lines(t).skip(1), ", "@) + " }"@,
                )
            } else {
                detail_rendering(d) == Ok::<Seq<char>, DependencyErrorView>("{ "@ + " }"@)
            },
            Err(e) => detail_rendering(d) == Err::<Seq<char>, DependencyErrorView>(
                DependencyErrorView::CouldNotParseDependencies(e),
            ),
        },
{
    if let Ok(t) = detail_toml(d) {
        if text_lines(t).len() > 0 {
            lemma_join_from_front(text_lines(t), ", "@);
            let lines = text_lines(t);
            assert("{ "@ + join_with(lines, ", "@) + " }"@ =~= "{ "@ + lines[0] + each_preceded(lines.skip(1), ", "@)
                + " }"@);
        } else {
            assert("{ "@ + Seq::<char>::empty() + " }"@ =~= "{ "@ + " }"@);
        }
    }
}

/// The manifest line declaring dependency `name` as `d`.
pub open spec fn entry_rendering(name: Seq<char>, d: DependencyView) -> Result<Seq<char>, DependencyErrorView> {
    match d {
        DependencyView::Simple(v) => Ok(name + " = "@ + seq!['"'] + v + seq!['"']),
        DependencyView::Detailed(dd) => match detail_rendering(dd) {
            Ok(t) => Ok(name + " = "@ + t),
            Err(e) => Err(e),
        },
        DependencyView::Inherited => Err(DependencyErrorView::MissingVersionInStarter),
    }
}

/// Writing a declaration back as manifest text.
pub trait MyToString {
    /// Whether the value can be written at all.
    spec fn writable(&self) -> bool;

    fn to_string(&self) -> (r: Result<String, DependencyError>)
        requires
            self.writable(),
    ;
}

impl MyToString for DependencyDetail {
    open spec fn writable(&self) -> bool {
        true
    }

    fn to_string(&self) -> (r: Result<String, DependencyError>)
        ensures
            version_result(r) == detail_rendering(self@),
    {
        let parsed = match detail_to_toml(self) {
            Ok(t) => t,
            Err(e) => {
                return Err(DependencyError::CouldNotParseDependencies(e));
            },
        };
        let lines = lines_of(&chars_of(parsed.as_str()));
        let separator = chars_of(", ");
        let joined = join_chars(&lines, &separator);
        let mut out = chars_of("{ ");
        append_chars(&mut out, &joined);
        append_chars(&mut out, &chars_of(" }"));
        Ok(string_from_chars(out.as_slice()))
    }
}

impl<'a> MyToString for (&'a String, &'a Dependency) {
    /// Declarations left to the workspace are never written.
    open spec fn writable(&self) -> bool {
        !(self.1@ is Inherited)
    }

    fn to_string(&self) -> (r: Result<String, DependencyError>)
        ensures
            version_result(r) == entry_rendering(self.0@, self.1@),
    {
        let mut result = copy_string(self.0);
        result.append(" = ");
        match self.1 {
            Dependency::Simple(version) => {
                proof {
                    reveal_strlit("\"");
                }
                let mut quoted = chars_of("\"");
                append_chars(&mut quoted, &chars_of(version.as_str()));
                append_chars(&mut quoted, &chars_of("\""));
                let quoted = string_from_chars(quoted.as_slice());
                result.append(quoted.as_str());
                assert(result@ =~= self.0@ + " = "@ + seq!['"'] + version@ + seq!['"']);
            },
            Dependency::Detailed(details) => {
                let text = details.to_string()?;
                result.append(text.as_str());
                assert(result@ =~= self.0@ + " = "@ + text@);
            },
            Dependency::Inherited => {
                proof {
                    assert(false);
                }
            },
        }
        Ok(result)
    }
}

} // verus!
