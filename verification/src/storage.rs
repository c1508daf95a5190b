//! The starter catalogue: reading starters from their manifests, and the
//! in-memory storage the service looks them up in.

use vstd::prelude::*;
use crate::deps_set::{entries_map, lemma_ordered_entries, ordered_entries};
use crate::cargo_toml_parser_extensions::DependencyView;
use crate::manifest::{
    dependency_set_of, manifest_reading, parse_manifest, resolve_manifest, resolved_manifest, workspace_view,
    DescriptionField, DescriptionFieldView,
};
use crate::starter::{RawStarter, Starter, StarterDto, StarterDtoView, StarterView};
use crate::text::{copy_string, str_eq};

verus! {

/// Why a lookup in the storage failed.
#[derive(Debug)]
pub enum MapStorageError {
    Unknown(String),
    DeserializeFailed(String),
    SerializeFailed(String),
    KeyNotFound(String),
}

/// The value of a `MapStorageError`.
pub enum MapStorageErrorView {
    Unknown(Seq<char>),
    DeserializeFailed(Seq<char>),
    SerializeFailed(Seq<char>),
    KeyNotFound(Seq<char>),
}

impl View for MapStorageError {
    type V = MapStorageErrorView;

    open spec fn view(&self) -> MapStorageErrorView {
        match self {
            MapStorageError::Unknown(s) => MapStorageErrorView::Unknown(s@),
            MapStorageError::DeserializeFailed(s) => MapStorageErrorView::DeserializeFailed(s@),
            MapStorageError::SerializeFailed(s) => MapStorageErrorView::SerializeFailed(s@),
            MapStorageError::KeyNotFound(s) => MapStorageErrorView::KeyNotFound(s@),
        }
    }
}

/// Why a starter file could not be read into the catalogue.
#[derive(Debug)]
pub enum StarterFileError {
    /// The file at this path is no manifest that can be read.
    InvalidStarterManifest(String),
    /// No starter could be read at all.
    NoStartersProvided,
    /// Walking the starter folder failed, with the system's message.
    CannotReadMetadataOfStarterFile(String),
    /// The manifest at this path has no package section.
    MissingPackageSection(String),
    /// The file at this path could not be read.
    CannotReadStarterFile(String),
}

/// The value of a `StarterFileError`.
pub enum StarterFileErrorView {
    InvalidStarterManifest(Seq<char>),
    NoStartersProvided,
    CannotReadMetadataOfStarterFile(Seq<char>),
    MissingPackageSection(Seq<char>),
    CannotReadStarterFile(Seq<char>),
}

impl View for StarterFileError {
    type V = StarterFileErrorView;

    open spec fn view(&self) -> StarterFileErrorView {
        match self {
            StarterFileError::InvalidStarterManifest(s) => StarterFileErrorView::InvalidStarterManifest(s@),
            StarterFileError::NoStartersProvided => StarterFileErrorView::NoStartersProvided,
            StarterFileError::CannotReadMetadataOfStarterFile(s) => StarterFileErrorView::CannotReadMetadataOfStarterFile(s@),
            StarterFileError::MissingPackageSection(s) => StarterFileErrorView::MissingPackageSection(s@),
            StarterFileError::CannotReadStarterFile(s) => StarterFileErrorView::CannotReadStarterFile(s@),
        }
    }
}

/// The names of entries, in order.
pub open spec fn entry_names(s: Seq<(Seq<char>, DependencyView)>) -> Seq<Seq<char>> {
    s.map_values(|e: (Seq<char>, DependencyView)| e.0)
}

/// The starter the manifest text at `path` describes, once what it
/// inherits is filled in from its workspace (`workspace`: the text and
/// folder of the workspace manifest found above it, if any): named after
/// its package, described by the package's description or "Missing
/// description", offering its dependencies in ascending order of name, and
/// keeping the text itself.  A manifest that cannot be read, or whose
/// inheritance cannot be filled in, is invalid; so is one whose description
/// is still left to the workspace after that.
pub open spec fn starter_from_manifest(
    path: Seq<char>,
    text: Seq<char>,
    workspace: Option<(Seq<char>, Seq<char>)>,
) -> Result<StarterView, StarterFileErrorView> {
    match resolved_manifest(text, workspace) {
        None => Err(StarterFileErrorView::InvalidStarterManifest(path)),
        Some(resolved) => match manifest_reading(resolved) {
            Err(_) => Err(StarterFileErrorView::InvalidStarterManifest(path)),
            Ok(m) => match m.package {
                None => Err(StarterFileErrorView::MissingPackageSection(path)),
                Some(p) => match p.description {
                    DescriptionFieldView::Inherited => Err(StarterFileErrorView::InvalidStarterManifest(path)),
                    DescriptionFieldView::Missing => Ok(StarterView {
                        starter_dto: StarterDtoView {
                            name: p.name,
                            crates: entry_names(ordered_entries(entries_map(m.dependencies))),
                            description: "Missing description"@,
                        },
                        raw_starter: text,
                    }),
                    DescriptionFieldView::Given(d) => Ok(StarterView {
                        starter_dto: StarterDtoView {
                            name: p.name,
                            crates: entry_names(ordered_entries(entries_map(m.dependencies))),
                            description: d,
                        },
                        raw_starter: text,
                    }),
                },
            },
        },
    }
}

/// The view of a starter result.
pub open spec fn starter_result(r: Result<Starter, StarterFileError>) -> Result<StarterView, StarterFileErrorView> {
    match r {
        Ok(s) => Ok(s@),
        Err(e) => Err(e@),
    }
}

/// Reads the starter whose manifest file at `stater_path` holds `text`,
/// with the workspace manifest found above it, if any.
pub fn read_starter(stater_path: &str, text: &str, workspace: &Option<(String, String)>) -> (r: Result<Starter, StarterFileError>)
    ensures
        starter_result(r) == starter_from_manifest(stater_path@, text@, workspace_view(*workspace)),
{
    let resolved = match resolve_manifest(text, workspace) {
        Some(t) => t,
        None => {
            return Err(StarterFileError::InvalidStarterManifest(stater_path.to_owned()));
        },
    };
    let summary = match parse_manifest(resolved.as_str()) {
        Ok(s) => s,
        Err(_) => {
            return Err(StarterFileError::InvalidStarterManifest(stater_path.to_owned()));
        },
    };
    let deps = dependency_set_of(&summary);
    proof {
        use_type_invariant(&deps);
        lemma_ordered_entries(deps@);
    }
    let crates = deps.names();
    let package_section = match &summary.package {
        Some(p) => p,
        None => {
            return Err(StarterFileError::MissingPackageSection(stater_path.to_owned()));
        },
    };
    let starter_description = match &package_section.description {
        DescriptionField::Missing => "Missing description".to_owned(),
        DescriptionField::Given(d) => copy_string(d),
        DescriptionField::Inherited => {
            return Err(StarterFileError::InvalidStarterManifest(stater_path.to_owned()));
        },
    };
    let starter_dto = StarterDto::new(copy_string(&package_section.name), crates, starter_description);
    Ok(Starter { starter_dto, raw_starter: RawStarter(text.to_owned()) })
}

/// A starter file as the library sees it: its path, its text (`None`
/// where it could not be read), and the text and folder of the workspace
/// manifest found above it, if any.
pub type StarterFileView = (Seq<char>, Option<Seq<char>>, Option<(Seq<char>, Seq<char>)>);

/// The starters read from the files of the starter folder, in order: a file
/// that could not be read (`None`) or does not describe a starter is left
/// out.
pub open spec fn starters_read(files: Seq<StarterFileView>) -> Seq<StarterView>
    decreases files.len(),
{
    if files.len() == 0 {
        Seq::empty()
    } else {
        let earlier = starters_read(files.drop_last());
        match files.last().1 {
            None => earlier,
            Some(text) => match starter_from_manifest(files.last().0, text, files.last().2) {
                Ok(s) => earlier.push(s),
                Err(_) => earlier,
            },
        }
    }
}

/// A starter file handed over: its path, its text (`None` where it could
/// not be read), and the text and folder of the workspace manifest found
/// above it, if any.
pub type StarterFile = (String, Option<String>, Option<(String, String)>);

/// The views of the files handed over.
pub open spec fn files_view(files: Seq<StarterFile>) -> Seq<StarterFileView> {
    files.map_values(|f: StarterFile| (f.0@, crate::text::opt_text(f.1), workspace_view(f.2)))
}

/// The views of a list of starters.
pub open spec fn starter_views(s: Seq<Starter>) -> Seq<StarterView> {
    s.map_values(|x: Starter| x@)
}

/// Reads the starters of the starter folder from its files (each path with
/// its text, `None` where it could not be read); an error where none is a
/// starter.
pub fn read_starters_from_fs(files: &Vec<StarterFile>) -> (r: Result<Vec<Starter>, StarterFileError>)
    ensures
        match r {
            Ok(v) => starter_views(v@) == starters_read(files_view(files@)) && v@.len() > 0,
            Err(e) => e@ == StarterFileErrorView::NoStartersProvided && starters_read(files_view(files@)).len() == 0,
        },
{
    let ghost fv = files_view(files@);
    let mut starters: Vec<Starter> = Vec::new();
    let mut i: usize = 0;
    while i < files.len()
        invariant
            fv == files_view(files@),
            i <= files@.len(),
            starter_views(starters@) == starters_read(fv.take(i as int)),
        decreases files@.len() - i,
    {
        assert(fv.take(i + 1).drop_last() =~= fv.take(i as int));
        assert(fv.take(i + 1).last() == fv[i as int]);
        let (path, text, workspace) = (&files[i].0, &files[i].1, &files[i].2);
        match text {
            Some(t) => match read_starter(path.as_str(), t.as_str(), workspace) {
                Ok(s) => {
                    let ghost before = starters@;
                    starters.push(s);
                    assert(starter_views(starters@) =~= starter_views(before).push(s@));
                },
                Err(_) => {},
            },
            None => {},
        }
        i = i + 1;
    }
    assert(fv.take(files@.len() as int) =~= fv);
    if starters.len() == 0 {
        return Err(StarterFileError::NoStartersProvided);
    }
    Ok(starters)
}

/// The starters by name, a later starter replacing an earlier one of the
/// same name.
pub open spec fn starters_by_name(s: Seq<StarterView>) -> Map<Seq<char>, StarterView>
    decreases s.len(),
{
    if s.len() == 0 {
        Map::empty()
    } else {
        starters_by_name(s.drop_last()).insert(s.last().starter_dto.name, s.last())
    }
}

/// Whether no two starters share a name.
pub open spec fn names_distinct(s: Seq<StarterView>) -> bool {
    forall|i: int, j: int| 0 <= i < j < s.len() ==> #[trigger] s[i].starter_dto.name != #[trigger] s[j].starter_dto.name
}

/// The value of a listing result.
pub open spec fn listing_result(r: Result<Vec<Starter>, MapStorageError>) -> Result<Seq<StarterView>, MapStorageErrorView> {
    match r {
        Ok(v) => Ok(starter_views(v@)),
        Err(e) => Err(e@),
    }
}

/// A storage of starters by name.
pub trait MapStorage {
    /// The starters the storage holds, by name.
    spec fn stored(&self) -> Map<Seq<char>, StarterView>;

    /// What listing the starters gives: all of them, each once, in the
    /// storage's order, or the error the storage meets.
    spec fn listing(&self) -> Result<Seq<StarterView>, MapStorageErrorView>;

    /// All starters of the storage, each once, as the storage lists them.
    fn get_all_starters(&self) -> (r: Result<Vec<Starter>, MapStorageError>)
        ensures
            listing_result(r) == self.listing(),
            r matches Ok(v) ==> names_distinct(starter_views(v@)) && starters_by_name(starter_views(v@))
                == self.stored(),
    ;

    /// The starter of that name; `KeyNotFound` with the name where the
    /// storage has none.
    fn get_starter_by_name(&self, name: &str) -> (r: Result<Starter, MapStorageError>)
        ensures
            match r {
                Ok(s) => self.stored().contains_key(name@) && s@ == self.stored()[name@],
                Err(e) => !self.stored().contains_key(name@) && e@ == MapStorageErrorView::KeyNotFound(name@),
            },
    ;
}

/// Starters kept by name: every starter's name is kept, and keeps the last
/// starter of that name; where names are distinct, each starter is found by
/// its own name.
pub proof fn lemma_starters_by_name(s: Seq<StarterView>, i: int)
    requires
        0 <= i < s.len(),
    ensures
        starters_by_name(s).contains_key(s[i].starter_dto.name),
        starters_by_name(s)[s[i].starter_dto.name].starter_dto.name == s[i].starter_dto.name,
        exists|j: int| i <= j < s.len() && starters_by_name(s)[s[i].starter_dto.name] == #[trigger] s[j],
        names_distinct(s) ==> starters_by_name(s)[s[i].starter_dto.name] == s[i],
    decreases s.len(),
{
    let k = s[i].starter_dto.name;
    if i == s.len() - 1 {
        assert(starters_by_name(s)[k] == s[i]);
    } else {
        let init = s.drop_last();
        assert(init[i] == s[i]);
        lemma_starters_by_name(init, i);
        if s.last().starter_dto.name == k {
            assert(starters_by_name(s)[k] == s[s.len() - 1]);
        } else {
            let j = choose|j: int| i <= j < init.len() && starters_by_name(init)[k] == #[trigger] init[j];
            assert(starters_by_name(s)[k] == s[j]);
        }
        if names_distinct(s) {
            lemma_by_name_index(s, i);
        }
    }
}

/// Starters held in memory, by name.
pub struct InMemoryStorage {
    starters: Vec<Starter>,
}

impl View for InMemoryStorage {
    type V = Seq<StarterView>;

    /// The starters held, each name once.
    closed spec fn view(&self) -> Seq<StarterView> {
        starter_views(self.starters@)
    }
}

proof fn lemma_by_name_dom(s: Seq<StarterView>, k: Seq<char>)
    ensures
        starters_by_name(s).contains_key(k) <==> exists|i: int| 0 <= i < s.len() && #[trigger] s[i].starter_dto.name == k,
    decreases s.len(),
{
    if s.len() > 0 {
        lemma_by_name_dom(s.drop_last(), k);
        if starters_by_name(s.drop_last()).contains_key(k) {
            let i = choose|i: int| 0 <= i < s.drop_last().len() && #[trigger] s.drop_last()[i].starter_dto.name == k;
            assert(s[i].starter_dto.name == k);
        }
        if exists|i: int| 0 <= i < s.len() && #[trigger] s[i].starter_dto.name == k {
            let i = choose|i: int| 0 <= i < s.len() && #[trigger] s[i].starter_dto.name == k;
            if i < s.len() - 1 {
                assert(s.drop_last()[i].starter_dto.name == k);
            }
        }
    }
}

proof fn lemma_by_name_index(s: Seq<StarterView>, i: int)
    requires
        names_distinct(s),
        0 <= i < s.len(),
    ensures
        starters_by_name(s).contains_key(s[i].starter_dto.name),
        starters_by_name(s)[s[i].starter_dto.name] == s[i],
    decreases s.len(),
{
    if i < s.len() - 1 {
        assert(names_distinct(s.drop_last()));
        lemma_by_name_index(s.drop_last(), i);
        assert(s[i].starter_dto.name != s[s.len() - 1].starter_dto.name);
    }
}

proof fn lemma_by_name_update(s: Seq<StarterView>, i: int, x: StarterView)
    requires
        names_distinct(s),
        0 <= i < s.len(),
        s[i].starter_dto.name == x.starter_dto.name,
    ensures
        names_distinct(s.update(i, x)),
        starters_by_name(s.update(i, x)) == starters_by_name(s).insert(x.starter_dto.name, x),
{
    let t = s.update(i, x);
    assert(names_distinct(t)) by {
        assert forall|a: int, b: int| 0 <= a < b < t.len() implies #[trigger] t[a].starter_dto.name
            != #[trigger] t[b].starter_dto.name by {
            assert(s[a].starter_dto.name != s[b].starter_dto.name);
        }
    }
    let k = x.starter_dto.name;
    assert forall|n: Seq<char>| #![trigger starters_by_name(t).contains_key(n)]
        starters_by_name(t).contains_key(n) == starters_by_name(s).insert(k, x).contains_key(n) by {
        lemma_by_name_dom(t, n);
        lemma_by_name_dom(s, n);
        if exists|j: int| 0 <= j < s.len() && #[trigger] s[j].starter_dto.name == n {
            let j = choose|j: int| 0 <= j < s.len() && #[trigger] s[j].starter_dto.name == n;
            assert(t[j].starter_dto.name == n);
        }
        if exists|j: int| 0 <= j < t.len() && #[trigger] t[j].starter_dto.name == n {
            let j = choose|j: int| 0 <= j < t.len() && #[trigger] t[j].starter_dto.name == n;
            assert(s[j].starter_dto.name == n);
        }
    }
    assert forall|n: Seq<char>| #[trigger] starters_by_name(t).contains_key(n) implies starters_by_name(t)[n]
        == starters_by_name(s).insert(k, x)[n] by {
        lemma_by_name_dom(t, n);
        let j = choose|j: int| 0 <= j < t.len() && #[trigger] t[j].starter_dto.name == n;
        lemma_by_name_index(t, j);
        if j != i {
            lemma_by_name_index(s, j);
        }
    }
    assert(starters_by_name(t) =~= starters_by_name(s).insert(k, x));
}

proof fn lemma_by_name_push(s: Seq<StarterView>, x: StarterView)
    requires
        names_distinct(s),
        !starters_by_name(s).contains_key(x.starter_dto.name),
    ensures
        names_distinct(s.push(x)),
        starters_by_name(s.push(x)) == starters_by_name(s).insert(x.starter_dto.name, x),
{
    let t = s.push(x);
    assert(t.drop_last() =~= s);
    assert(names_distinct(t)) by {
        assert forall|a: int, b: int| 0 <= a < b < t.len() implies #[trigger] t[a].starter_dto.name
            != #[trigger] t[b].starter_dto.name by {
            if b == s.len() {
                lemma_by_name_dom(s, x.starter_dto.name);
                assert(s[a].starter_dto.name == t[a].starter_dto.name);
            } else {
                assert(s[a].starter_dto.name != s[b].starter_dto.name);
            }
        }
    }
}

/// Puts a starter among starters with distinct names: it replaces the one
/// of the same name, or joins them.
fn put_by_name(held: &mut Vec<Starter>, s: Starter)
    requires
        names_distinct(starter_views(old(held)@)),
    ensures
        names_distinct(starter_views(final(held)@)),
        starters_by_name(starter_views(final(held)@)) == starters_by_name(starter_views(old(held)@)).insert(
            s@.starter_dto.name,
            s@,
        ),
{
    let ghost sv = s@;
    let mut j: usize = 0;
    while j < held.len()
        invariant
            j <= held@.len(),
            forall|k: int| 0 <= k < j ==> (#[trigger] held@[k])@.starter_dto.name != s@.starter_dto.name,
        ensures
            j <= held@.len(),
            forall|k: int| 0 <= k < j ==> (#[trigger] held@[k])@.starter_dto.name != s@.starter_dto.name,
            j < held@.len() ==> held@[j as int]@.starter_dto.name == s@.starter_dto.name,
        decreases held@.len() - j,
    {
        if held[j].starter_dto.name == s.starter_dto.name {
            break;
        }
        j = j + 1;
    }
    let ghost hv = starter_views(held@);
    if j < held.len() && held[j].starter_dto.name == s.starter_dto.name {
        proof {
            lemma_by_name_update(hv, j as int, sv);
        }
        held.set(j, s);
        assert(starter_views(held@) =~= hv.update(j as int, sv));
    } else {
        proof {
            lemma_by_name_dom(hv, sv.starter_dto.name);
            if starters_by_name(hv).contains_key(sv.starter_dto.name) {
                let k = choose|k: int| 0 <= k < hv.len() && #[trigger] hv[k].starter_dto.name == sv.starter_dto.name;
                assert(held@[k]@.starter_dto.name == sv.starter_dto.name);
            }
            lemma_by_name_push(hv, sv);
        }
        held.push(s);
        assert(starter_views(held@) =~= hv.push(sv));
    }
}

impl InMemoryStorage {
    /// The names held are distinct.
    #[verifier::type_invariant]
    pub open spec fn distinct_names(self) -> bool {
        names_distinct(self@)
    }

    /// Holds the given starters by name, a later starter replacing an
    /// earlier one of the same name.
    pub fn from_starters(starters: Vec<Starter>) -> (r: InMemoryStorage)
        ensures
            starters_by_name(r@) == starters_by_name(starter_views(starters@)),
    {
        let ghost all = starter_views(starters@);
        let mut held: Vec<Starter> = Vec::new();
        let mut i: usize = 0;
        assert(starter_views(held@) =~= Seq::<StarterView>::empty());
        while i < starters.len()
            invariant
                all == starter_views(starters@),
                i <= starters@.len(),
                names_distinct(starter_views(held@)),
                starters_by_name(starter_views(held@)) == starters_by_name(all.take(i as int)),
            decreases starters@.len() - i,
        {
            let s = starters[i].duplicate();
            assert(all.take(i + 1).drop_last() =~= all.take(i as int));
            assert(all.take(i + 1).last() == s@);
            put_by_name(&mut held, s);
            i = i + 1;
        }
        assert(all.take(starters@.len() as int) =~= all);
        InMemoryStorage { starters: held }
    }

    /// Puts a starter into the storage: it replaces the one of the same name,
    /// or joins the others.
    pub fn add(&mut self, starter: Starter)
        ensures
            starters_by_name(final(self)@) == starters_by_name(old(self)@).insert(starter@.starter_dto.name, starter@),
    {
        proof {
            use_type_invariant(&*self);
        }
        let mut held: Vec<Starter> = Vec::new();
        std::mem::swap(&mut held, &mut self.starters);
        put_by_name(&mut held, starter);
        self.starters = held;
    }

    /// Reads the starter folder's files into a storage; an error where none
    /// is a starter.
    pub fn new(files: &Vec<StarterFile>) -> (r: Result<InMemoryStorage, StarterFileError>)
        ensures
            match r {
                Ok(s) => starters_by_name(s@) == starters_by_name(starters_read(files_view(files@)))
                    && starters_read(files_view(files@)).len() > 0,
                Err(e) => e@ == StarterFileErrorView::NoStartersProvided && starters_read(files_view(files@)).len() == 0,
            },
    {
        let starters = read_starters_from_fs(files)?;
        Ok(InMemoryStorage::from_starters(starters))
    }
}

impl MapStorage for InMemoryStorage {
    open spec fn stored(&self) -> Map<Seq<char>, StarterView> {
        starters_by_name(self@)
    }

    /// The starters are in memory: listing them gives them all, in the
    /// order held, and never fails.
    open spec fn listing(&self) -> Result<Seq<StarterView>, MapStorageErrorView> {
        Ok(self@)
    }

    fn get_all_starters(&self) -> (r: Result<Vec<Starter>, MapStorageError>)
        ensures
            r matches Ok(v) && starter_views(v@) == self@,
    {
        proof {
            use_type_invariant(self);
        }
        let mut r: Vec<Starter> = Vec::new();
        let mut i: usize = 0;
        while i < self.starters.len()
            invariant
                i <= self@.len(),
                starter_views(r@) == self@.take(i as int),
            decreases self@.len() - i,
        {
            let ghost before = r@;
            r.push(self.starters[i].duplicate());
            assert(starter_views(r@) =~= starter_views(before).push(self@[i as int]));
            assert(self@.take(i + 1) =~= self@.take(i as int).push(self@[i as int]));
            i = i + 1;
        }
        assert(self@.take(self@.len() as int) =~= self@);
        Ok(r)
    }

    fn get_starter_by_name(&self, name: &str) -> (r: Result<Starter, MapStorageError>)
    {
        proof {
            use_type_invariant(self);
        }
        let mut i: usize = 0;
        while i < self.starters.len()
            invariant
                i <= self@.len(),
                names_distinct(self@),
                forall|j: int| 0 <= j < i ==> (#[trigger] self@[j]).starter_dto.name != name@,
            decreases self@.len() - i,
        {
            if str_eq(self.starters[i].starter_dto.name.as_str(), name) {
                proof {
                    lemma_by_name_index(self@, i as int);
                }
                return Ok(self.starters[i].duplicate());
            }
            i = i + 1;
        }
        proof {
            lemma_by_name_dom(self@, name@);
        }
        Err(MapStorageError::KeyNotFound(name.to_owned()))
    }
}

/// The starter service, over some storage.
pub struct StarterService<T: MapStorage> {
    starter_storage: T,
}

impl<T: MapStorage> StarterService<T> {
    /// The starters the service's storage holds, by name.
    pub closed spec fn stored(&self) -> Map<Seq<char>, StarterView> {
        self.starter_storage.stored()
    }

    /// What listing the service's storage gives.
    pub closed spec fn listing(&self) -> Result<Seq<StarterView>, MapStorageErrorView> {
        self.starter_storage.listing()
    }

    /// A service over the given storage.
    pub fn new(starter_storage: T) -> (r: Self)
        ensures
            r.stored() == starter_storage.stored(),
            r.listing() == starter_storage.listing(),
    {
        StarterService { starter_storage }
    }

    /// All starters of the storage, each once: the storage's list, in its
    /// order, or its error, passed on unchanged.
    pub fn get_starters(&self) -> (r: Result<Vec<Starter>, MapStorageError>)
        ensures
            listing_result(r) == self.listing(),
            r matches Ok(v) ==> names_distinct(starter_views(v@)) && starters_by_name(starter_views(v@))
                == self.stored(),
    {
        self.starter_storage.get_all_starters()
    }

    /// The starter of that name; `KeyNotFound` with the name where there is none.
    pub fn get_starter_by_name(&self, name: &str) -> (r: Result<Starter, MapStorageError>)
        ensures
            match r {
                Ok(s) => self.stored().contains_key(name@) && s@ == self.stored()[name@],
                Err(e) => !self.stored().contains_key(name@) && e@ == MapStorageErrorView::KeyNotFound(name@),
            },
    {
        self.starter_storage.get_starter_by_name(name)
    }
}

impl StarterService<InMemoryStorage> {
    /// A service over the starters read from the starter folder's files; an
    /// error where none is a starter.
    pub fn in_memory(files: &Vec<StarterFile>) -> (r: Result<Self, StarterFileError>)
        ensures
            match r {
                Ok(s) => s.stored() == starters_by_name(starters_read(files_view(files@))) && s.listing() is Ok
                    && starters_read(files_view(files@)).len() > 0,
                Err(e) => e@ == StarterFileErrorView::NoStartersProvided && starters_read(files_view(files@)).len() == 0,
            },
    {
        let storage = InMemoryStorage::new(files)?;
        Ok(StarterService { starter_storage: storage })
    }
}

} // verus!
