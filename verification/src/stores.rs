//! The state of the front end: the description being edited, the starter
//! selection, and how the integration mode is read.

use vstd::prelude::*;
use crate::project_description::{
    PackageDescriptionName, ProjectDescriptionDto, ProjectDescriptionView, TargetKind,
};
use crate::starter::{StarterDto, StarterDtoView};
use crate::text::{
    chars_of, copy_string, decimal_string, decimal_text, join_chars, join_with, str_eq, string_from_chars,
    texts,
};

verus! {

/// Whether the front end talks to a back end or shows sample data.
#[derive(Clone, Copy, Debug, PartialEq, Eq, Structural)]
pub enum IntegrationMode {
    Test,
    Production,
}

impl Default for IntegrationMode {
    fn default() -> (r: Self)
        ensures
            r == IntegrationMode::Test,
    {
        IntegrationMode::Test
    }
}

/// The integration mode a setting names: production for "PRODUCTION" or
/// "production", test for anything else.
pub open spec fn integration_mode_of(value: Seq<char>) -> IntegrationMode {
    if value == "PRODUCTION"@ || value == "production"@ {
        IntegrationMode::Production
    } else {
        IntegrationMode::Test
    }
}

impl IntegrationMode {
    /// Reads an integration mode setting.
    pub fn from(value: &str) -> (r: IntegrationMode)
        ensures
            r == integration_mode_of(value@),
    {
        if str_eq(value, "PRODUCTION") || str_eq(value, "production") {
            IntegrationMode::Production
        } else {
            IntegrationMode::Test
        }
    }
}

/// Whether `c` is alphabetic or numeric, as `char::is_alphanumeric` rates it.
pub uninterp spec fn alphanumeric(c: char) -> bool;

/// Whether `c` is an ASCII letter or digit.
pub open spec fn ascii_alphanumeric(c: char) -> bool {
    let n = c as u32;
    (97 <= n && n <= 122) || (65 <= n && n <= 90) || (48 <= n && n <= 57)
}

/// Trusted: calls `char::is_alphanumeric`, which std documents as "alphabetic
/// or numeric" by the Unicode properties, so that among ASCII characters
/// exactly the letters and digits qualify; beyond ASCII the tables are not
/// stated, the result is named `alphanumeric`.
#[verifier::external_body]
fn is_alphanumeric(c: char) -> (r: bool)
    ensures
        r == alphanumeric(c),
        (c as u32) < 128 ==> (r <==> ascii_alphanumeric(c)),
{
    c.is_alphanumeric()
}

/// Whether a package name is acceptable: apart from `-` and `_`, every
/// character is alphanumeric.
pub open spec fn name_valid(name: Seq<char>) -> bool {
    forall|i: int| 0 <= i < name.len() && name[i] != '-' && name[i] != '_' ==> alphanumeric(#[trigger] name[i])
}

/// An ASCII character that has no place in a package name: neither `-`,
/// `_`, a letter nor a digit (a dot, a space, a slash, ...).
pub open spec fn refused_in_name(c: char) -> bool {
    (c as u32) < 128 && c != '-' && c != '_' && !ascii_alphanumeric(c)
}

/// A name is accepted exactly when each of its characters is `-`, `_` or
/// alphanumeric: a single other character refuses the whole name.
pub proof fn lemma_name_rule(name: Seq<char>)
    ensures
        name_valid(name) <==> forall|i: int|
            0 <= i < name.len() ==> (name[i] == '-' || name[i] == '_' || alphanumeric(#[trigger] name[i])),
        forall|i: int| 0 <= i < name.len() && !alphanumeric(#[trigger] name[i]) && name[i] != '-' && name[i] != '_'
            ==> !name_valid(name),
{
}

/// Whether a package name is acceptable; a name holding an ASCII character
/// other than `-`, `_`, a letter or a digit is refused.
pub fn is_name_valid(name: &str) -> (r: bool)
    ensures
        r == name_valid(name@),
        forall|i: int| 0 <= i < name@.len() && refused_in_name(#[trigger] name@[i]) ==> !r,
{
    let cs = chars_of(name);
    let mut i: usize = 0;
    while i < cs.len()
        invariant
            cs@ == name@,
            i <= cs@.len(),
            forall|j: int| 0 <= j < i && cs@[j] != '-' && cs@[j] != '_' ==> alphanumeric(#[trigger] cs@[j]) && (
                (cs@[j] as u32) < 128 ==> ascii_alphanumeric(cs@[j])),
        decreases cs@.len() - i,
    {
        let c = cs[i];
        if c != '-' && c != '_' && !is_alphanumeric(c) {
            return false;
        }
        i = i + 1;
    }
    assert forall|k: int| 0 <= k < name@.len() && refused_in_name(#[trigger] name@[k]) implies false by {
        assert(cs@[k] == name@[k]);
    }
    true
}

/// The description being edited, and whether its name is acceptable.
#[derive(Debug)]
pub struct ProjectDescriptionState {
    pub project_description: ProjectDescriptionDto,
    pub is_description_valid: bool,
}

impl Default for ProjectDescriptionState {
    fn default() -> (r: Self)
        ensures
            r.project_description@ == ProjectDescriptionDto::default_view(),
            !r.is_description_valid,
    {
        ProjectDescriptionState { project_description: ProjectDescriptionDto::default(), is_description_valid: false }
    }
}

impl ProjectDescriptionState {
    /// Takes the chosen target kind.
    pub fn on_target_change(&mut self, input: TargetKind)
        ensures
            final(self).project_description@ == (ProjectDescriptionView {
                target_kind: input,
                ..old(self).project_description@
            }),
            final(self).is_description_valid == old(self).is_description_valid,
    {
        self.project_description.target_kind = input;
    }

    /// Takes a typed name where it is non-empty and acceptable, marking the
    /// description valid; otherwise keeps the name and marks it invalid.
    pub fn on_name_change(&mut self, input: String)
        ensures
            forall|i: int| 0 <= i < input@.len() && refused_in_name(#[trigger] input@[i])
                ==> !final(self).is_description_valid && final(self).project_description@ == old(self).project_description@,
            input@.len() > 0 && name_valid(input@) ==> final(self).project_description@ == (ProjectDescriptionView {
                package_description: crate::project_description::PackageDescriptionView {
                    name: input@,
                    ..old(self).project_description@.package_description
                },
                ..old(self).project_description@
            }) && final(self).is_description_valid,
            !(input@.len() > 0 && name_valid(input@)) ==> final(self).project_description@
                == old(self).project_description@ && !final(self).is_description_valid,
    {
        if !input.as_str().is_empty() && is_name_valid(input.as_str()) {
            self.project_description.package_description.name = PackageDescriptionName(input);
            self.is_description_valid = true;
        } else {
            self.is_description_valid = false;
        }
    }

    /// Takes a typed author; an empty one clears it.
    pub fn on_author_change(&mut self, input: String)
        ensures
            final(self).project_description@ == (ProjectDescriptionView {
                package_description: crate::project_description::PackageDescriptionView {
                    author: if input@.len() > 0 { Some(input@) } else { None },
                    ..old(self).project_description@.package_description
                },
                ..old(self).project_description@
            }),
            final(self).is_description_valid == old(self).is_description_valid,
    {
        self.project_description.package_description.author = if !input.as_str().is_empty() {
            Some(input)
        } else {
            None
        };
    }

    /// Takes a typed description; an empty one clears it.
    pub fn on_description_change(&mut self, input: String)
        ensures
            final(self).project_description@ == (ProjectDescriptionView {
                package_description: crate::project_description::PackageDescriptionView {
                    description: if input@.len() > 0 { Some(input@) } else { None },
                    ..old(self).project_description@.package_description
                },
                ..old(self).project_description@
            }),
            final(self).is_description_valid == old(self).is_description_valid,
    {
        self.project_description.package_description.description = if !input.as_str().is_empty() {
            Some(input)
        } else {
            None
        };
    }
}


/// What the description form shows: which target kind is ticked, and the
/// name, author and description fields (an absent author or description
/// shows as an empty field).
#[derive(Debug)]
pub struct FormValues {
    pub bin_checked: bool,
    pub lib_checked: bool,
    pub name: String,
    pub author: String,
    pub description: String,
}

/// The text an optional field shows: its value, or nothing.
pub open spec fn shown(o: Option<Seq<char>>) -> Seq<char> {
    match o {
        Some(t) => t,
        None => Seq::<char>::empty(),
    }
}

/// What the description form shows for the state.
pub fn left_section(state: &ProjectDescriptionState) -> (r: FormValues)
    ensures
        r.bin_checked == (state.project_description@.target_kind == TargetKind::Bin),
        r.lib_checked == (state.project_description@.target_kind == TargetKind::Lib),
        r.name@ == state.project_description@.package_description.name,
        r.author@ == shown(state.project_description@.package_description.author),
        r.description@ == shown(state.project_description@.package_description.description),
{
    let desc = &state.project_description.package_description;
    let (bin_checked, lib_checked) = match state.project_description.target_kind {
        TargetKind::Bin => (true, false),
        TargetKind::Lib => (false, true),
    };
    let author = match &desc.author {
        Some(a) => copy_string(a),
        None => String::new(),
    };
    let description = match &desc.description {
        Some(d) => copy_string(d),
        None => String::new(),
    };
    FormValues { bin_checked, lib_checked, name: copy_string(&desc.name.0), author, description }
}

/// How a starter is shown in a list: its name, its crates separated by
/// spaces, and its description.
#[derive(Debug)]
pub struct StarterCard {
    pub name: String,
    pub crates: String,
    pub description: String,
}

/// The value of a starter card.
pub struct StarterCardView {
    pub name: Seq<char>,
    pub crates: Seq<char>,
    pub description: Seq<char>,
}

impl View for StarterCard {
    type V = StarterCardView;

    open spec fn view(&self) -> StarterCardView {
        StarterCardView { name: self.name@, crates: self.crates@, description: self.description@ }
    }
}

/// The card of a starter.
pub open spec fn card_of(d: StarterDtoView) -> StarterCardView {
    StarterCardView { name: d.name, crates: join_with(d.crates, seq![' ']), description: d.description }
}

/// The cards of a list of starters, in order.
pub open spec fn cards_of(v: Seq<StarterDto>) -> Seq<StarterCardView> {
    v.map_values(|d: StarterDto| card_of(d@))
}

/// The cards of a list of starters.
fn starter_cards(v: &Vec<StarterDto>) -> (r: Vec<StarterCard>)
    ensures
        r@.map_values(|c: StarterCard| c@) == cards_of(v@),
{
    let mut r: Vec<StarterCard> = Vec::new();
    let mut i: usize = 0;
    while i < v.len()
        invariant
            i <= v@.len(),
            r@.map_values(|c: StarterCard| c@) == cards_of(v@).take(i as int),
        decreases v@.len() - i,
    {
        let d = &v[i];
        let mut parts: Vec<Vec<char>> = Vec::new();
        let mut k: usize = 0;
        while k < d.crates.len()
            invariant
                k <= d.crates@.len(),
                parts@.map_values(|p: Vec<char>| p@) == texts(d.crates@).take(k as int),
            decreases d.crates@.len() - k,
        {
            let ghost before = parts@;
            parts.push(chars_of(d.crates[k].as_str()));
            assert(parts@.map_values(|p: Vec<char>| p@) =~= before.map_values(|p: Vec<char>| p@).push(d.crates@[k as int]@));
            assert(texts(d.crates@).take(k + 1) =~= texts(d.crates@).take(k as int).push(d.crates@[k as int]@));
            k = k + 1;
        }
        assert(texts(d.crates@).take(d.crates@.len() as int) =~= texts(d.crates@));
        let mut space: Vec<char> = Vec::new();
        space.push(' ');
        assert(space@ =~= seq![' ']);
        let joined = join_chars(&parts, &space);
        let card = StarterCard {
            name: copy_string(&d.name),
            crates: string_from_chars(joined.as_slice()),
            description: copy_string(&d.description),
        };
        let ghost before = r@;
        r.push(card);
        assert(r@.map_values(|c: StarterCard| c@) =~= before.map_values(|c: StarterCard| c@).push(card_of(v@[i as int]@)));
        assert(cards_of(v@).take(i + 1) =~= cards_of(v@).take(i as int).push(card_of(v@[i as int]@)));
        i = i + 1;
    }
    assert(cards_of(v@).take(v@.len() as int) =~= cards_of(v@));
    r
}

/// What the page does with the starters when it opens.
#[derive(Clone, Copy, Debug, PartialEq, Eq, Structural)]
pub enum MountAction {
    /// Starters are already there: keep them.
    Keep,
    /// Show the sample starters.
    UseMockStarters,
    /// Fetch the starters from the back end.
    FetchStarters,
}

/// Decides what the page does with the starters when it opens: nothing
/// where some are offered already; otherwise the sample starters while
/// testing, or those of the back end in production.
pub fn on_mount(state: &StartersState, mode: IntegrationMode) -> (r: MountAction)
    ensures
        r == (if state.all_starters@.len() > 0 {
            MountAction::Keep
        } else if mode == IntegrationMode::Test {
            MountAction::UseMockStarters
        } else {
            MountAction::FetchStarters
        }),
{
    if state.all_starters.len() > 0 {
        MountAction::Keep
    } else {
        match mode {
            IntegrationMode::Test => MountAction::UseMockStarters,
            IntegrationMode::Production => MountAction::FetchStarters,
        }
    }
}

/// Whether no starter occurs twice in a list.
pub open spec fn no_repeats(v: Seq<StarterDto>) -> bool {
    v.map_values(|d: StarterDto| d@).no_duplicates()
}

/// Adding an entry that is not there keeps a list free of repeats.
proof fn lemma_push_new(s: Seq<StarterDtoView>, x: StarterDtoView)
    requires
        s.no_duplicates(),
        !s.contains(x),
    ensures
        s.push(x).no_duplicates(),
{
    let t = s.push(x);
    assert forall|i: int, j: int| 0 <= i < t.len() && 0 <= j < t.len() && i != j implies t[i] != t[j] by {
        if i < s.len() && j < s.len() {
            assert(t[i] == s[i] && t[j] == s[j]);
        } else if i < s.len() {
            assert(t[i] == s[i]);
        } else {
            assert(t[j] == s[j]);
        }
    }
}

/// The catalogue entries of a list, as a set.
pub open spec fn dto_set(v: Seq<StarterDto>) -> Set<StarterDtoView> {
    v.map_values(|d: StarterDto| d@).to_set()
}

/// Whether `selected` and `unselected` together make up `all` and share
/// nothing.
pub open spec fn splits(
    all: Set<StarterDtoView>,
    selected: Set<StarterDtoView>,
    unselected: Set<StarterDtoView>,
) -> bool {
    &&& selected.union(unselected) == all
    &&& selected.disjoint(unselected)
}

/// The starters offered, those chosen, and those not chosen.
#[derive(Debug)]
pub struct StartersState {
    pub all_starters: Vec<StarterDto>,
    pub selected_starters: Vec<StarterDto>,
    pub unselected_starters: Vec<StarterDto>,
}

impl StartersState {
    /// The starters offered.
    pub open spec fn all(&self) -> Set<StarterDtoView> {
        dto_set(self.all_starters@)
    }

    /// The starters chosen.
    pub open spec fn selected(&self) -> Set<StarterDtoView> {
        dto_set(self.selected_starters@)
    }

    /// The starters not chosen.
    pub open spec fn unselected(&self) -> Set<StarterDtoView> {
        dto_set(self.unselected_starters@)
    }

    /// Whether no list holds a starter twice: each list stands for a set.
    pub open spec fn well_formed(&self) -> bool {
        &&& no_repeats(self.all_starters@)
        &&& no_repeats(self.selected_starters@)
        &&& no_repeats(self.unselected_starters@)
    }

    /// Whether every offered starter is either chosen or not, and none both.
    pub open spec fn partitioned(&self) -> bool {
        splits(self.all(), self.selected(), self.unselected())
    }

    /// Nothing offered, nothing chosen.
    pub fn empty() -> (r: StartersState)
        ensures
            r.all() == Set::<StarterDtoView>::empty(),
            r.selected() == Set::<StarterDtoView>::empty(),
            r.unselected() == Set::<StarterDtoView>::empty(),
            r.well_formed(),
    {
        let r = StartersState { all_starters: Vec::new(), selected_starters: Vec::new(), unselected_starters: Vec::new() };
        assert(r.all_starters@.map_values(|d: StarterDto| d@) =~= Seq::<StarterDtoView>::empty());
        assert(r.all() =~= Set::<StarterDtoView>::empty());
        assert(r.selected() =~= Set::<StarterDtoView>::empty());
        assert(r.unselected() =~= Set::<StarterDtoView>::empty());
        r
    }

    /// The starters fetched from the back end, all offered and none chosen.
    pub fn offering(all_starters: Vec<StarterDto>) -> (r: StartersState)
        ensures
            r.all() == dto_set(all_starters@),
            r.unselected() == dto_set(all_starters@),
            r.selected() == Set::<StarterDtoView>::empty(),
            r.partitioned(),
            r.well_formed(),
    {
        let all_starters = dedup_starters(&all_starters);
        let mut unselected: Vec<StarterDto> = Vec::new();
        let mut k: usize = 0;
        while k < all_starters.len()
            invariant
                k <= all_starters@.len(),
                unselected@.map_values(|d: StarterDto| d@) == all_starters@.map_values(|d: StarterDto| d@).take(k as int),
            decreases all_starters@.len() - k,
        {
            let ghost before = unselected@;
            unselected.push(all_starters[k].duplicate());
            assert(unselected@.map_values(|d: StarterDto| d@) =~= before.map_values(|d: StarterDto| d@).push(all_starters@[k as int]@));
            assert(unselected@.map_values(|d: StarterDto| d@) =~= all_starters@.map_values(|d: StarterDto| d@).take(k + 1));
            k = k + 1;
        }
        assert(all_starters@.map_values(|d: StarterDto| d@).take(all_starters@.len() as int) =~= all_starters@.map_values(|d: StarterDto| d@));
        let r = StartersState { all_starters, selected_starters: Vec::new(), unselected_starters: unselected };
        assert(r.selected_starters@.map_values(|d: StarterDto| d@) =~= Seq::<StarterDtoView>::empty());
        assert(r.selected() =~= Set::<StarterDtoView>::empty());
        assert(r.selected().union(r.unselected()) =~= r.all());
        assert(r.unselected_starters@.map_values(|d: StarterDto| d@) =~= r.all_starters@.map_values(|d: StarterDto| d@));
        r
    }

    /// Chooses a starter: it joins the chosen ones and leaves the others.
    pub fn select_starter(&mut self, starter: &StarterDto)
        requires
            old(self).well_formed(),
        ensures
            final(self).well_formed(),
            final(self).all() == old(self).all(),
            final(self).selected() == old(self).selected().insert(starter@),
            final(self).unselected() == old(self).unselected().remove(starter@),
    {
        insert_starter(&mut self.selected_starters, starter);
        remove_starter(&mut self.unselected_starters, starter);
    }

    /// Removes a starter from the chosen ones: it rejoins the others.
    pub fn unselect_starter(&mut self, starter: &StarterDto)
        requires
            old(self).well_formed(),
        ensures
            final(self).well_formed(),
            final(self).all() == old(self).all(),
            final(self).selected() == old(self).selected().remove(starter@),
            final(self).unselected() == old(self).unselected().insert(starter@),
    {
        remove_starter(&mut self.selected_starters, starter);
        insert_starter(&mut self.unselected_starters, starter);
    }
}

/// Choosing an offered starter, or removing one from the chosen ones, keeps
/// every offered starter either chosen or not, and none both.
pub proof fn lemma_selection_keeps_partition(st: StartersState, s: StarterDtoView)
    requires
        st.partitioned(),
        st.all().contains(s),
    ensures
        splits(st.all(), st.selected().insert(s), st.unselected().remove(s)),
        splits(st.all(), st.selected().remove(s), st.unselected().insert(s)),
{
    assert(st.selected().insert(s).union(st.unselected().remove(s)) =~= st.all());
    assert(st.selected().remove(s).union(st.unselected().insert(s)) =~= st.all());
}

/// Choosing a starter that is not chosen and then removing it from the
/// chosen ones leaves the selection as it was.
pub proof fn lemma_select_then_unselect(st: StartersState, s: StarterDtoView)
    requires
        st.partitioned(),
        st.unselected().contains(s),
    ensures
        st.selected().insert(s).remove(s) == st.selected(),
        st.unselected().remove(s).insert(s) == st.unselected(),
{
    assert(!st.selected().contains(s));
    assert(st.selected().insert(s).remove(s) =~= st.selected());
    assert(st.unselected().remove(s).insert(s) =~= st.unselected());
}

/// The cards of the chosen starters, which the right-hand section lists.
pub fn right_section(state: &StartersState) -> (r: Vec<StarterCard>)
    ensures
        r@.map_values(|c: StarterCard| c@) == cards_of(state.selected_starters@),
{
    starter_cards(&state.selected_starters)
}

/// The cards of the starters not chosen, which the selection popup offers.
pub fn starter_selection_popup(state: &StartersState) -> (r: Vec<StarterCard>)
    ensures
        r@.map_values(|c: StarterCard| c@) == cards_of(state.unselected_starters@),
{
    starter_cards(&state.unselected_starters)
}

/// Whether a list holds an entry equal to `s`.
fn contains_starter(v: &Vec<StarterDto>, s: &StarterDto) -> (r: bool)
    ensures
        r == dto_set(v@).contains(s@),
{
    let mut i: usize = 0;
    while i < v.len()
        invariant
            i <= v@.len(),
            forall|j: int| 0 <= j < i ==> v@[j]@ != s@,
        decreases v@.len() - i,
    {
        if v[i].same_as(s) {
            assert(v@.map_values(|d: StarterDto| d@)[i as int] == s@);
            return true;
        }
        i = i + 1;
    }
    let ghost views = v@.map_values(|d: StarterDto| d@);
    assert(!views.contains(s@)) by {
        if views.contains(s@) {
            let j = choose|j: int| 0 <= j < views.len() && #[trigger] views[j] == s@;
            assert(v@[j]@ == s@);
        }
    }
    false
}

/// The entries of a list, each kept once, in the order of first appearance.
fn dedup_starters(v: &Vec<StarterDto>) -> (r: Vec<StarterDto>)
    ensures
        dto_set(r@) == dto_set(v@),
        no_repeats(r@),
{
    let ghost vv = v@.map_values(|d: StarterDto| d@);
    let mut r: Vec<StarterDto> = Vec::new();
    let mut i: usize = 0;
    assert(r@.map_values(|d: StarterDto| d@) =~= Seq::<StarterDtoView>::empty());
    assert(vv.take(0) =~= Seq::<StarterDtoView>::empty());
    while i < v.len()
        invariant
            vv == v@.map_values(|d: StarterDto| d@),
            i <= v@.len(),
            dto_set(r@) == vv.take(i as int).to_set(),
            no_repeats(r@),
        decreases v@.len() - i,
    {
        assert(vv.take(i + 1) =~= vv.take(i as int).push(vv[i as int]));
        proof {
            vv.take(i as int).lemma_push_to_set_commute(vv[i as int]);
        }
        insert_starter(&mut r, &v[i]);
        i = i + 1;
    }
    assert(vv.take(v@.len() as int) =~= vv);
    r
}

/// Adds `s` to a list unless an equal entry is there.
fn insert_starter(v: &mut Vec<StarterDto>, s: &StarterDto)
    requires
        no_repeats(old(v)@),
    ensures
        dto_set(final(v)@) == dto_set(old(v)@).insert(s@),
        no_repeats(final(v)@),
{
    if !contains_starter(v, s) {
        let ghost before = v@;
        v.push(s.duplicate());
        assert(v@.map_values(|d: StarterDto| d@) =~= before.map_values(|d: StarterDto| d@).push(s@));
        proof {
            before.map_values(|d: StarterDto| d@).lemma_push_to_set_commute(s@);
            lemma_push_new(before.map_values(|d: StarterDto| d@), s@);
        }
    } else {
        assert(dto_set(v@) =~= dto_set(v@).insert(s@));
    }
}

/// Takes every entry equal to `s` out of a list.
fn remove_starter(v: &mut Vec<StarterDto>, s: &StarterDto)
    requires
        no_repeats(old(v)@),
    ensures
        dto_set(final(v)@) == dto_set(old(v)@).remove(s@),
        no_repeats(final(v)@),
{
    let ghost ov = v@.map_values(|d: StarterDto| d@);
    let mut kept: Vec<StarterDto> = Vec::new();
    let mut i: usize = 0;
    while i < v.len()
        invariant
            ov == v@.map_values(|d: StarterDto| d@),
            i <= v@.len(),
            dto_set(kept@) == ov.take(i as int).to_set().remove(s@),
            ov.no_duplicates(),
            no_repeats(kept@),
        decreases v@.len() - i,
    {
        let ghost before = kept@;
        assert(ov.take(i + 1) =~= ov.take(i as int).push(ov[i as int]));
        proof {
            ov.take(i as int).lemma_push_to_set_commute(ov[i as int]);
        }
        if !v[i].same_as(s) {
            proof {
                assert(!ov.take(i as int).contains(ov[i as int])) by {
                    if ov.take(i as int).contains(ov[i as int]) {
                        let j = choose|j: int| 0 <= j < i && ov.take(i as int)[j] == ov[i as int];
                        assert(ov[j] == ov[i as int]);
                    }
                }
                assert(!before.map_values(|d: StarterDto| d@).contains(ov[i as int])) by {
                    if before.map_values(|d: StarterDto| d@).contains(ov[i as int]) {
                        assert(dto_set(before).contains(ov[i as int]));
                    }
                }
                lemma_push_new(before.map_values(|d: StarterDto| d@), ov[i as int]);
            }
            kept.push(v[i].duplicate());
            assert(kept@.map_values(|d: StarterDto| d@) =~= before.map_values(|d: StarterDto| d@).push(ov[i as int]));
            proof {
                before.map_values(|d: StarterDto| d@).lemma_push_to_set_commute(ov[i as int]);
            }
            assert(dto_set(kept@) =~= ov.take(i + 1).to_set().remove(s@));
        } else {
            assert(dto_set(kept@) =~= ov.take(i + 1).to_set().remove(s@));
        }
        i = i + 1;
    }
    assert(ov.take(v@.len() as int) =~= ov);
    *v = kept;
}

/// The sample starter number `i`: named by its number, offering tokio and
/// dotenv.
pub open spec fn mock_starter(i: nat) -> StarterDtoView {
    StarterDtoView {
        name: decimal_text(i),
        crates: seq!["tokio"@, "dotenv"@],
        description: "Some description"@,
    }
}

/// The sixteen sample starters, numbered 0 to 15.
pub open spec fn mock_starters() -> Set<StarterDtoView> {
    Set::new(|d: StarterDtoView| exists|i: nat| i < 16 && d == mock_starter(i))
}

/// Sample data for running without a back end: sixteen starters, all
/// offered, none chosen.
pub fn get_mock_starters() -> (r: StartersState)
    ensures
        r.all() == mock_starters(),
        r.unselected() == mock_starters(),
        r.selected() == Set::<StarterDtoView>::empty(),
        r.partitioned(),
{
    let mut all: Vec<StarterDto> = Vec::new();
    let mut i: usize = 0;
    while i <= 15
        invariant
            i <= 16,
            all@.map_values(|d: StarterDto| d@) == Seq::new(i as nat, |j: int| mock_starter(j as nat)),
        decreases 16 - i,
    {
        let mut crates: Vec<String> = Vec::new();
        crates.push("tokio".to_owned());
        crates.push("dotenv".to_owned());
        let starter = StarterDto { name: decimal_string(i), crates, description: "Some description".to_owned() };
        assert(starter@.crates =~= seq!["tokio"@, "dotenv"@]);
        let ghost before = all@;
        assert(starter@ == mock_starter(i as nat));
        all.push(starter);
        assert(all@.map_values(|d: StarterDto| d@) =~= before.map_values(|d: StarterDto| d@).push(mock_starter(i as nat)));
        assert(all@.map_values(|d: StarterDto| d@) =~= Seq::new((i + 1) as nat, |j: int| mock_starter(j as nat)));
        i = i + 1;
    }
    let ghost seq16 = Seq::new(16, |j: int| mock_starter(j as nat));
    assert(all@.map_values(|d: StarterDto| d@) =~= seq16);
    assert(seq16.to_set() =~= mock_starters()) by {
        assert forall|d: StarterDtoView| mock_starters().contains(d) implies seq16.to_set().contains(d) by {
            let i = choose|i: nat| i < 16 && d == mock_starter(i);
            assert(seq16[i as int] == d);
        }
    }
    StartersState::offering(all)
}

} // verus!
