//! Starters: named bundles of dependencies a project can be generated with.

use vstd::prelude::*;
use crate::text::{copy_string, copy_strings, texts};

verus! {

/// What the catalogue shows of a starter.
#[derive(Debug)]
pub struct StarterDto {
    pub name: String,
    pub crates: Vec<String>,
    pub description: String,
}

/// The value of a starter's catalogue entry.
pub struct StarterDtoView {
    pub name: Seq<char>,
    pub crates: Seq<Seq<char>>,
    pub description: Seq<char>,
}

impl View for StarterDto {
    type V = StarterDtoView;

    open spec fn view(&self) -> StarterDtoView {
        StarterDtoView { name: self.name@, crates: texts(self.crates@), description: self.description@ }
    }
}

impl StarterDto {
    /// A catalogue entry with these fields.
    pub fn new(name: String, creates: Vec<String>, common_description: String) -> (r: StarterDto)
        ensures
            r@ == (StarterDtoView { name: name@, crates: texts(creates@), description: common_description@ }),
    {
        StarterDto { name, crates: creates, description: common_description }
    }

    /// A copy with the same value.
    pub fn duplicate(&self) -> (r: StarterDto)
        ensures
            r@ == self@,
    {
        StarterDto {
            name: copy_string(&self.name),
            crates: copy_strings(&self.crates),
            description: copy_string(&self.description),
        }
    }

    /// Whether two entries have the same value.
    pub fn same_as(&self, other: &StarterDto) -> (r: bool)
        ensures
            r == (self@ == other@),
    {
        if !(self.name == other.name) || !(self.description == other.description) {
            return false;
        }
        if self.crates.len() != other.crates.len() {
            assert(texts(self.crates@).len() != texts(other.crates@).len());
            return false;
        }
        let mut i: usize = 0;
        while i < self.crates.len()
            invariant
                i <= self.crates@.len(),
                self.crates@.len() == other.crates@.len(),
                forall|j: int| 0 <= j < i ==> self.crates@[j]@ == other.crates@[j]@,
            decreases self.crates@.len() - i,
        {
            if !(self.crates[i] == other.crates[i]) {
                assert(texts(self.crates@)[i as int] != texts(other.crates@)[i as int]);
                return false;
            }
            i = i + 1;
        }
        assert(texts(self.crates@) =~= texts(other.crates@));
        true
    }
}

/// The manifest text of a starter, as read.
#[derive(Debug)]
pub struct RawStarter(pub String);

/// A starter: its catalogue entry and its manifest text.
#[derive(Debug)]
pub struct Starter {
    pub starter_dto: StarterDto,
    pub raw_starter: RawStarter,
}

/// The value of a starter.
pub struct StarterView {
    pub starter_dto: StarterDtoView,
    pub raw_starter: Seq<char>,
}

impl View for Starter {
    type V = StarterView;

    open spec fn view(&self) -> StarterView {
        StarterView { starter_dto: self.starter_dto@, raw_starter: self.raw_starter.0@ }
    }
}

impl Starter {
    /// A copy with the same value.
    pub fn duplicate(&self) -> (r: Starter)
        ensures
            r@ == self@,
    {
        Starter {
            starter_dto: self.starter_dto.duplicate(),
            raw_starter: RawStarter(copy_string(&self.raw_starter.0)),
        }
    }
}

} // verus!
