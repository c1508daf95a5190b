//! A repository of starters by name, filled from the starters read from the
//! content folder.

use vstd::prelude::*;
use crate::starter::{Starter, StarterView};
use crate::storage::{
    names_distinct, starter_views, starters_by_name, InMemoryStorage, MapStorage, MapStorageError, StarterFileError,
};

verus! {

/// Why a lookup in the repository failed.
#[derive(Debug)]
pub enum ProjectGeneratingServiceError {
    /// No starter has this name.
    CannotFindStarter(String),
}

/// A source of starters for a repository to load, such as the starter
/// files of the content folder.
pub trait StartersSupplier {
    /// The starters the source provides.
    fn init_starters(&self) -> Result<Vec<Starter>, StarterFileError>;
}

/// Reads a starter's manifest text by the starter's name.
pub trait StarterReaderSync {
    /// The manifest text of the starter of that name.
    fn read_starter_content<N: Into<String>>(starter_name: N) -> Result<String, StarterFileError>;
}

/// A repository of starters by name.
pub trait StarterRepository {
    /// The starters held, by name.
    spec fn held(&self) -> Map<Seq<char>, StarterView>;

    /// Puts the starters in, in order: each replaces the one of its name.
    fn load_starters(&mut self, starters: Vec<Starter>)
        ensures
            final(self).held() == old(self).held().union_prefer_right(starters_by_name(starter_views(starters@))),
    ;

    /// All starters held, each once.
    fn get_starters(&self) -> (r: Vec<Starter>)
        ensures
            names_distinct(starter_views(r@)),
            starters_by_name(starter_views(r@)) == self.held(),
    ;

    /// The starter of that name; `CannotFindStarter` with the name where
    /// there is none.
    fn get_starter_by_name(&self, name: &str) -> (r: Result<Starter, ProjectGeneratingServiceError>)
        ensures
            match r {
                Ok(s) => self.held().contains_key(name@) && s@ == self.held()[name@],
                Err(ProjectGeneratingServiceError::CannotFindStarter(n)) => !self.held().contains_key(name@) && n@ == name@,
            },
    ;
}

impl StarterRepository for InMemoryStorage {
    open spec fn held(&self) -> Map<Seq<char>, StarterView> {
        self.stored()
    }

    fn load_starters(&mut self, starters: Vec<Starter>) {
        let ghost all = starter_views(starters@);
        let ghost before = self.stored();
        let mut i: usize = 0;
        assert(before.union_prefer_right(starters_by_name(all.take(0))) =~= before);
        while i < starters.len()
            invariant
                all == starter_views(starters@),
                i <= starters@.len(),
                self.stored() == before.union_prefer_right(starters_by_name(all.take(i as int))),
            decreases starters@.len() - i,
        {
            let s = starters[i].duplicate();
            assert(all.take(i + 1).drop_last() =~= all.take(i as int));
            assert(all.take(i + 1).last() == s@);
            self.add(s);
            assert(self.stored() =~= before.union_prefer_right(starters_by_name(all.take(i + 1))));
            i = i + 1;
        }
        assert(all.take(starters@.len() as int) =~= all);
    }

    fn get_starters(&self) -> (r: Vec<Starter>) {
        match self.get_all_starters() {
            Ok(v) => v,
            Err(_) => Vec::new(),
        }
    }

    fn get_starter_by_name(&self, name: &str) -> (r: Result<Starter, ProjectGeneratingServiceError>) {
        match MapStorage::get_starter_by_name(self, name) {
            Ok(s) => Ok(s),
            Err(MapStorageError::KeyNotFound(n)) => Err(ProjectGeneratingServiceError::CannotFindStarter(n)),
            Err(_) => Err(ProjectGeneratingServiceError::CannotFindStarter(name.to_owned())),
        }
    }
}

} // verus!
