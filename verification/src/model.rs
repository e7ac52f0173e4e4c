//! The record store: a schema version and the saved commands.

use crate::command_map::{pair_names, pair_views, pairs_map, CommandMap};
use crate::name_order::ascending;
use vstd::prelude::*;

verus! {

/// The schema version written into every freshly made store.
pub const CURRENT_VERSION: u8 = 1;

/// Everything that is kept on disk.
pub struct FileJson {
    pub version: u8,
    pub commands: CommandMap,
}

/// What a store holds: its version and the text saved under each alias.
pub struct StoreModel {
    pub version: u8,
    pub commands: Map<Seq<char>, Seq<char>>,
}

impl View for FileJson {
    type V = StoreModel;

    open spec fn view(&self) -> StoreModel {
        StoreModel { version: self.version, commands: self.commands@ }
    }
}

impl FileJson {
    /// The store that stands for a file that does not exist yet.
    pub fn new() -> (s: Self)
        ensures
            s@.version == CURRENT_VERSION,
            s@.commands == Map::<Seq<char>, Seq<char>>::empty(),
    {
        FileJson { version: CURRENT_VERSION, commands: CommandMap::new() }
    }

    /// The store as plain values: its version, and each alias with its
    /// text, in ascending order of the aliases.
    pub fn to_pairs(&self) -> (r: (u8, Vec<(String, String)>))
        ensures
            r.0 == self@.version,
            ascending(pair_names(pair_views(r.1@))),
            pairs_map(pair_views(r.1@)) == self@.commands,
            r.1@.len() == self@.commands.dom().len(),
    {
        (self.version, self.commands.pairs())
    }

    /// The store with this version in which the pairs were saved one after
    /// the other.
    pub fn from_pairs(version: u8, pairs: &Vec<(String, String)>) -> (s: Self)
        ensures
            s@.version == version,
            s@.commands == pairs_map(pair_views(pairs@)),
    {
        FileJson { version, commands: CommandMap::from_pairs(pairs) }
    }

    /// A store that holds what this one holds, taken apart into plain
    /// values and put together again.
    pub fn duplicate(&self) -> (s: Self)
        ensures
            s@ == self@,
    {
        let (version, pairs) = self.to_pairs();
        FileJson::from_pairs(version, &pairs)
    }
}

/// A store that is put together from the plain values into which another
/// was taken apart holds the same version and the same commands.
pub proof fn lemma_pairs_round_trip(
    store: StoreModel,
    version: u8,
    pairs: Seq<(Seq<char>, Seq<char>)>,
    rebuilt: StoreModel,
)
    requires
        version == store.version,
        pairs_map(pairs) == store.commands,
        rebuilt.version == version,
        rebuilt.commands == pairs_map(pairs),
    ensures
        rebuilt == store,
{
}

} // verus!
