//! A map from alias names to command texts, kept as a vector of entries in
//! ascending order of their names.

use crate::name_order::{
    ascending, lemma_precedes_irreflexive, lemma_precedes_transitive, order_names, precedes,
    NameOrder,
};
use vstd::prelude::*;

verus! {

/// One alias with the command text saved under it.
pub struct Entry {
    pub name: String,
    pub text: String,
}

/// The names of the entries, in the order in which they are held.
pub open spec fn entry_names(s: Seq<Entry>) -> Seq<Seq<char>> {
    Seq::new(s.len(), |i: int| s[i].name@)
}

/// Some entry of `s` carries the name `k`.
pub open spec fn holds(s: Seq<Entry>, k: Seq<char>) -> bool {
    exists|i: int| 0 <= i < s.len() && s[i].name@ == k
}

/// The position of an entry of `s` that carries the name `k`.
pub open spec fn slot(s: Seq<Entry>, k: Seq<char>) -> int {
    choose|i: int| 0 <= i < s.len() && s[i].name@ == k
}

/// The mapping that a sequence of entries stands for.
pub open spec fn entries_map(s: Seq<Entry>) -> Map<Seq<char>, Seq<char>> {
    Map::new(|k: Seq<char>| holds(s, k), |k: Seq<char>| s[slot(s, k)].text@)
}

/// The views of a vector of strings.
pub open spec fn views_of(v: Seq<String>) -> Seq<Seq<char>> {
    Seq::new(v.len(), |i: int| v[i]@)
}

/// The views of a vector of pairs of strings.
pub open spec fn pair_views(v: Seq<(String, String)>) -> Seq<(Seq<char>, Seq<char>)> {
    Seq::new(v.len(), |i: int| (v[i].0@, v[i].1@))
}

/// The names of a sequence of pairs.
pub open spec fn pair_names(pairs: Seq<(Seq<char>, Seq<char>)>) -> Seq<Seq<char>> {
    Seq::new(pairs.len(), |i: int| pairs[i].0)
}

/// The mapping that comes of saving the pairs one after the other: of two
/// pairs with one name the later one stays.
pub open spec fn pairs_map(pairs: Seq<(Seq<char>, Seq<char>)>) -> Map<Seq<char>, Seq<char>>
    decreases pairs.len(),
{
    if pairs.len() == 0 {
        Map::empty()
    } else {
        pairs_map(pairs.drop_last()).insert(pairs.last().0, pairs.last().1)
    }
}

/// In an ascending sequence each name is found at its own position only.
proof fn lemma_slot(s: Seq<Entry>, i: int)
    requires
        ascending(entry_names(s)),
        0 <= i < s.len(),
    ensures
        holds(s, s[i].name@),
        slot(s, s[i].name@) == i,
        entries_map(s).dom().contains(s[i].name@),
        entries_map(s)[s[i].name@] == s[i].text@,
{
    let k = s[i].name@;
    let j = slot(s, k);
    assert(0 <= j < s.len() && s[j].name@ == k);
    if j < i {
        assert(precedes(entry_names(s)[j], entry_names(s)[i]));
        lemma_precedes_irreflexive(k);
    } else if i < j {
        assert(precedes(entry_names(s)[i], entry_names(s)[j]));
        lemma_precedes_irreflexive(k);
    }
}

/// A name that falls strictly between two neighbours of an ascending
/// sequence is carried by no entry.
proof fn lemma_absent(s: Seq<Entry>, k: Seq<char>, pos: int)
    requires
        ascending(entry_names(s)),
        0 <= pos <= s.len(),
        forall|j: int| 0 <= j < pos ==> precedes(#[trigger] s[j].name@, k),
        pos == s.len() || precedes(k, s[pos].name@),
    ensures
        !holds(s, k),
        !entries_map(s).dom().contains(k),
{
    if holds(s, k) {
        let i = slot(s, k);
        if i < pos {
            assert(precedes(s[i].name@, k));
        } else if i == pos {
        } else {
            assert(precedes(entry_names(s)[pos], entry_names(s)[i]));
            lemma_precedes_transitive(k, s[pos].name@, k);
        }
        lemma_precedes_irreflexive(k);
    }
}

/// Putting a new name at its place keeps the order and adds one pair.
proof fn lemma_insert_new(s: Seq<Entry>, e: Entry, pos: int)
    requires
        ascending(entry_names(s)),
        0 <= pos <= s.len(),
        forall|j: int| 0 <= j < pos ==> precedes(#[trigger] s[j].name@, e.name@),
        pos == s.len() || precedes(e.name@, s[pos].name@),
    ensures
        ascending(entry_names(s.insert(pos, e))),
        entries_map(s.insert(pos, e)) == entries_map(s).insert(e.name@, e.text@),
{
    let t = s.insert(pos, e);
    let k = e.name@;
    assert forall|i: int, j: int| 0 <= i < j < t.len() implies precedes(
        entry_names(t)[i],
        entry_names(t)[j],
    ) by {
        if j < pos {
            assert(precedes(entry_names(s)[i], entry_names(s)[j]));
        } else if j == pos {
            assert(precedes(s[i].name@, k));
        } else if i < pos {
            assert(precedes(entry_names(s)[i], entry_names(s)[j - 1]));
        } else if i == pos {
            if j - 1 > pos {
                assert(precedes(entry_names(s)[pos], entry_names(s)[j - 1]));
                lemma_precedes_transitive(k, s[pos].name@, s[j - 1].name@);
            }
        } else {
            assert(precedes(entry_names(s)[i - 1], entry_names(s)[j - 1]));
        }
    }
    let m = entries_map(s).insert(k, e.text@);
    assert forall|q: Seq<char>| #[trigger] entries_map(t).dom().contains(q) implies m.dom().contains(q) by {
        let i = slot(t, q);
        if i < pos {
            assert(s[i].name@ == q);
        } else if i > pos {
            assert(s[i - 1].name@ == q);
        }
    }
    assert forall|q: Seq<char>| #[trigger] m.dom().contains(q) implies entries_map(t).dom().contains(q)
        && entries_map(t)[q] == m[q] by {
        if q == k {
            assert(t[pos] == e);
            lemma_slot(t, pos);
        } else {
            let i = slot(s, q);
            let i2 = if i < pos { i } else { i + 1 };
            assert(t[i2] == s[i]);
            lemma_slot(t, i2);
            lemma_slot(s, i);
        }
    }
    assert(entries_map(t) =~= m);
}

/// Replacing the text of an entry keeps the order and changes one pair.
proof fn lemma_overwrite(s: Seq<Entry>, e: Entry, pos: int)
    requires
        ascending(entry_names(s)),
        0 <= pos < s.len(),
        s[pos].name@ == e.name@,
    ensures
        ascending(entry_names(s.update(pos, e))),
        entries_map(s.update(pos, e)) == entries_map(s).insert(e.name@, e.text@),
{
    let t = s.update(pos, e);
    let k = e.name@;
    assert(entry_names(t) =~= entry_names(s));
    let m = entries_map(s).insert(k, e.text@);
    assert forall|q: Seq<char>| #[trigger] entries_map(t).dom().contains(q) implies m.dom().contains(q) by {
        let i = slot(t, q);
        assert(s[i].name@ == q);
    }
    assert forall|q: Seq<char>| #[trigger] m.dom().contains(q) implies entries_map(t).dom().contains(q)
        && entries_map(t)[q] == m[q] by {
        if q == k {
            lemma_slot(t, pos);
        } else {
            let i = slot(s, q);
            assert(t[i] == s[i]);
            lemma_slot(t, i);
            lemma_slot(s, i);
        }
    }
    assert(entries_map(t) =~= m);
}

/// Taking an entry out keeps the order and removes its pair.
proof fn lemma_take_out(s: Seq<Entry>, pos: int)
    requires
        ascending(entry_names(s)),
        0 <= pos < s.len(),
    ensures
        ascending(entry_names(s.remove(pos))),
        entries_map(s.remove(pos)) == entries_map(s).remove(s[pos].name@),
{
    let t = s.remove(pos);
    let k = s[pos].name@;
    assert forall|i: int, j: int| 0 <= i < j < t.len() implies precedes(
        entry_names(t)[i],
        entry_names(t)[j],
    ) by {
        let i2 = if i < pos { i } else { i + 1 };
        let j2 = if j < pos { j } else { j + 1 };
        assert(precedes(entry_names(s)[i2], entry_names(s)[j2]));
    }
    let m = entries_map(s).remove(k);
    assert forall|q: Seq<char>| #[trigger] entries_map(t).dom().contains(q) implies m.dom().contains(q) by {
        let i = slot(t, q);
        let i2 = if i < pos { i } else { i + 1 };
        assert(s[i2].name@ == q);
        lemma_slot(s, i2);
        lemma_slot(s, pos);
    }
    assert forall|q: Seq<char>| #[trigger] m.dom().contains(q) implies entries_map(t).dom().contains(q)
        && entries_map(t)[q] == m[q] by {
        let i = slot(s, q);
        let i2 = if i < pos { i } else { i - 1 };
        assert(t[i2] == s[i]);
        lemma_slot(t, i2);
        lemma_slot(s, i);
    }
    assert(entries_map(t) =~= m);
}

/// The place of `name` among ascending entries: the position of the entry
/// that carries it, or else the position at which it would be put.
fn find(entries: &Vec<Entry>, name: &str) -> (r: (usize, bool))
    requires
        ascending(entry_names(entries@)),
    ensures
        r.0 <= entries@.len(),
        forall|j: int| 0 <= j < r.0 ==> precedes(#[trigger] entries@[j].name@, name@),
        r.1 ==> r.0 < entries@.len() && entries@[r.0 as int].name@ == name@,
        !r.1 ==> r.0 == entries@.len() || precedes(name@, entries@[r.0 as int].name@),
        r.1 == entries_map(entries@).dom().contains(name@),
{
    let mut i: usize = 0;
    while i < entries.len()
        invariant
            i <= entries@.len(),
            ascending(entry_names(entries@)),
            forall|j: int| 0 <= j < i ==> precedes(#[trigger] entries@[j].name@, name@),
        decreases entries@.len() - i,
    {
        match order_names(entries[i].name.as_str(), name) {
            NameOrder::Before => {
                i += 1;
            },
            NameOrder::Same => {
                proof {
                    lemma_slot(entries@, i as int);
                }
                return (i, true);
            },
            NameOrder::After => {
                proof {
                    lemma_absent(entries@, name@, i as int);
                }
                return (i, false);
            },
        }
    }
    proof {
        lemma_absent(entries@, name@, i as int);
    }
    (i, false)
}

/// A map from alias names to command texts in which no name occurs twice.
pub struct CommandMap {
    entries: Vec<Entry>,
}

impl View for CommandMap {
    type V = Map<Seq<char>, Seq<char>>;

    closed spec fn view(&self) -> Map<Seq<char>, Seq<char>> {
        entries_map(self.entries@)
    }
}

impl CommandMap {
    #[verifier::type_invariant]
    spec fn in_order(&self) -> bool {
        ascending(entry_names(self.entries@))
    }

    /// A map without entries.
    pub fn new() -> (m: Self)
        ensures
            m@ == Map::<Seq<char>, Seq<char>>::empty(),
    {
        let m = CommandMap { entries: Vec::new() };
        assert(m@ =~= Map::<Seq<char>, Seq<char>>::empty());
        m
    }

    /// Puts `text` under `name`, in place of what stood there.
    pub fn insert(&mut self, name: &str, text: &str)
        ensures
            final(self)@ == old(self)@.insert(name@, text@),
    {
        proof {
            use_type_invariant(&*self);
        }
        let mut entries: Vec<Entry> = Vec::new();
        std::mem::swap(&mut entries, &mut self.entries);
        let (pos, found) = find(&entries, name);
        let e = Entry { name: name.to_owned(), text: text.to_owned() };
        if found {
            proof {
                lemma_overwrite(entries@, e, pos as int);
            }
            entries.set(pos, e);
        } else {
            proof {
                lemma_insert_new(entries@, e, pos as int);
            }
            entries.insert(pos, e);
        }
        self.entries = entries;
    }

    /// Takes `name` out and hands back the text that stood under it.
    pub fn remove(&mut self, name: &str) -> (r: Option<String>)
        ensures
            old(self)@.dom().contains(name@) ==> r.is_some() && r.unwrap()@ == old(self)@[name@],
            !old(self)@.dom().contains(name@) ==> r.is_none(),
            final(self)@ == old(self)@.remove(name@),
            r.is_none() ==> final(self)@ == old(self)@,
    {
        proof {
            use_type_invariant(&*self);
        }
        let (pos, found) = find(&self.entries, name);
        if !found {
            assert(self@.remove(name@) =~= self@);
            return None;
        }
        let mut entries: Vec<Entry> = Vec::new();
        std::mem::swap(&mut entries, &mut self.entries);
        proof {
            lemma_take_out(entries@, pos as int);
            lemma_slot(entries@, pos as int);
        }
        let e = entries.remove(pos);
        self.entries = entries;
        Some(e.text)
    }

    /// The text that stands under `name`.
    pub fn get(&self, name: &str) -> (r: Option<&str>)
        ensures
            self@.dom().contains(name@) ==> r.is_some() && r.unwrap()@ == self@[name@],
            !self@.dom().contains(name@) ==> r.is_none(),
    {
        proof {
            use_type_invariant(self);
        }
        let (pos, found) = find(&self.entries, name);
        if found {
            proof {
                lemma_slot(self.entries@, pos as int);
            }
            Some(self.entries[pos].text.as_str())
        } else {
            None
        }
    }

    /// Whether anything stands under `name`.
    pub fn contains_key(&self, name: &str) -> (r: bool)
        ensures
            r == self@.dom().contains(name@),
    {
        proof {
            use_type_invariant(self);
        }
        let (_pos, found) = find(&self.entries, name);
        found
    }

    /// The number of names.
    pub fn len(&self) -> (n: usize)
        ensures
            n == self@.dom().len(),
            self@.dom().finite(),
    {
        proof {
            use_type_invariant(self);
            lemma_domain_size(self.entries@);
        }
        self.entries.len()
    }

    /// All pairs of a name and its text, in ascending order of the names.
    pub fn pairs(&self) -> (v: Vec<(String, String)>)
        ensures
            ascending(pair_names(pair_views(v@))),
            pairs_map(pair_views(v@)) == self@,
            v@.len() == self@.dom().len(),
    {
        proof {
            use_type_invariant(self);
            lemma_domain_size(self.entries@);
        }
        let mut v: Vec<(String, String)> = Vec::new();
        let mut i: usize = 0;
        proof {
            assert(entries_map(self.entries@.take(0)) =~= Map::<Seq<char>, Seq<char>>::empty());
        }
        while i < self.entries.len()
            invariant
                i <= self.entries@.len(),
                v@.len() == i,
                ascending(entry_names(self.entries@)),
                forall|j: int|
                    0 <= j < i ==> v@[j].0@ == self.entries@[j].name@ && v@[j].1@
                        == self.entries@[j].text@,
                pairs_map(pair_views(v@)) == entries_map(self.entries@.take(i as int)),
            decreases self.entries@.len() - i,
        {
            let name = self.entries[i].name.clone();
            let text = self.entries[i].text.clone();
            proof {
                let s = self.entries@;
                let head = s.take(i as int);
                assert forall|a: int, b: int| 0 <= a < b < head.len() implies precedes(
                    entry_names(head)[a],
                    entry_names(head)[b],
                ) by {
                    assert(precedes(entry_names(s)[a], entry_names(s)[b]));
                }
                assert forall|j: int| 0 <= j < i implies precedes(
                    #[trigger] head[j].name@,
                    s[i as int].name@,
                ) by {
                    assert(precedes(entry_names(s)[j], entry_names(s)[i as int]));
                }
                lemma_insert_new(head, s[i as int], i as int);
                assert(head.insert(i as int, s[i as int]) =~= s.take(i + 1));
                let next = pair_views(v@.push((name, text)));
                assert(next.drop_last() =~= pair_views(v@));
            }
            v.push((name, text));
            i += 1;
        }
        proof {
            assert(self.entries@.take(i as int) =~= self.entries@);
            assert(pair_names(pair_views(v@)) =~= entry_names(self.entries@));
        }
        v
    }

    /// The map that comes of saving the pairs one after the other.
    pub fn from_pairs(pairs: &Vec<(String, String)>) -> (m: Self)
        ensures
            m@ == pairs_map(pair_views(pairs@)),
    {
        let mut m = CommandMap::new();
        let mut i: usize = 0;
        while i < pairs.len()
            invariant
                i <= pairs@.len(),
                m@ == pairs_map(pair_views(pairs@).take(i as int)),
            decreases pairs@.len() - i,
        {
            proof {
                let next = pair_views(pairs@).take(i + 1);
                assert(next.drop_last() =~= pair_views(pairs@).take(i as int));
            }
            m.insert(pairs[i].0.as_str(), pairs[i].1.as_str());
            i += 1;
        }
        proof {
            assert(pair_views(pairs@).take(i as int) =~= pair_views(pairs@));
        }
        m
    }

    /// All names, each once, in ascending order.
    pub fn names(&self) -> (v: Vec<String>)
        ensures
            ascending(views_of(v@)),
            forall|k: Seq<char>| self@.dom().contains(k) <==> views_of(v@).contains(k),
            v@.len() == self@.dom().len(),
    {
        proof {
            use_type_invariant(self);
            lemma_domain_size(self.entries@);
        }
        let mut v: Vec<String> = Vec::new();
        let mut i: usize = 0;
        while i < self.entries.len()
            invariant
                i <= self.entries@.len(),
                v@.len() == i,
                forall|j: int| 0 <= j < i ==> v@[j]@ == self.entries@[j].name@,
            decreases self.entries@.len() - i,
        {
            v.push(self.entries[i].name.clone());
            i += 1;
        }
        proof {
            assert(views_of(v@) =~= entry_names(self.entries@));
            assert forall|k: Seq<char>| self@.dom().contains(k) <==> views_of(v@).contains(
                k,
            ) by {
                if self@.dom().contains(k) {
                    let j = slot(self.entries@, k);
                    assert(views_of(v@)[j] == k);
                }
                if views_of(v@).contains(k) {
                    let j = choose|j: int| 0 <= j < v@.len() && views_of(v@)[j] == k;
                    assert(self.entries@[j].name@ == k);
                }
            }
        }
        v
    }
}

/// An ascending sequence of entries stands for a finite mapping with as
/// many names as there are entries.
proof fn lemma_domain_size(s: Seq<Entry>)
    requires
        ascending(entry_names(s)),
    ensures
        entries_map(s).dom().finite(),
        entries_map(s).dom().len() == s.len(),
    decreases s.len(),
{
    if s.len() == 0 {
        assert(entries_map(s).dom() =~= Set::<Seq<char>>::empty());
    } else {
        let pos = s.len() - 1;
        lemma_take_out(s, pos);
        lemma_slot(s, pos);
        lemma_domain_size(s.remove(pos));
        let d = entries_map(s.remove(pos)).dom();
        assert(entries_map(s).dom() =~= d.insert(s[pos].name@));
    }
}

} // verus!
