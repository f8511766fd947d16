//! What a device answers to an action: named string values.

use crate::text::same_text;
use vstd::prelude::*;

verus! {

/// One answered argument: its name and its value.
pub type Entry = (Seq<char>, Seq<char>);

/// The value answered under `name`, if any.
pub open spec fn value_of(entries: Seq<Entry>, name: Seq<char>) -> Option<Seq<char>>
    decreases entries.len(),
{
    if entries.len() == 0 {
        None
    } else if entries.first().0 == name {
        Some(entries.first().1)
    } else {
        value_of(entries.drop_first(), name)
    }
}

/// No name occurs twice.
pub open spec fn names_distinct(entries: Seq<Entry>) -> bool {
    forall|i: int, j: int|
        0 <= i < j < entries.len() ==> (#[trigger] entries[i]).0 != (#[trigger] entries[j]).0
}

/// The position of `name` among the entries, or their number if it is not
/// among them.
pub open spec fn position_of(entries: Seq<Entry>, name: Seq<char>) -> int
    decreases entries.len(),
{
    if entries.len() == 0 {
        0
    } else if entries.first().0 == name {
        0
    } else {
        1 + position_of(entries.drop_first(), name)
    }
}

/// The entries after `name` was given `value`: a name already present keeps
/// its place and takes the new value, a new name goes to the end.
pub open spec fn inserted(entries: Seq<Entry>, name: Seq<char>, value: Seq<char>) -> Seq<Entry> {
    let at = position_of(entries, name);
    if at < entries.len() {
        entries.update(at, (name, value))
    } else {
        entries.push((name, value))
    }
}

/// The entries that result from inserting the first `n` of `pairs` in order.
pub open spec fn collected(pairs: Seq<Entry>, n: nat) -> Seq<Entry>
    decreases n,
{
    if n == 0 || n > pairs.len() {
        Seq::empty()
    } else {
        inserted(collected(pairs, (n - 1) as nat), pairs[n - 1].0, pairs[n - 1].1)
    }
}

/// Where a name stands, and what `value_of` returns for it.
pub proof fn lemma_position_of(entries: Seq<Entry>, name: Seq<char>)
    ensures
        0 <= position_of(entries, name) <= entries.len(),
        forall|i: int| 0 <= i < position_of(entries, name) ==> (#[trigger] entries[i]).0 != name,
        position_of(entries, name) < entries.len() ==> entries[position_of(entries, name)].0
            == name && value_of(entries, name) == Some(entries[position_of(entries, name)].1),
        position_of(entries, name) == entries.len() ==> value_of(entries, name) is None,
    decreases entries.len(),
{
    if entries.len() > 0 && entries.first().0 != name {
        let rest = entries.drop_first();
        lemma_position_of(rest, name);
        assert forall|i: int| 0 <= i < position_of(entries, name) implies (#[trigger] entries[i]).0
            != name by {
            if i > 0 {
                assert(entries[i] == rest[i - 1]);
            }
        }
        if position_of(rest, name) < rest.len() {
            assert(entries[position_of(entries, name)] == rest[position_of(rest, name)]);
        }
    }
}

/// Inserting keeps the names distinct, stores the value, and leaves every
/// other name's value as it was.
pub proof fn lemma_inserted(entries: Seq<Entry>, name: Seq<char>, value: Seq<char>)
    requires
        names_distinct(entries),
    ensures
        names_distinct(inserted(entries, name, value)),
        value_of(inserted(entries, name, value), name) == Some(value),
        forall|other: Seq<char>|
            other != name ==> #[trigger] value_of(inserted(entries, name, value), other)
                == value_of(entries, other),
{
    let after = inserted(entries, name, value);
    let at = position_of(entries, name);
    lemma_position_of(entries, name);
    assert(names_distinct(after)) by {
        assert forall|i: int, j: int| 0 <= i < j < after.len() implies (#[trigger] after[i]).0 != (
        #[trigger] after[j]).0 by {
            if at < entries.len() {
                assert(after[i].0 == entries[i].0);
                assert(after[j].0 == entries[j].0);
            } else if j == entries.len() {
                assert(after[i] == entries[i]);
            } else {
                assert(after[i] == entries[i]);
                assert(after[j] == entries[j]);
            }
        }
    }
    lemma_position_of(after, name);
    assert(position_of(after, name) == at) by {
        if position_of(after, name) < at {
            assert(after[position_of(after, name)].0 == entries[position_of(after, name)].0);
        }
        assert(after[at].0 == name);
    }
    assert forall|other: Seq<char>| other != name implies #[trigger] value_of(after, other)
        == value_of(entries, other) by {
        lemma_position_of(entries, other);
        lemma_position_of(after, other);
        let p = position_of(entries, other);
        let q = position_of(after, other);
        if p < entries.len() {
            assert(after[p] == entries[p]);
            if q < p {
                assert(after[q].0 == entries[q].0);
            }
            assert(q == p);
        } else {
            if q < after.len() {
                if q < entries.len() {
                    assert(after[q].0 == entries[q].0);
                } else {
                    assert(after[q].0 == name);
                }
            }
        }
    }
}

/// The answer of a device to one action: the values of the answered
/// arguments by name, in the order in which the names first came. An empty
/// response is a valid answer and means that the device told nothing.
#[derive(Debug, PartialEq, Eq)]
pub struct ActionResponse {
    entries: Vec<(String, String)>,
}

impl View for ActionResponse {
    type V = Seq<Entry>;

    closed spec fn view(&self) -> Seq<Entry> {
        self.entries@.map_values(|e: (String, String)| (e.0@, e.1@))
    }
}

impl Clone for ActionResponse {
    fn clone(&self) -> (out: Self)
        ensures
            out@ == self@,
    {
        proof {
            use_type_invariant(self);
        }
        let mut entries: Vec<(String, String)> = Vec::new();
        let mut i: usize = 0;
        while i < self.entries.len()
            invariant
                0 <= i <= self.entries.len(),
                entries@.len() == i,
                forall|j: int| 0 <= j < i ==> entries@[j] == self.entries@[j],
            decreases self.entries.len() - i,
        {
            entries.push((self.entries[i].0.clone(), self.entries[i].1.clone()));
            i += 1;
        }
        assert(entries@ =~= self.entries@);
        ActionResponse { entries }
    }
}

impl ActionResponse {
    #[verifier::type_invariant]
    spec fn well_formed(&self) -> bool {
        names_distinct(self@)
    }

    /// The response that tells nothing.
    pub fn new() -> (out: ActionResponse)
        ensures
            out@ == Seq::<Entry>::empty(),
    {
        let out = ActionResponse { entries: Vec::new() };
        assert(out@ =~= Seq::<Entry>::empty());
        out
    }

    /// The number of answered arguments. No name is counted twice.
    pub fn len(&self) -> (n: usize)
        ensures
            n == self@.len(),
            names_distinct(self@),
    {
        proof {
            use_type_invariant(self);
        }
        self.entries.len()
    }

    /// Whether the device told nothing.
    pub fn is_empty(&self) -> (empty: bool)
        ensures
            empty == (self@.len() == 0),
    {
        self.entries.len() == 0
    }

    /// The value answered under `name`.
    pub fn get(&self, name: &str) -> (value: Option<&String>)
        ensures
            value is Some <==> value_of(self@, name@) is Some,
            value matches Some(v) ==> value_of(self@, name@) == Some(v@),
    {
        let mut i: usize = 0;
        while i < self.entries.len()
            invariant
                0 <= i <= self.entries.len(),
                forall|j: int| 0 <= j < i ==> (#[trigger] self@[j]).0 != name@,
            decreases self.entries.len() - i,
        {
            if same_text(self.entries[i].0.as_str(), name) {
                proof {
                    lemma_position_of(self@, name@);
                    assert(self@[i as int].0 == name@);
                }
                return Some(&self.entries[i].1);
            }
            i += 1;
        }
        proof {
            lemma_position_of(self@, name@);
            if position_of(self@, name@) < self@.len() {
                assert(self@[position_of(self@, name@)].0 == name@);
            }
        }
        None
    }

    /// Whether a value was answered under `name`.
    pub fn contains_key(&self, name: &str) -> (present: bool)
        ensures
            present == value_of(self@, name@).is_some(),
    {
        self.get(name).is_some()
    }

    /// Gives `name` the value `value`. A name already present keeps its
    /// place and takes the new value; a new name goes to the end.
    pub fn insert(&mut self, name: String, value: String)
        ensures
            final(self)@ == inserted(old(self)@, name@, value@),
    {
        proof {
            use_type_invariant(&*self);
            lemma_inserted(self@, name@, value@);
            lemma_position_of(self@, name@);
        }
        let mut taken = ActionResponse::new();
        std::mem::swap(self, &mut taken);
        let mut entries = taken.entries;
        let ghost before = entries@.map_values(|e: (String, String)| (e.0@, e.1@));
        assert(before == old(self)@);
        let mut i: usize = 0;
        let mut found: bool = false;
        while i < entries.len() && !found
            invariant
                0 <= i <= entries.len(),
                before == entries@.map_values(|e: (String, String)| (e.0@, e.1@)),
                forall|j: int| 0 <= j < i ==> (#[trigger] before[j]).0 != name@,
                found ==> i < entries.len() && before[i as int].0 == name@,
            decreases entries.len() - i, if found { 0int } else { 1int },
        {
            if same_text(entries[i].0.as_str(), name.as_str()) {
                found = true;
            } else {
                i += 1;
            }
        }
        proof {
            if position_of(before, name@) < before.len() {
                assert(before[position_of(before, name@)].0 == name@);
            }
            assert(position_of(before, name@) == i);
        }
        if found {
            entries.set(i, (name, value));
        } else {
            entries.push((name, value));
        }
        assert(entries@.map_values(|e: (String, String)| (e.0@, e.1@)) =~= inserted(
            before,
            name@,
            value@,
        ));
        *self = ActionResponse { entries };
    }

    /// The response made of `pairs`, inserted one after the other: of two
    /// pairs with one name the later one's value stays.
    pub fn from_pairs(pairs: Vec<(String, String)>) -> (out: ActionResponse)
        ensures
            out@ == collected(
                pairs@.map_values(|e: (String, String)| (e.0@, e.1@)),
                pairs@.len(),
            ),
    {
        let ghost all = pairs@.map_values(|e: (String, String)| (e.0@, e.1@));
        let mut out = ActionResponse::new();
        for pair in it: pairs.into_iter()
            invariant
                it.seq() == pairs@,
                all == pairs@.map_values(|e: (String, String)| (e.0@, e.1@)),
                out@ == collected(all, it.index() as nat),
        {
            proof {
                assert(all[it.index()] == (pair.0@, pair.1@));
            }
            out.insert(pair.0, pair.1);
        }
        out
    }
}

} // verus!
