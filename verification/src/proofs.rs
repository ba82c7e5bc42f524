//! The store of registered claims: a finite map from claim bytes to the
//! owner and the block of the last write, kept as a list without repeated
//! claims.

use vstd::prelude::*;

use crate::types::{same_claim, AccountId, BlockNumber};

verus! {

/// One registered claim, its owner and the block of its last write.
#[derive(Debug)]
struct Entry {
    claim: Vec<u8>,
    owner: AccountId,
    block_number: BlockNumber,
}

/// The claim at place `i` of the list.
spec fn key(entries: Seq<Entry>, i: int) -> Seq<u8> {
    entries[i].claim@
}

/// The owner and block at place `i` of the list.
spec fn value(entries: Seq<Entry>, i: int) -> (AccountId, BlockNumber) {
    (entries[i].owner, entries[i].block_number)
}

/// Place `i` of the list holds `claim`.
spec fn at(entries: Seq<Entry>, claim: Seq<u8>, i: int) -> bool {
    0 <= i < entries.len() && key(entries, i) == claim
}

/// No claim occurs at two places of the list.
spec fn distinct(entries: Seq<Entry>) -> bool {
    forall|i: int, j: int|
        0 <= i < j < entries.len() ==> (#[trigger] key(entries, i)) != (#[trigger] key(entries, j))
}

/// The map that a list of entries stands for.
spec fn contents(entries: Seq<Entry>) -> Map<Seq<u8>, (AccountId, BlockNumber)> {
    Map::new(
        |claim: Seq<u8>| exists|i: int| at(entries, claim, i),
        |claim: Seq<u8>| value(entries, choose|i: int| at(entries, claim, i)),
    )
}

/// In a list without repeats, the entry at place `i` is what the map holds
/// for its claim.
proof fn lemma_entry(entries: Seq<Entry>, i: int)
    requires
        distinct(entries),
        0 <= i < entries.len(),
    ensures
        contents(entries).contains_key(key(entries, i)),
        contents(entries)[key(entries, i)] == value(entries, i),
{
    let claim = key(entries, i);
    assert(at(entries, claim, i));
    let j = choose|j: int| at(entries, claim, j);
    assert(i == j);
}

/// A claim that no place of the list holds is not a key of the map.
proof fn lemma_absent(entries: Seq<Entry>, claim: Seq<u8>)
    requires
        forall|i: int| 0 <= i < entries.len() ==> #[trigger] key(entries, i) != claim,
    ensures
        !contents(entries).contains_key(claim),
{
    assert forall|i: int| !at(entries, claim, i) by {}
}

/// A list without repeats stands for `map` when `map` holds every entry of
/// the list and nothing else.
proof fn lemma_stands_for(entries: Seq<Entry>, map: Map<Seq<u8>, (AccountId, BlockNumber)>)
    requires
        distinct(entries),
        forall|i: int|
            0 <= i < entries.len() ==> {
                &&& map.contains_key(#[trigger] key(entries, i))
                &&& map[key(entries, i)] == value(entries, i)
            },
        forall|claim: Seq<u8>| #[trigger]
            map.contains_key(claim) ==> exists|i: int| at(entries, claim, i),
    ensures
        contents(entries) == map,
{
    assert forall|claim: Seq<u8>| #[trigger] contents(entries).contains_key(claim) implies {
        &&& map.contains_key(claim)
        &&& map[claim] == contents(entries)[claim]
    } by {}
}

/// Two lists that agree place by place on claim, owner and block stand for
/// the same map, and the second has no repeats if the first has none.
proof fn lemma_copied(a: Seq<Entry>, b: Seq<Entry>)
    requires
        distinct(a),
        a.len() == b.len(),
        forall|i: int|
            0 <= i < a.len() ==> #[trigger] key(b, i) == key(a, i) && value(b, i) == value(a, i),
    ensures
        distinct(b),
        contents(b) == contents(a),
{
    assert forall|i: int| 0 <= i < b.len() implies {
        &&& contents(a).contains_key(#[trigger] key(b, i))
        &&& contents(a)[key(b, i)] == value(b, i)
    } by {
        lemma_entry(a, i);
    }
    assert forall|claim: Seq<u8>| #[trigger] contents(a).contains_key(claim) implies exists|
        i: int,
    | at(b, claim, i) by {
        let i = choose|i: int| at(a, claim, i);
        assert(at(b, claim, i));
    }
    lemma_stands_for(b, contents(a));
}

/// Writing a new owner and block at place `i`, under the claim that stood
/// there, keeps the list free of repeats and updates the map at that claim.
proof fn lemma_replaced(a: Seq<Entry>, b: Seq<Entry>, i: int)
    requires
        distinct(a),
        0 <= i < a.len(),
        b.len() == a.len(),
        key(b, i) == key(a, i),
        forall|j: int| 0 <= j < a.len() && j != i ==> #[trigger] b[j] == a[j],
    ensures
        distinct(b),
        contents(b) == contents(a).insert(key(b, i), value(b, i)),
{
    let after = contents(a).insert(key(b, i), value(b, i));
    assert forall|j: int| 0 <= j < b.len() implies key(b, j) == key(a, j) by {}
    assert forall|j: int| 0 <= j < b.len() implies {
        &&& after.contains_key(#[trigger] key(b, j))
        &&& after[key(b, j)] == value(b, j)
    } by {
        if j != i {
            lemma_entry(a, j);
        }
    }
    assert forall|claim: Seq<u8>| #[trigger] after.contains_key(claim) implies exists|j: int|
        at(b, claim, j) by {
        if claim == key(b, i) {
            assert(at(b, claim, i));
        } else {
            let j = choose|j: int| at(a, claim, j);
            assert(at(b, claim, j));
        }
    }
    lemma_stands_for(b, after);
}

/// Appending an entry whose claim the list does not hold keeps it free of
/// repeats and adds that claim to the map.
proof fn lemma_appended(a: Seq<Entry>, b: Seq<Entry>)
    requires
        distinct(a),
        b.len() == a.len() + 1,
        forall|j: int| 0 <= j < a.len() ==> #[trigger] b[j] == a[j],
        !contents(a).contains_key(key(b, a.len() as int)),
    ensures
        distinct(b),
        contents(b) == contents(a).insert(key(b, a.len() as int), value(b, a.len() as int)),
{
    let n = a.len() as int;
    let after = contents(a).insert(key(b, n), value(b, n));
    assert forall|j: int| 0 <= j < n implies key(b, j) == key(a, j) && key(b, j) != key(b, n) by {
        assert(at(a, key(a, j), j));
    }
    assert forall|j: int| 0 <= j < b.len() implies {
        &&& after.contains_key(#[trigger] key(b, j))
        &&& after[key(b, j)] == value(b, j)
    } by {
        if j < n {
            lemma_entry(a, j);
        }
    }
    assert forall|claim: Seq<u8>| #[trigger] after.contains_key(claim) implies exists|j: int|
        at(b, claim, j) by {
        if claim == key(b, n) {
            assert(at(b, claim, n));
        } else {
            let j = choose|j: int| at(a, claim, j);
            assert(at(b, claim, j));
        }
    }
    lemma_stands_for(b, after);
}

/// Taking the entry at place `i` out keeps the list free of repeats and
/// removes its claim from the map.
proof fn lemma_removed(a: Seq<Entry>, b: Seq<Entry>, i: int)
    requires
        distinct(a),
        0 <= i < a.len(),
        b == a.remove(i),
    ensures
        distinct(b),
        contents(b) == contents(a).remove(key(a, i)),
{
    let after = contents(a).remove(key(a, i));
    // place `j` of the shorter list was place `from(j)` of the longer one
    let from = |j: int| if j < i { j } else { j + 1 };
    assert forall|j: int| 0 <= j < b.len() implies b[j] == a[from(j)] && key(b, j) != key(a, i) by {
        if from(j) < i {
            assert(key(a, from(j)) != key(a, i));
        } else {
            assert(key(a, i) != key(a, from(j)));
        }
    }
    assert forall|j: int, k: int| 0 <= j < k < b.len() implies (#[trigger] key(b, j)) != (
    #[trigger] key(b, k)) by {
        assert(key(a, from(j)) != key(a, from(k)));
    }
    assert forall|j: int| 0 <= j < b.len() implies {
        &&& after.contains_key(#[trigger] key(b, j))
        &&& after[key(b, j)] == value(b, j)
    } by {
        lemma_entry(a, from(j));
    }
    assert forall|claim: Seq<u8>| #[trigger] after.contains_key(claim) implies exists|j: int|
        at(b, claim, j) by {
        let k = choose|k: int| at(a, claim, k);
        let j = if k < i { k } else { k - 1 };
        assert(at(b, claim, j));
    }
    lemma_stands_for(b, after);
}

/// The registered claims, each with its owner and the block of its last
/// write. As a mathematical value it is a map keyed by the claim's bytes.
#[derive(Debug)]
pub struct Proofs {
    entries: Vec<Entry>,
}

impl View for Proofs {
    type V = Map<Seq<u8>, (AccountId, BlockNumber)>;

    closed spec fn view(&self) -> Map<Seq<u8>, (AccountId, BlockNumber)> {
        contents(self.entries@)
    }
}

impl Proofs {
    #[verifier::type_invariant]
    spec fn inv(self) -> bool {
        distinct(self.entries@)
    }

    /// A store without claims.
    pub fn new() -> (proofs: Proofs)
        ensures
            proofs@ == Map::<Seq<u8>, (AccountId, BlockNumber)>::empty(),
    {
        let proofs = Proofs { entries: Vec::new() };
        assert(proofs@ =~= Map::<Seq<u8>, (AccountId, BlockNumber)>::empty()) by {
            assert forall|claim: Seq<u8>| !proofs@.contains_key(claim) by {
                lemma_absent(proofs.entries@, claim);
            }
        }
        proofs
    }

    /// The place of `claim` in the list, if it is registered.
    fn position(&self, claim: &Vec<u8>) -> (place: Option<usize>)
        ensures
            match place {
                Some(i) => at(self.entries@, claim@, i as int),
                None => !self@.contains_key(claim@),
            },
    {
        let mut i: usize = 0;
        while i < self.entries.len()
            invariant
                i <= self.entries.len(),
                forall|j: int| 0 <= j < i ==> #[trigger] key(self.entries@, j) != claim@,
            decreases self.entries.len() - i,
        {
            if same_claim(&self.entries[i].claim, claim) {
                return Some(i);
            }
            i += 1;
        }
        proof {
            lemma_absent(self.entries@, claim@);
        }
        None
    }

    /// Whether `claim` is registered.
    pub fn contains_key(&self, claim: &Vec<u8>) -> (found: bool)
        ensures
            found == self@.contains_key(claim@),
    {
        proof {
            use_type_invariant(self);
        }
        match self.position(claim) {
            Some(i) => {
                proof {
                    lemma_entry(self.entries@, i as int);
                }
                true
            },
            None => false,
        }
    }

    /// The owner of `claim` and the block of its last write, if it is
    /// registered.
    pub fn get(&self, claim: &Vec<u8>) -> (value: Option<(AccountId, BlockNumber)>)
        ensures
            value == if self@.contains_key(claim@) {
                Some(self@[claim@])
            } else {
                None
            },
    {
        proof {
            use_type_invariant(self);
        }
        match self.position(claim) {
            Some(i) => {
                proof {
                    lemma_entry(self.entries@, i as int);
                }
                Some((self.entries[i].owner, self.entries[i].block_number))
            },
            None => None,
        }
    }

    /// Registers `claim` with `value`, in place of what it held before.
    pub fn insert(&mut self, claim: Vec<u8>, value: (AccountId, BlockNumber))
        ensures
            final(self)@ == old(self)@.insert(claim@, value),
    {
        proof {
            use_type_invariant(&*self);
        }
        let place = self.position(&claim);
        let entry = Entry { claim, owner: value.0, block_number: value.1 };
        // The list is taken out while it is written and put back when it is
        // whole again: the store holds a list without repeats at every step.
        let mut entries: Vec<Entry> = Vec::new();
        std::mem::swap(&mut entries, &mut self.entries);
        let ghost before = entries@;
        match place {
            Some(i) => {
                entries.set(i, entry);
                proof {
                    lemma_replaced(before, entries@, i as int);
                }
            },
            None => {
                entries.push(entry);
                proof {
                    lemma_appended(before, entries@);
                }
            },
        }
        self.entries = entries;
    }

    /// Takes `claim` out of the store, if it is registered.
    pub fn remove(&mut self, claim: &Vec<u8>)
        ensures
            final(self)@ == old(self)@.remove(claim@),
    {
        proof {
            use_type_invariant(&*self);
        }
        if let Some(i) = self.position(claim) {
            let mut entries: Vec<Entry> = Vec::new();
            std::mem::swap(&mut entries, &mut self.entries);
            let ghost before = entries@;
            entries.remove(i);
            proof {
                lemma_removed(before, entries@, i as int);
            }
            self.entries = entries;
        }
    }

    /// Whether every claim of this store is registered in `other` with the
    /// same owner and block.
    fn within(&self, other: &Proofs) -> (within: bool)
        ensures
            within == self@.submap_of(other@),
    {
        proof {
            use_type_invariant(self);
        }
        let mut i: usize = 0;
        while i < self.entries.len()
            invariant
                i <= self.entries.len(),
                distinct(self.entries@),
                forall|j: int|
                    0 <= j < i ==> other@.contains_key(#[trigger] key(self.entries@, j))
                        && other@[key(self.entries@, j)] == value(self.entries@, j),
            decreases self.entries.len() - i,
        {
            let entry = &self.entries[i];
            proof {
                lemma_entry(self.entries@, i as int);
            }
            match other.get(&entry.claim) {
                Some((owner, block_number)) => {
                    if owner != entry.owner || block_number != entry.block_number {
                        return false;
                    }
                },
                None => {
                    return false;
                },
            }
            i += 1;
        }
        assert forall|claim: Seq<u8>| #[trigger]
            self@.dom().contains(claim) implies other@.dom().contains(claim) && self@[claim]
            == other@[claim] by {
            let j = choose|j: int| at(self.entries@, claim, j);
            lemma_entry(self.entries@, j);
        }
        true
    }
}

impl PartialEq for Proofs {
    /// Two stores are equal when they hold the same claims with the same
    /// owners and blocks.
    fn eq(&self, other: &Proofs) -> (equal: bool) {
        let equal = self.within(other) && other.within(self);
        assert(equal == (self@ =~= other@));
        equal
    }
}

impl Eq for Proofs {

}

impl vstd::std_specs::cmp::PartialEqSpecImpl for Proofs {
    open spec fn obeys_eq_spec() -> bool {
        true
    }

    open spec fn eq_spec(&self, other: &Proofs) -> bool {
        self@ == other@
    }
}

impl Clone for Proofs {
    /// A copy that holds the same claims with the same values.
    fn clone(&self) -> (copy: Proofs)
        ensures
            copy@ == self@,
    {
        proof {
            use_type_invariant(self);
        }
        let mut entries: Vec<Entry> = Vec::new();
        let mut i: usize = 0;
        while i < self.entries.len()
            invariant
                i <= self.entries.len(),
                entries.len() == i,
                forall|j: int|
                    0 <= j < i ==> #[trigger] key(entries@, j) == key(self.entries@, j) && value(
                        entries@,
                        j,
                    ) == value(self.entries@, j),
            decreases self.entries.len() - i,
        {
            let entry = &self.entries[i];
            let ghost before = entries@;
            entries.push(
                Entry {
                    claim: entry.claim.clone(),
                    owner: entry.owner,
                    block_number: entry.block_number,
                },
            );
            assert forall|j: int| 0 <= j <= i implies #[trigger] key(entries@, j) == key(
                self.entries@,
                j,
            ) && value(entries@, j) == value(self.entries@, j) by {
                if j < i {
                    assert(key(before, j) == key(self.entries@, j));
                }
            }
            i += 1;
        }
        proof {
            lemma_copied(self.entries@, entries@);
        }
        Proofs { entries }
    }
}

} // verus!
