//! Sets of broker ids.

use vstd::prelude::*;

use crate::text::same_text;

verus! {

/// The texts of a list of ids.
pub open spec fn texts(ids: Seq<String>) -> Seq<Seq<char>> {
    ids.map_values(|id: String| id@)
}

/// A set of broker ids.
pub struct IdSet {
    ids: Vec<String>,
}

impl View for IdSet {
    type V = Set<Seq<char>>;

    closed spec fn view(&self) -> Set<Seq<char>> {
        texts(self.ids@).to_set()
    }
}

/// The place of `id` in a list of ids.
pub fn position_of(ids: &Vec<String>, id: &str) -> (r: Option<usize>)
    ensures
        match r {
            Some(i) => i < ids@.len() && ids@[i as int]@ == id@,
            None => !texts(ids@).contains(id@),
        },
{
    let n: usize = ids.len();
    let mut i: usize = 0;
    while i < n
        invariant
            n == ids@.len(),
            i <= n,
            forall|k: int| 0 <= k < i ==> (#[trigger] ids@[k])@ != id@,
        decreases n - i,
    {
        if same_text(ids[i].as_str(), id) {
            return Some(i);
        }
        i += 1;
    }
    assert forall|k: int| 0 <= k < texts(ids@).len() implies #[trigger] texts(ids@)[k] != id@ by {
        assert(ids@[k]@ != id@);
    }
    None
}

impl IdSet {
    /// No id stands in the list twice.
    #[verifier::type_invariant]
    spec fn without_repeats(self) -> bool {
        texts(self.ids@).no_duplicates()
    }

    /// The empty set.
    pub fn new() -> (r: Self)
        ensures
            r@ == Set::<Seq<char>>::empty(),
    {
        let ids: Vec<String> = Vec::new();
        assert(texts(ids@).to_set() =~= Set::<Seq<char>>::empty());
        IdSet { ids }
    }

    /// Says whether `id` is in the set.
    pub fn contains(&self, id: &str) -> (r: bool)
        ensures
            r == self@.contains(id@),
    {
        let found = position_of(&self.ids, id);
        proof {
            if let Some(i) = found {
                assert(texts(self.ids@)[i as int] == id@);
            }
        }
        found.is_some()
    }

    /// Puts `id` into the set.
    pub fn insert(&mut self, id: &str)
        ensures
            final(self)@ == old(self)@.insert(id@),
    {
        proof {
            use_type_invariant(&*self);
        }
        if !self.contains(id) {
            let mut ids: Vec<String> = Vec::new();
            std::mem::swap(&mut ids, &mut self.ids);
            let ghost before = texts(ids@);
            ids.push(id.to_owned());
            proof {
                let after = texts(ids@);
                assert(after =~= before.push(id@));
                assert(!before.contains(id@));
                assert forall|i: int, j: int|
                    0 <= i < after.len() && 0 <= j < after.len() && i != j implies after[i]
                    != after[j] by {
                    if i < before.len() {
                        assert(before.contains(before[i]));
                    }
                    if j < before.len() {
                        assert(before.contains(before[j]));
                    }
                }
                assert(after.to_set() =~= before.to_set().insert(id@)) by {
                    assert forall|x: Seq<char>| after.contains(x) == (before.contains(x) || x == id@) by {
                        if before.contains(x) {
                            let k = choose|k: int| 0 <= k < before.len() && before[k] == x;
                            assert(after[k] == x);
                        }
                        assert(after[before.len() as int] == id@);
                    }
                }
            }
            self.ids = ids;
        } else {
            assert(self@.insert(id@) =~= self@);
        }
    }

    /// Takes `id` out of the set.
    pub fn remove(&mut self, id: &str)
        ensures
            final(self)@ == old(self)@.remove(id@),
    {
        proof {
            use_type_invariant(&*self);
        }
        match position_of(&self.ids, id) {
            Some(i) => {
                let mut ids: Vec<String> = Vec::new();
                std::mem::swap(&mut ids, &mut self.ids);
                let ghost before = texts(ids@);
                ids.remove(i);
                proof {
                    let after = texts(ids@);
                    assert(after =~= before.remove(i as int));
                    assert(before[i as int] == id@);
                    assert(after.to_set() =~= before.to_set().remove(id@)) by {
                        assert forall|x: Seq<char>|
                            after.contains(x) == (before.contains(x) && x != id@) by {
                            if before.contains(x) && x != id@ {
                                let k = choose|k: int| 0 <= k < before.len() && before[k] == x;
                                if k < i {
                                    assert(after[k] == x);
                                } else {
                                    assert(after[k - 1] == x);
                                }
                            }
                            if after.contains(x) {
                                let k = choose|k: int| 0 <= k < after.len() && after[k] == x;
                                let kept = if k < i { k } else { k + 1 };
                                assert(before[kept] == x);
                                assert(before[kept] != before[i as int]);
                            }
                        }
                    }
                }
                self.ids = ids;
            },
            None => {
                assert(self@.remove(id@) =~= self@);
            },
        }
    }

    /// The ids of the set, each once.
    pub fn to_vec(&self) -> (r: Vec<String>)
        ensures
            texts(r@).to_set() == self@,
            texts(r@).no_duplicates(),
    {
        proof {
            use_type_invariant(self);
        }
        let r = copied(&self.ids);
        assert(r@ =~= self.ids@);
        r
    }
}

/// A copy of a list of ids.
pub fn copied(ids: &Vec<String>) -> (r: Vec<String>)
    ensures
        r@ == ids@,
{
    let mut r: Vec<String> = Vec::new();
    let n: usize = ids.len();
    let mut i: usize = 0;
    while i < n
        invariant
            n == ids@.len(),
            i <= n,
            r@ == ids@.take(i as int),
        decreases n - i,
    {
        r.push(ids[i].clone());
        assert(r@ =~= ids@.take(i as int + 1));
        i += 1;
    }
    assert(ids@.take(n as int) =~= ids@);
    r
}

} // verus!
