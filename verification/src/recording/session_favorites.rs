//! The set of session logs the user marked as favorites, by recording id.

use vstd::prelude::*;
use crate::text::same_text;

verus! {

/// Favorite recording ids; each id is held once.
#[derive(Clone, Debug)]
pub struct SessionLogFavorites {
    recording_ids: Vec<String>,
}

pub open spec fn ids_of(ids: Seq<String>) -> Seq<Seq<char>> {
    Seq::new(ids.len(), |i: int| ids[i]@)
}

pub open spec fn no_repeats(ids: Seq<Seq<char>>) -> bool {
    forall|i: int, j: int| 0 <= i < j < ids.len() ==> ids[i] != ids[j]
}

impl SessionLogFavorites {
    /// The favorite ids.
    pub closed spec fn id_set(&self) -> Set<Seq<char>> {
        ids_of(self.recording_ids@).to_set()
    }

    /// Each id is held once.
    pub closed spec fn wf(&self) -> bool {
        no_repeats(ids_of(self.recording_ids@))
    }

    pub fn new() -> (r: Self)
        ensures
            r.wf(),
            r.id_set() == Set::<Seq<char>>::empty(),
    {
        let r = SessionLogFavorites { recording_ids: Vec::new() };
        assert(ids_of(r.recording_ids@).to_set() =~= Set::<Seq<char>>::empty());
        r
    }

    /// The favorites with exactly these ids (repeats count once).
    pub fn from_ids(ids: Vec<String>) -> (r: Self)
        ensures
            r.wf(),
            r.id_set() == ids_of(ids@).to_set(),
    {
        let mut favorites = SessionLogFavorites::new();
        let mut k: usize = 0;
        while k < ids.len()
            invariant
                k <= ids@.len(),
                favorites.wf(),
                favorites.id_set() == ids_of(ids@.take(k as int)).to_set(),
            decreases ids@.len() - k,
        {
            favorites.set(ids[k].as_str(), true);
            assert(ids_of(ids@.take(k + 1)) =~= ids_of(ids@.take(k as int)).push(ids@[k as int]@));
            proof {
                ids_of(ids@.take(k as int)).lemma_push_to_set_commute(ids@[k as int]@);
            }
            k = k + 1;
        }
        assert(ids@.take(ids@.len() as int) =~= ids@);
        favorites
    }

    /// The ids, each once.
    pub fn ids(&self) -> (r: Vec<String>)
        requires
            self.wf(),
        ensures
            ids_of(r@).to_set() == self.id_set(),
            no_repeats(ids_of(r@)),
    {
        self.recording_ids.clone()
    }

    fn position(&self, recording_id: &str) -> (r: Option<usize>)
        ensures
            match r {
                Some(i) => i < self.recording_ids@.len() && self.recording_ids@[i as int]@ == recording_id@,
                None => !ids_of(self.recording_ids@).contains(recording_id@),
            },
    {
        let mut i: usize = 0;
        while i < self.recording_ids.len()
            invariant
                i <= self.recording_ids@.len(),
                forall|j: int| 0 <= j < i ==> self.recording_ids@[j]@ != recording_id@,
            decreases self.recording_ids@.len() - i,
        {
            if same_text(self.recording_ids[i].as_str(), recording_id) {
                return Some(i);
            }
            i = i + 1;
        }
        assert(!ids_of(self.recording_ids@).contains(recording_id@)) by {
            if ids_of(self.recording_ids@).contains(recording_id@) {
                let j = choose|j: int| 0 <= j < self.recording_ids@.len() && ids_of(self.recording_ids@)[j] == recording_id@;
                assert(self.recording_ids@[j]@ != recording_id@);
            }
        }
        None
    }

    pub fn contains(&self, recording_id: &str) -> (r: bool)
        ensures
            r == self.id_set().contains(recording_id@),
    {
        let found = self.position(recording_id);
        proof {
            if let Some(i) = found {
                assert(ids_of(self.recording_ids@)[i as int] == recording_id@);
            }
        }
        found.is_some()
    }

    /// Marks or unmarks `recording_id`; `true` when that changed the set.
    pub fn set(&mut self, recording_id: &str, favorite: bool) -> (r: bool)
        requires
            old(self).wf(),
        ensures
            final(self).wf(),
            favorite ==> final(self).id_set() == old(self).id_set().insert(recording_id@),
            !favorite ==> final(self).id_set() == old(self).id_set().remove(recording_id@),
            r == (favorite != old(self).id_set().contains(recording_id@)),
    {
        let found = self.position(recording_id);
        let ghost before = ids_of(self.recording_ids@);
        match found {
            Some(i) => {
                proof {
                    assert(before[i as int] == recording_id@);
                }
                if favorite {
                    return false;
                }
                self.recording_ids.remove(i);
                proof {
                    let after = ids_of(self.recording_ids@);
                    assert(after =~= before.remove(i as int));
                    assert(after.to_set() =~= before.to_set().remove(recording_id@)) by {
                        assert forall|x: Seq<char>| after.to_set().contains(x) <==> before.to_set().remove(recording_id@).contains(x) by {
                            if after.contains(x) {
                                let k = choose|k: int| 0 <= k < after.len() && after[k] == x;
                                if k < i {
                                    assert(before[k] == x);
                                } else {
                                    assert(before[k + 1] == x);
                                    assert(before[k + 1] != before[i as int]);
                                }
                            }
                            if before.contains(x) && x != recording_id@ {
                                let k = choose|k: int| 0 <= k < before.len() && before[k] == x;
                                if k < i {
                                    assert(after[k] == x);
                                } else {
                                    assert(k != i);
                                    assert(after[k - 1] == x);
                                }
                            }
                        }
                    }
                }
                true
            },
            None => {
                if !favorite {
                    assert(before.to_set().remove(recording_id@) =~= before.to_set());
                    return false;
                }
                self.recording_ids.push(recording_id.to_owned());
                proof {
                    let after = ids_of(self.recording_ids@);
                    assert(after =~= before.push(recording_id@));
                    assert(after.to_set() =~= before.to_set().insert(recording_id@)) by {
                        assert forall|x: Seq<char>| after.to_set().contains(x) <==> before.to_set().insert(recording_id@).contains(x) by {
                            if after.contains(x) {
                                let k = choose|k: int| 0 <= k < after.len() && after[k] == x;
                                if k < before.len() {
                                    assert(before[k] == x);
                                }
                            }
                            if before.contains(x) {
                                let k = choose|k: int| 0 <= k < before.len() && before[k] == x;
                                assert(after[k] == x);
                            }
                            if x == recording_id@ {
                                assert(after[before.len() as int] == x);
                            }
                        }
                    }
                }
                true
            },
        }
    }

    pub fn is_empty(&self) -> (r: bool)
        ensures
            r == (self.id_set() == Set::<Seq<char>>::empty()),
    {
        proof {
            if self.recording_ids@.len() > 0 {
                assert(ids_of(self.recording_ids@).to_set().contains(self.recording_ids@[0]@)) by {
                    assert(ids_of(self.recording_ids@)[0] == self.recording_ids@[0]@);
                }
            } else {
                assert(ids_of(self.recording_ids@).to_set() =~= Set::<Seq<char>>::empty());
            }
        }
        self.recording_ids.len() == 0
    }
}

impl Default for SessionLogFavorites {
    /// No favorites.
    fn default() -> (r: Self)
        ensures
            r.wf(),
            r.id_set() == Set::<Seq<char>>::empty(),
    {
        SessionLogFavorites::new()
    }
}

} // verus!
