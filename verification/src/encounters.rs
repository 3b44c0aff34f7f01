//! What a person waiting at a station has seen of the trains near it.
use vstd::prelude::*;

verus! {

/// The first sightings of one train: when it was first seen near while the
/// person was inside the station's radius of it, and when outside.
#[derive(Clone, Copy, Debug, PartialEq, Eq)]
pub struct Encounter {
    pub first_inside: Option<u64>,
    pub first_outside: Option<u64>,
}

impl Encounter {
    /// An encounter with nothing recorded.
    pub open spec fn blank() -> Encounter {
        Encounter { first_inside: None, first_outside: None }
    }

    /// The encounter after a sighting at `now`: the class of the sighting gets
    /// `now` unless it already holds an instant.
    pub open spec fn stamped(self, inside_station: bool, now: u64) -> Encounter {
        if inside_station {
            Encounter {
                first_inside: Some(
                    match self.first_inside {
                        Some(t) => t,
                        None => now,
                    },
                ),
                first_outside: self.first_outside,
            }
        } else {
            Encounter {
                first_inside: self.first_inside,
                first_outside: Some(
                    match self.first_outside {
                        Some(t) => t,
                        None => now,
                    },
                ),
            }
        }
    }

    /// Both classes of sighting are recorded.
    pub open spec fn complete(self) -> bool {
        self.first_inside.is_some() && self.first_outside.is_some()
    }

    pub fn new() -> (e: Encounter)
        ensures
            e == Encounter::blank(),
    {
        Encounter { first_inside: None, first_outside: None }
    }

    pub fn stamp(self, inside_station: bool, now: u64) -> (e: Encounter)
        ensures
            e == self.stamped(inside_station, now),
    {
        if inside_station {
            let first: u64 = match self.first_inside {
                Some(t) => t,
                None => now,
            };
            Encounter { first_inside: Some(first), first_outside: self.first_outside }
        } else {
            let first: u64 = match self.first_outside {
                Some(t) => t,
                None => now,
            };
            Encounter { first_inside: self.first_inside, first_outside: Some(first) }
        }
    }

    pub fn is_complete(&self) -> (b: bool)
        ensures
            b == self.complete(),
    {
        self.first_inside.is_some() && self.first_outside.is_some()
    }
}

/// The encounters of a stay at a station, by train identifier. No identifier
/// occurs twice.
#[derive(Clone, Debug)]
pub struct EncounterLog {
    entries: Vec<(String, Encounter)>,
}

impl View for EncounterLog {
    type V = Map<Seq<char>, Encounter>;

    closed spec fn view(&self) -> Map<Seq<char>, Encounter> {
        Map::new(
            |k: Seq<char>| self.holds(k),
            |k: Seq<char>| self.entries@[self.slot(k)].1,
        )
    }
}

impl EncounterLog {
    spec fn at(&self, i: int, k: Seq<char>) -> bool {
        0 <= i < self.entries@.len() && self.entries@[i].0@ == k
    }

    spec fn holds(&self, k: Seq<char>) -> bool {
        exists|i: int| self.at(i, k)
    }

    spec fn slot(&self, k: Seq<char>) -> int {
        choose|i: int| self.at(i, k)
    }

    /// No train identifier occurs twice.
    pub closed spec fn wf(&self) -> bool {
        forall|i: int, j: int|
            0 <= i < j < self.entries@.len() ==> !#[trigger] self.at(i, #[trigger] self.entries@[j].0@)
    }

    proof fn lemma_entry(&self, i: int)
        requires
            self.wf(),
            0 <= i < self.entries@.len(),
        ensures
            self@.contains_key(self.entries@[i].0@),
            self@[self.entries@[i].0@] == self.entries@[i].1,
            self.slot(self.entries@[i].0@) == i,
    {
        let k = self.entries@[i].0@;
        assert(self.at(i, k));
        let j = self.slot(k);
        assert(self.at(j, k));
        if j < i {
            assert(!self.at(j, self.entries@[i].0@));
        } else if i < j {
            assert(!self.at(i, self.entries@[j].0@));
        }
    }

    pub fn new() -> (log: EncounterLog)
        ensures
            log.wf(),
            log@ == Map::<Seq<char>, Encounter>::empty(),
    {
        let log = EncounterLog { entries: Vec::new() };
        proof {
            assert forall|k: Seq<char>| !log.holds(k) by {
                if log.holds(k) {
                    let i = choose|i: int| log.at(i, k);
                    assert(log.at(i, k));
                }
            }
            assert(log@ =~= Map::<Seq<char>, Encounter>::empty());
        }
        log
    }

    fn position(&self, id: &String) -> (r: Option<usize>)
        ensures
            match r {
                Some(i) => self.at(i as int, id@),
                None => !self.holds(id@),
            },
    {
        let mut i: usize = 0;
        while i < self.entries.len()
            invariant
                i <= self.entries@.len(),
                forall|j: int| 0 <= j < i ==> !self.at(j, id@),
            decreases self.entries@.len() - i,
        {
            if self.entries[i].0 == *id {
                return Some(i);
            }
            i = i + 1;
        }
        proof {
            if self.holds(id@) {
                let j = choose|j: int| self.at(j, id@);
                assert(self.at(j, id@));
            }
        }
        None
    }

    /// The encounter recorded for a train, if there is one.
    pub fn get(&self, id: &String) -> (r: Option<Encounter>)
        requires
            self.wf(),
        ensures
            r == (if self@.contains_key(id@) {
                Some(self@[id@])
            } else {
                None
            }),
    {
        match self.position(id) {
            Some(i) => {
                proof {
                    self.lemma_entry(i as int);
                }
                Some(self.entries[i].1)
            },
            None => None,
        }
    }

    /// Records `e` for a train, in place of what was recorded for it.
    pub fn insert(&mut self, id: String, e: Encounter)
        requires
            old(self).wf(),
        ensures
            final(self).wf(),
            final(self)@ == old(self)@.insert(id@, e),
    {
        let ghost before = *self;
        let ghost key = id@;
        let pos = self.position(&id);
        match pos {
            Some(i) => {
                self.entries.set(i, (id, e));
                proof {
                    assert forall|j: int, k: Seq<char>| self.at(j, k) <==> before.at(j, k) by {}
                    assert forall|a: int, b: int|
                        0 <= a < b < self.entries@.len() implies !#[trigger] self.at(
                        a,
                        #[trigger] self.entries@[b].0@,
                    ) by {
                        assert(self.entries@[b].0@ == before.entries@[b].0@);
                        assert(!before.at(a, before.entries@[b].0@));
                    }
                    assert forall|k: Seq<char>| self.holds(k) <==> before.holds(k) by {
                        if self.holds(k) {
                            assert(before.at(self.slot(k), k));
                        }
                        if before.holds(k) {
                            assert(self.at(before.slot(k), k));
                        }
                    }
                    assert forall|k: Seq<char>| self.holds(k) implies self@[k] == before@.insert(
                        key,
                        e,
                    )[k] by {
                        let j = self.slot(k);
                        assert(self.at(j, k));
                        self.lemma_entry(j);
                        before.lemma_entry(j);
                    }
                    before.lemma_entry(i as int);
                    assert(self@ =~= before@.insert(key, e));
                }
            },
            None => {
                self.entries.push((id, e));
                proof {
                    let n = before.entries@.len() as int;
                    assert forall|j: int, k: Seq<char>|
                        self.at(j, k) <==> (before.at(j, k) || (j == n && k == key)) by {}
                    assert forall|i: int, j: int|
                        0 <= i < j < self.entries@.len() implies !#[trigger] self.at(
                        i,
                        #[trigger] self.entries@[j].0@,
                    ) by {
                        if j < n {
                            assert(!before.at(i, before.entries@[j].0@));
                        } else {
                            assert(!before.at(i, key));
                        }
                    }
                    assert(self.at(n, key));
                    self.lemma_entry(n);
                    assert forall|k: Seq<char>| self.holds(k) <==> (before.holds(k) || k == key) by {
                        if self.holds(k) {
                            let j = self.slot(k);
                            assert(self.at(j, k));
                            if j != n {
                                assert(before.at(j, k));
                            }
                        }
                        if before.holds(k) {
                            assert(self.at(before.slot(k), k));
                        }
                    }
                    assert forall|k: Seq<char>| self.holds(k) implies self@[k] == before@.insert(
                        key,
                        e,
                    )[k] by {
                        let j = self.slot(k);
                        assert(self.at(j, k));
                        self.lemma_entry(j);
                        if j != n {
                            before.lemma_entry(j);
                        }
                    }
                    assert(self@ =~= before@.insert(key, e));
                }
            },
        }
    }

    /// Forgets what was recorded for a train.
    pub fn remove(&mut self, id: &String)
        requires
            old(self).wf(),
        ensures
            final(self).wf(),
            final(self)@ == old(self)@.remove(id@),
    {
        let ghost before = *self;
        let ghost key = id@;
        let pos = self.position(id);
        match pos {
            Some(i) => {
                self.entries.remove(i);
                proof {
                    let p = i as int;
                    before.lemma_entry(p);
                    assert forall|j: int, k: Seq<char>|
                        self.at(j, k) <==> (if j < p {
                            before.at(j, k)
                        } else {
                            before.at(j + 1, k)
                        }) by {}
                    assert forall|a: int, b: int|
                        0 <= a < b < self.entries@.len() implies !#[trigger] self.at(
                        a,
                        #[trigger] self.entries@[b].0@,
                    ) by {
                        let a0 = if a < p { a } else { a + 1 };
                        let b0 = if b < p { b } else { b + 1 };
                        assert(!before.at(a0, before.entries@[b0].0@));
                    }
                    assert forall|k: Seq<char>| self.holds(k) <==> (before.holds(k) && k != key) by {
                        if self.holds(k) {
                            let j = self.slot(k);
                            assert(self.at(j, k));
                            let j0 = if j < p { j } else { j + 1 };
                            assert(before.at(j0, k));
                            before.lemma_entry(j0);
                        }
                        if before.holds(k) && k != key {
                            let j0 = before.slot(k);
                            assert(before.at(j0, k));
                            let j = if j0 < p { j0 } else { j0 - 1 };
                            assert(self.at(j, k));
                        }
                    }
                    assert forall|k: Seq<char>| self.holds(k) implies self@[k] == before@[k] by {
                        let j = self.slot(k);
                        assert(self.at(j, k));
                        self.lemma_entry(j);
                        let j0 = if j < p { j } else { j + 1 };
                        before.lemma_entry(j0);
                    }
                    assert(self@ =~= before@.remove(key));
                }
            },
            None => {
                proof {
                    assert(self@ =~= before@.remove(key));
                }
            },
        }
    }

    /// A log with the same encounters.
    pub fn duplicate(&self) -> (copy: EncounterLog)
        requires
            self.wf(),
        ensures
            copy.wf(),
            copy@ == self@,
    {
        let mut entries: Vec<(String, Encounter)> = Vec::new();
        let mut i: usize = 0;
        while i < self.entries.len()
            invariant
                i <= self.entries@.len(),
                entries@.len() == i,
                forall|j: int| 0 <= j < i ==> entries@[j].0@ == self.entries@[j].0@ && entries@[j].1 == self.entries@[j].1,
            decreases self.entries@.len() - i,
        {
            let id = self.entries[i].0.clone();
            entries.push((id, self.entries[i].1));
            i = i + 1;
        }
        let copy = EncounterLog { entries };
        proof {
            assert forall|j: int, k: Seq<char>| copy.at(j, k) <==> self.at(j, k) by {}
            assert forall|a: int, b: int|
                0 <= a < b < copy.entries@.len() implies !#[trigger] copy.at(
                a,
                #[trigger] copy.entries@[b].0@,
            ) by {
                assert(!self.at(a, self.entries@[b].0@));
            }
            assert forall|k: Seq<char>| copy.holds(k) <==> self.holds(k) by {
                if copy.holds(k) {
                    assert(self.at(copy.slot(k), k));
                }
                if self.holds(k) {
                    assert(copy.at(self.slot(k), k));
                }
            }
            assert forall|k: Seq<char>| copy.holds(k) implies copy@[k] == self@[k] by {
                let j = copy.slot(k);
                assert(copy.at(j, k));
                copy.lemma_entry(j);
                self.lemma_entry(j);
            }
            assert(copy@ =~= self@);
        }
        copy
    }
}

} // verus!
