use vstd::prelude::*;
use crate::types::{Friend, FriendResource};

verus! {

/// The last observed record of each friend, keyed by the friend's id.
pub struct PresenceStore {
    entries: Vec<FriendResource>,
    model: Ghost<Map<Seq<char>, Friend>>,
}

impl View for PresenceStore {
    type V = Map<Seq<char>, Friend>;

    closed spec fn view(&self) -> Map<Seq<char>, Friend> {
        self.model@
    }
}

impl PresenceStore {
    /// The entries agree with the model: one entry per id, each holding that id's record.
    pub closed spec fn wf(&self) -> bool {
        &&& forall|i: int|
            0 <= i < self.entries@.len() ==> #[trigger] self.model@.contains_key(
                self.entries@[i].puuid@,
            ) && self.model@[self.entries@[i].puuid@] == self.entries@[i]@
        &&& forall|k: Seq<char>|
            #[trigger] self.model@.contains_key(k) ==> exists|i: int|
                0 <= i < self.entries@.len() && self.entries@[i].puuid@ == k
        &&& forall|i: int, j: int|
            0 <= i < j < self.entries@.len() ==> self.entries@[i].puuid@
                != self.entries@[j].puuid@
        &&& self.model@.dom().finite()
        &&& self.model@.dom().len() == self.entries@.len()
    }

    /// An empty store.
    pub fn new() -> (r: PresenceStore)
        ensures
            r.wf(),
            r@ == Map::<Seq<char>, Friend>::empty(),
    {
        PresenceStore { entries: Vec::new(), model: Ghost(Map::empty()) }
    }

    /// The number of friends recorded.
    pub fn len(&self) -> (r: usize)
        requires
            self.wf(),
        ensures
            r == self@.len(),
    {
        self.entries.len()
    }

    fn position(&self, id: &String) -> (r: Option<usize>)
        requires
            self.wf(),
        ensures
            match r {
                Some(i) => i < self.entries@.len() && self.entries@[i as int].puuid@ == id@,
                None => !self@.contains_key(id@),
            },
    {
        let mut i: usize = 0;
        while i < self.entries.len()
            invariant
                self.wf(),
                i <= self.entries@.len(),
                forall|j: int| 0 <= j < i ==> self.entries@[j].puuid@ != id@,
            decreases self.entries@.len() - i,
        {
            if self.entries[i].puuid == *id {
                return Some(i);
            }
            i = i + 1;
        }
        None
    }

    /// The record last observed for the friend with id `id`.
    pub fn get(&self, id: &str) -> (r: Option<&FriendResource>)
        requires
            self.wf(),
        ensures
            match r {
                Some(f) => self@.contains_key(id@) && f@ == self@[id@],
                None => !self@.contains_key(id@),
            },
    {
        let key = String::from_str(id);
        match self.position(&key) {
            Some(i) => {
                assert(self.model@.contains_key(self.entries@[i as int].puuid@));
                Some(&self.entries[i])
            },
            None => None,
        }
    }

    /// Records `friend` as the last observed record under its id.
    pub fn record(&mut self, friend: FriendResource)
        requires
            old(self).wf(),
        ensures
            final(self).wf(),
            final(self)@ == old(self)@.insert(friend.puuid@, friend@),
    {
        let ghost k = friend.puuid@;
        let ghost fv = friend@;
        match self.position(&friend.puuid) {
            Some(i) => {
                self.entries.set(i, friend);
                self.model = Ghost(self.model@.insert(k, fv));
                assert(old(self).model@.contains_key(old(self).entries@[i as int].puuid@));
                assert(self.model@.dom() =~= old(self).model@.dom());
                assert forall|j: int| 0 <= j < self.entries@.len() implies #[trigger] self.model@.contains_key(
                    self.entries@[j].puuid@) && self.model@[self.entries@[j].puuid@] == self.entries@[j]@ by {
                    if j != i {
                        assert(old(self).model@.contains_key(old(self).entries@[j].puuid@));
                    }
                }
                assert forall|k2: Seq<char>| #[trigger] self.model@.contains_key(k2) implies exists|j: int|
                    0 <= j < self.entries@.len() && self.entries@[j].puuid@ == k2 by {
                    if k2 != k {
                        assert(old(self).model@.contains_key(k2));
                        let j = choose|j: int|
                            0 <= j < old(self).entries@.len() && old(self).entries@[j].puuid@ == k2;
                        assert(self.entries@[j].puuid@ == k2);
                    } else {
                        assert(self.entries@[i as int].puuid@ == k2);
                    }
                }
            },
            None => {
                self.entries.push(friend);
                self.model = Ghost(self.model@.insert(k, fv));
                let ghost n = old(self).entries@.len();
                assert forall|j: int| 0 <= j < n implies old(self).entries@[j].puuid@ != k by {
                    assert(old(self).model@.contains_key(old(self).entries@[j].puuid@));
                }
                assert(self.model@.dom() =~= old(self).model@.dom().insert(k));
                assert forall|j: int| 0 <= j < self.entries@.len() implies #[trigger] self.model@.contains_key(
                    self.entries@[j].puuid@) && self.model@[self.entries@[j].puuid@] == self.entries@[j]@ by {
                    if j != n {
                        assert(old(self).model@.contains_key(old(self).entries@[j].puuid@));
                    }
                }
                assert forall|k2: Seq<char>| #[trigger] self.model@.contains_key(k2) implies exists|j: int|
                    0 <= j < self.entries@.len() && self.entries@[j].puuid@ == k2 by {
                    if k2 != k {
                        assert(old(self).model@.contains_key(k2));
                        let j = choose|j: int|
                            0 <= j < old(self).entries@.len() && old(self).entries@[j].puuid@ == k2;
                        assert(self.entries@[j].puuid@ == k2);
                    } else {
                        assert(self.entries@[n as int].puuid@ == k2);
                    }
                }
            },
        }
    }
}

} // verus!
