//! The table of all rooms.

use vstd::prelude::*;

use crate::room::{Room, RoomView};
use crate::text::texts;

verus! {

struct Entry {
    id: String,
    room: Room,
}

/// Rooms by the text that names them. No two rooms share a name.
pub struct RoomTable {
    entries: Vec<Entry>,
}

impl RoomTable {
    closed spec fn names(self) -> Seq<Seq<char>> {
        Seq::new(self.entries@.len(), |i: int| self.entries@[i].id@)
    }

    /// No name occurs twice.
    pub closed spec fn wf(self) -> bool {
        self.names().no_duplicates()
    }
}

impl View for RoomTable {
    type V = Map<Seq<char>, RoomView>;

    closed spec fn view(&self) -> Map<Seq<char>, RoomView> {
        Map::new(
            |id: Seq<char>| self.names().contains(id),
            |id: Seq<char>| self.entries@[self.names().index_of(id)].room@,
        )
    }
}

impl RoomTable {
    proof fn lemma_entry(self, i: int)
        requires
            self.wf(),
            0 <= i < self.entries@.len(),
        ensures
            self@.contains_key(self.entries@[i].id@),
            self@[self.entries@[i].id@] == self.entries@[i].room@,
    {
        let id = self.entries@[i].id@;
        assert(self.names()[i] == id);
        let k = self.names().index_of(id);
        assert(self.names()[k] == id);
    }

    /// A table without rooms.
    pub fn new() -> (table: RoomTable)
        ensures
            table.wf(),
            table@ == Map::<Seq<char>, RoomView>::empty(),
    {
        let table = RoomTable { entries: Vec::new() };
        assert(table@ =~= Map::<Seq<char>, RoomView>::empty());
        table
    }

    fn find(&self, id: &String) -> (pos: Option<usize>)
        requires
            self.wf(),
        ensures
            match pos {
                Some(i) => i < self.entries@.len() && self.entries@[i as int].id@ == id@
                    && self@.contains_key(id@) && self@[id@] == self.entries@[i as int].room@,
                None => !self@.contains_key(id@),
            },
    {
        let mut i: usize = 0;
        while i < self.entries.len()
            invariant
                self.wf(),
                i <= self.entries.len(),
                forall|j: int| 0 <= j < i ==> (#[trigger] self.entries@[j]).id@ != id@,
            decreases self.entries.len() - i,
        {
            if self.entries[i].id == *id {
                proof {
                    self.lemma_entry(i as int);
                }
                return Some(i);
            }
            i = i + 1;
        }
        assert(!self.names().contains(id@));
        None
    }

    /// The room named `id`.
    pub fn get(&self, id: &String) -> (room: Option<&Room>)
        requires
            self.wf(),
        ensures
            match room {
                Some(room) => self@.contains_key(id@) && room@ == self@[id@],
                None => !self@.contains_key(id@),
            },
    {
        match self.find(id) {
            Some(i) => Some(&self.entries[i].room),
            None => None,
        }
    }

    /// Enters `room` under `id`, in place of any room that had the name.
    pub fn insert(&mut self, id: String, room: Room)
        requires
            old(self).wf(),
        ensures
            final(self).wf(),
            final(self)@ == old(self)@.insert(id@, room@),
    {
        match self.find(&id) {
            Some(i) => {
                self.entries.set(i, Entry { id, room });
                proof {
                    assert(self.names() =~= old(self).names());
                    assert forall|k: Seq<char>| #[trigger]
                        self@.contains_key(k) implies self@[k] == old(self)@.insert(
                        id@,
                        room@,
                    )[k] by {
                        let j = self.names().index_of(k);
                        assert(self.names()[j] == k);
                        if j == i {
                        } else {
                            old(self).lemma_entry(j);
                            assert(old(self).names()[i as int] == id@);
                        }
                    }
                }
            },
            None => {
                self.entries.push(Entry { id, room });
                proof {
                    let n = old(self).entries@.len() as int;
                    assert(self.names() =~= old(self).names().push(id@));
                    assert(self.wf()) by {
                        assert forall|a: int, b: int|
                            0 <= a < b < self.names().len() implies self.names()[a]
                            != self.names()[b] by {
                            if b == n {
                                assert(old(self).names()[a] == self.names()[a]);
                                assert(old(self).names().contains(self.names()[a]));
                            } else {
                                assert(old(self).names()[a] != old(self).names()[b]);
                            }
                        }
                    }
                    assert forall|k: Seq<char>| self@.contains_key(k) == (#[trigger] old(
                        self,
                    )@.contains_key(k) || k == id@) by {
                        if old(self)@.contains_key(k) {
                            let j = old(self).names().index_of(k);
                            assert(self.names()[j] == k);
                        }
                        if k == id@ {
                            assert(self.names()[n] == k);
                        }
                        if self@.contains_key(k) {
                            let j = self.names().index_of(k);
                            assert(self.names()[j] == k);
                            if j < n {
                                assert(old(self).names()[j] == k);
                            }
                        }
                    }
                    assert forall|k: Seq<char>| #[trigger]
                        self@.contains_key(k) implies self@[k] == old(self)@.insert(
                        id@,
                        room@,
                    )[k] by {
                        let j = self.names().index_of(k);
                        assert(self.names()[j] == k);
                        if j < n {
                            assert(old(self).names()[j] == k);
                            assert(old(self).names().contains(k));
                            old(self).lemma_entry(j);
                        }
                    }
                }
            },
        }
        assert(self@ =~= old(self)@.insert(id@, room@));
    }

    /// Takes the room named `id` out of the table.
    pub fn remove(&mut self, id: &String) -> (room: Option<Room>)
        requires
            old(self).wf(),
        ensures
            final(self).wf(),
            final(self)@ == old(self)@.remove(id@),
            match room {
                Some(room) => old(self)@.contains_key(id@) && room@ == old(self)@[id@],
                None => !old(self)@.contains_key(id@),
            },
    {
        match self.find(id) {
            Some(i) => {
                let entry = self.entries.remove(i);
                proof {
                    let before = old(self).names();
                    let after = self.names();
                    assert(after =~= before.remove(i as int));
                    assert(before[i as int] == id@);
                    assert forall|k: Seq<char>| self@.contains_key(k) == (#[trigger] old(
                        self,
                    )@.contains_key(k) && k != id@) by {
                        if old(self)@.contains_key(k) && k != id@ {
                            let j = before.index_of(k);
                            assert(before[j] == k);
                            if j < i {
                                assert(after[j] == k);
                            } else {
                                assert(after[j - 1] == k);
                            }
                        }
                        if self@.contains_key(k) {
                            let j = after.index_of(k);
                            assert(after[j] == k);
                            if j < i {
                                assert(before[j] == k);
                            } else {
                                assert(before[j + 1] == k);
                            }
                        }
                    }
                    assert forall|k: Seq<char>| #[trigger] self@.contains_key(k) implies self@[k]
                        == old(self)@[k] by {
                        let j = after.index_of(k);
                        assert(after[j] == k);
                        if j < i {
                            assert(before[j] == k);
                            old(self).lemma_entry(j);
                        } else {
                            assert(before[j + 1] == k);
                            old(self).lemma_entry(j + 1);
                        }
                    }
                    assert(self@ =~= old(self)@.remove(id@));
                }
                Some(entry.room)
            },
            None => {
                assert(self@ =~= old(self)@.remove(id@));
                None
            },
        }
    }

    /// The names of all rooms, each once.
    pub fn ids(&self) -> (list: Vec<String>)
        requires
            self.wf(),
        ensures
            texts(list@).no_duplicates(),
            texts(list@).to_set() == self@.dom(),
    {
        let mut list: Vec<String> = Vec::new();
        let mut i: usize = 0;
        while i < self.entries.len()
            invariant
                i <= self.entries.len(),
                texts(list@) == self.names().take(i as int),
            decreases self.entries.len() - i,
        {
            let ghost before = texts(list@);
            list.push(self.entries[i].id.clone());
            i = i + 1;
            assert(texts(list@) =~= before.push(self.names()[i - 1]));
            assert(texts(list@) =~= self.names().take(i as int));
        }
        assert(texts(list@) =~= self.names());
        assert(texts(list@).to_set() =~= self@.dom());
        list
    }
}

} // verus!
