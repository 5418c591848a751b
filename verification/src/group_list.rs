//! The groups that a stream follows, each with the position that the stream has reached.

use crate::bytes::{copy_bytes, same_bytes};
use crate::position::{pos_of, MessagePosition};
use vstd::prelude::*;

verus! {

/// Asks a subscription for the messages of one group past a cursor.
#[derive(Debug, Clone, PartialEq, Eq)]
pub struct GroupFilter {
    pub group_id: Vec<u8>,
    pub id_cursor: Option<u64>,
}

impl GroupFilter {
    pub fn new(group_id: Vec<u8>, id_cursor: Option<u64>) -> (filter: GroupFilter)
        ensures
            filter.group_id == group_id,
            filter.id_cursor == id_cursor,
    {
        GroupFilter { group_id, id_cursor }
    }
}

/// Whether `ids` names every group of `groups` once, and no other.
pub open spec fn lists_groups(ids: Seq<Vec<u8>>, groups: Set<Seq<u8>>) -> bool {
    &&& forall|i: int| 0 <= i < ids.len() ==> groups.contains(#[trigger] ids[i]@)
    &&& forall|i: int, j: int|
        0 <= i < j < ids.len() ==> #[trigger] ids[i]@ != #[trigger] ids[j]@
    &&& forall|group: Seq<u8>|
        #[trigger] groups.contains(group) ==> exists|i: int|
            0 <= i < ids.len() && #[trigger] ids[i]@ == group
}

/// Whether `filters` asks for every group of `positions` once, from its position on,
/// and for no other.
pub open spec fn lists_filters(
    filters: Seq<GroupFilter>,
    positions: Map<Seq<u8>, Option<u64>>,
) -> bool {
    &&& forall|i: int|
        0 <= i < filters.len() ==> {
            &&& positions.contains_key(#[trigger] filters[i].group_id@)
            &&& filters[i].id_cursor == Some(pos_of(positions[filters[i].group_id@]))
        }
    &&& forall|i: int, j: int|
        0 <= i < j < filters.len() ==> #[trigger] filters[i].group_id@
            != #[trigger] filters[j].group_id@
    &&& forall|group: Seq<u8>|
        #[trigger] positions.contains_key(group) ==> exists|i: int|
            0 <= i < filters.len() && #[trigger] filters[i].group_id@ == group
}

/// The positions with `group` moved to `cursor`, where it is among them.
pub open spec fn moved(
    positions: Map<Seq<u8>, Option<u64>>,
    group: Seq<u8>,
    cursor: u64,
) -> Map<Seq<u8>, Option<u64>> {
    if positions.contains_key(group) {
        positions.insert(group, Some(cursor))
    } else {
        positions
    }
}

/// Every group of `groups`, at cursor zero.
pub open spec fn at_zero(groups: Seq<Vec<u8>>) -> Map<Seq<u8>, Option<u64>> {
    Map::new(
        |group: Seq<u8>| exists|i: int| 0 <= i < groups.len() && #[trigger] groups[i]@ == group,
        |group: Seq<u8>| Some(0u64),
    )
}

/// A set of groups with their positions. No group is in it twice.
#[derive(Debug)]
pub struct GroupList {
    ids: Vec<Vec<u8>>,
    positions: Vec<MessagePosition>,
}

impl View for GroupList {
    type V = Map<Seq<u8>, Option<u64>>;

    closed spec fn view(&self) -> Map<Seq<u8>, Option<u64>> {
        Map::new(
            |group: Seq<u8>| self.holds(group),
            |group: Seq<u8>| self.positions@[self.place(group)]@,
        )
    }
}

impl GroupList {
    spec fn holds(self, group: Seq<u8>) -> bool {
        exists|i: int| 0 <= i < self.ids@.len() && #[trigger] self.ids@[i]@ == group
    }

    spec fn place(self, group: Seq<u8>) -> int {
        choose|i: int| 0 <= i < self.ids@.len() && #[trigger] self.ids@[i]@ == group
    }

    /// The list is well formed.
    pub closed spec fn wf(self) -> bool {
        &&& self.ids@.len() == self.positions@.len()
        &&& forall|i: int, j: int|
            0 <= i < j < self.ids@.len() ==> #[trigger] self.ids@[i]@ != #[trigger] self.ids@[j]@
    }

    proof fn place_is(self, i: int)
        requires
            self.wf(),
            0 <= i < self.ids@.len(),
        ensures
            self.holds(self.ids@[i]@),
            self.place(self.ids@[i]@) == i,
    {
        let p = self.place(self.ids@[i]@);
        assert(self.holds(self.ids@[i]@));
        assert(self.ids@[p]@ == self.ids@[i]@);
    }

    /// No groups.
    pub fn new() -> (list: GroupList)
        ensures
            list.wf(),
            list@ == Map::<Seq<u8>, Option<u64>>::empty(),
    {
        let list = GroupList { ids: Vec::new(), positions: Vec::new() };
        assert(list@ =~= Map::<Seq<u8>, Option<u64>>::empty());
        list
    }

    fn find(&self, group_id: &[u8]) -> (found: Option<usize>)
        requires
            self.wf(),
        ensures
            match found {
                Some(i) => i < self.ids@.len() && self.ids@[i as int]@ == group_id@,
                None => !self.holds(group_id@),
            },
    {
        let mut i: usize = 0;
        while i < self.ids.len()
            invariant
                0 <= i <= self.ids@.len(),
                forall|j: int| 0 <= j < i ==> #[trigger] self.ids@[j]@ != group_id@,
            decreases self.ids@.len() - i,
        {
            if same_bytes(self.ids[i].as_slice(), group_id) {
                return Some(i);
            }
            i = i + 1;
        }
        None
    }

    /// Whether the group is in the list.
    pub fn contains_key(&self, group_id: &[u8]) -> (contained: bool)
        requires
            self.wf(),
        ensures
            contained == self@.contains_key(group_id@),
    {
        match self.find(group_id) {
            Some(i) => {
                proof {
                    self.place_is(i as int);
                }
                true
            },
            None => false,
        }
    }

    /// The position of the group, if it is in the list.
    pub fn get(&self, group_id: &[u8]) -> (position: Option<MessagePosition>)
        requires
            self.wf(),
        ensures
            position is Some <==> self@.contains_key(group_id@),
            position matches Some(p) ==> p@ == self@[group_id@],
    {
        match self.find(group_id) {
            Some(i) => {
                proof {
                    self.place_is(i as int);
                }
                Some(self.positions[i])
            },
            None => None,
        }
    }

    /// Puts the group at `position`, whether or not it was in the list.
    pub fn insert(&mut self, group_id: Vec<u8>, position: MessagePosition)
        requires
            old(self).wf(),
        ensures
            final(self).wf(),
            final(self)@ == old(self)@.insert(group_id@, position@),
    {
        match self.find(group_id.as_slice()) {
            Some(i) => {
                self.positions.set(i, position);
                proof {
                    self.lemma_replaced(*old(self), i as int);
                }
            },
            None => {
                self.ids.push(group_id);
                self.positions.push(position);
                proof {
                    self.lemma_appended(*old(self), group_id, position);
                }
            },
        }
    }

    proof fn lemma_replaced(self, before: GroupList, i: int)
        requires
            before.wf(),
            self.ids == before.ids,
            0 <= i < before.ids@.len(),
            self.positions@ == before.positions@.update(i, self.positions@[i]),
        ensures
            self.wf(),
            self@ == before@.insert(before.ids@[i]@, self.positions@[i]@),
    {
        let group = before.ids@[i]@;
        before.place_is(i);
        self.place_is(i);
        assert forall|g: Seq<u8>| self.holds(g) == before.holds(g) && self.place(g)
            == before.place(g) by {}
        assert forall|g: Seq<u8>| #[trigger] self.holds(g) && g != group implies self.place(g) != i
            && 0 <= self.place(g) < self.ids@.len() by {
            assert(self.ids@[self.place(g)]@ == g);
        }
        assert(self@ =~= before@.insert(group, self.positions@[i]@));
    }

    proof fn lemma_appended(self, before: GroupList, group_id: Vec<u8>, position: MessagePosition)
        requires
            before.wf(),
            !before.holds(group_id@),
            self.ids@ == before.ids@.push(group_id),
            self.positions@ == before.positions@.push(position),
        ensures
            self.wf(),
            self@ == before@.insert(group_id@, position@),
    {
        let n = before.ids@.len() as int;
        assert forall|i: int, j: int| 0 <= i < j < self.ids@.len() implies #[trigger] self.ids@[i]@
            != #[trigger] self.ids@[j]@ by {
            assert(self.ids@[i] == before.ids@[i]);
            if j < n {
                assert(self.ids@[j] == before.ids@[j]);
            }
        }
        self.place_is(n);
        assert forall|g: Seq<u8>| #[trigger] before.holds(g) implies self.holds(g) && self.place(g)
            == before.place(g) && 0 <= before.place(g) < n by {
            let p = before.place(g);
            assert(before.ids@[p]@ == g);
            assert(self.ids@[p]@ == g);
            self.place_is(p);
        }
        assert forall|g: Seq<u8>| #[trigger] self.holds(g) implies before.holds(g) || g
            == group_id@ by {
            let p = self.place(g);
            assert(self.ids@[p]@ == g);
            if p < n {
                assert(before.ids@[p]@ == g);
            }
        }
        assert(self@ =~= before@.insert(group_id@, position@));
    }

    /// Moves the group to `new_cursor`, if it is in the list.
    pub fn set_cursor(&mut self, group_id: &[u8], new_cursor: u64)
        requires
            old(self).wf(),
        ensures
            final(self).wf(),
            final(self)@ == moved(old(self)@, group_id@, new_cursor),
    {
        match self.find(group_id) {
            Some(i) => {
                let mut position: MessagePosition = self.positions[i];
                position.set(new_cursor);
                self.positions.set(i, position);
                proof {
                    old(self).place_is(i as int);
                    self.lemma_replaced(*old(self), i as int);
                }
            },
            None => {},
        }
    }

    /// The groups of the list.
    pub fn group_ids(&self) -> (ids: Vec<Vec<u8>>)
        requires
            self.wf(),
        ensures
            lists_groups(ids@, self@.dom()),
    {
        let mut ids: Vec<Vec<u8>> = Vec::new();
        let mut i: usize = 0;
        while i < self.ids.len()
            invariant
                0 <= i <= self.ids@.len(),
                ids@.len() == i,
                forall|j: int| 0 <= j < i ==> #[trigger] ids@[j]@ == self.ids@[j]@,
            decreases self.ids@.len() - i,
        {
            ids.push(copy_bytes(self.ids[i].as_slice()));
            i = i + 1;
        }
        proof {
            assert forall|j: int| 0 <= j < ids@.len() implies self@.dom().contains(
                #[trigger] ids@[j]@,
            ) by {
                self.place_is(j);
            }
            assert forall|group: Seq<u8>| #[trigger] self@.dom().contains(group) implies exists|
                j: int,
            |
                0 <= j < ids@.len() && #[trigger] ids@[j]@ == group by {
                let p = self.place(group);
                assert(ids@[p]@ == group);
            }
        }
        ids
    }

    /// A filter for each group of the list, from its position on.
    pub fn filters(&self) -> (filters: Vec<GroupFilter>)
        requires
            self.wf(),
        ensures
            lists_filters(filters@, self@),
    {
        let mut filters: Vec<GroupFilter> = Vec::new();
        let mut i: usize = 0;
        while i < self.ids.len()
            invariant
                self.wf(),
                0 <= i <= self.ids@.len(),
                filters@.len() == i,
                forall|j: int|
                    0 <= j < i ==> {
                        &&& #[trigger] filters@[j].group_id@ == self.ids@[j]@
                        &&& filters@[j].id_cursor == Some(pos_of(self.positions@[j]@))
                    },
            decreases self.ids@.len() - i,
        {
            filters.push(
                GroupFilter::new(
                    copy_bytes(self.ids[i].as_slice()),
                    Some(self.positions[i].pos()),
                ),
            );
            i = i + 1;
        }
        proof {
            assert forall|j: int| 0 <= j < filters@.len() implies {
                &&& self@.contains_key(#[trigger] filters@[j].group_id@)
                &&& filters@[j].id_cursor == Some(pos_of(self@[filters@[j].group_id@]))
            } by {
                self.place_is(j);
            }
            assert forall|group: Seq<u8>| #[trigger] self@.contains_key(group) implies exists|
                j: int,
            |
                0 <= j < filters@.len() && #[trigger] filters@[j].group_id@ == group by {
                let p = self.place(group);
                assert(filters@[p].group_id@ == group);
            }
        }
        filters
    }

    /// Every group of `groups`, at cursor zero.
    pub fn following(groups: Vec<Vec<u8>>) -> (list: GroupList)
        ensures
            list.wf(),
            list@ == at_zero(groups@),
    {
        let mut list = GroupList::new();
        let mut i: usize = 0;
        while i < groups.len()
            invariant
                list.wf(),
                0 <= i <= groups@.len(),
                list@ == at_zero(groups@.take(i as int)),
            decreases groups@.len() - i,
        {
            let group_id = copy_bytes(groups[i].as_slice());
            list.insert(group_id, MessagePosition::from(0u64));
            proof {
                let done = groups@.take(i as int);
                let more = groups@.take(i + 1);
                assert(more[i as int]@ == group_id@);
                assert forall|g: Seq<u8>| #[trigger] at_zero(done).contains_key(g) implies at_zero(
                    more,
                ).contains_key(g) by {
                    let j = choose|j: int| 0 <= j < done.len() && #[trigger] done[j]@ == g;
                    assert(more[j]@ == g);
                }
                assert forall|g: Seq<u8>| #[trigger] at_zero(more).contains_key(g) implies at_zero(
                    done,
                ).contains_key(g) || g == group_id@ by {
                    let j = choose|j: int| 0 <= j < more.len() && #[trigger] more[j]@ == g;
                    if j < i {
                        assert(done[j]@ == g);
                    }
                }
                assert(list@ =~= at_zero(more));
            }
            i = i + 1;
        }
        assert(groups@.take(groups@.len() as int) =~= groups@);
        list
    }
}

} // verus!
