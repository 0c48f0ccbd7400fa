use vstd::prelude::*;

verus! {

/// A versioned Id.
/// This is used to identify resources used by processes and the kernel, such as processes
/// themselves, open files, Etc.
/// Versioning is implemented so resources can be efficiently indexed.
#[derive(Clone, Copy, Debug, PartialEq, Eq, Structural)]
pub struct Id(u16, u16);

impl Id {
    /// The number part of this id.
    pub closed spec fn num(self) -> u16 {
        self.0
    }

    /// The version part of this id.
    pub closed spec fn ver(self) -> u16 {
        self.1
    }

    /// Two ids are the same exactly when their numbers and versions agree.
    pub broadcast proof fn lemma_id_ext(a: Id, b: Id)
        ensures
            #![trigger a.num(), b.num(), a.ver(), b.ver()]
            (a == b) <==> (a.num() == b.num() && a.ver() == b.ver()),
    {
    }

    pub fn new(number: u16) -> (id: Self)
        ensures
            id.num() == number,
            id.ver() == 0,
    {
        Self(number, 0)
    }

    pub fn number(&self) -> (n: u16)
        ensures
            n == self.num(),
    {
        self.0
    }

    pub fn version(&self) -> (v: u16)
        ensures
            v == self.ver(),
    {
        self.1
    }

    pub fn increment_version(&mut self)
        ensures
            final(self).num() == old(self).num(),
            final(self).ver() == (if old(self).ver() == u16::MAX { 0 } else { old(self).ver() + 1 }),
    {
        // Wraps around to prevent panicing
        self.1 = self.1.wrapping_add(1)
    }

    /// Packs this id into an `i32`: the number in the low 16 bits, the version in the high
    /// 16 bits.
    pub fn as_i32(&self) -> (r: i32)
        ensures
            r == pack_id(self.num(), self.ver()),
    {
        let n: u16 = self.0;
        let v: u16 = self.1;
        let r: i32 = n as i32 | (v as i32) << 16;
        proof {
            lemma_pack_bits(n, v);
        }
        r
    }

    /// Unpacks an id from the layout written by [`Id::as_i32`].
    pub fn from_i32(number: i32) -> (id: Self)
        ensures
            id.num() == number as u16,
            id.ver() == (number >> 16i32) as u16,
    {
        Self(number as u16, (number >> 16) as u16)
    }
}

impl Default for Id {
    /// The universally invalid id: number 0, version 0.
    fn default() -> (id: Self)
        ensures
            id.num() == 0,
            id.ver() == 0,
    {
        Self(0, 0)
    }
}

/// Law: unpacking the `i32` form of an id gives the id back.
pub proof fn lemma_from_i32_inverts_as_i32(number: u16, version: u16)
    ensures
        pack_id(number, version) as u16 == number,
        (pack_id(number, version) >> 16i32) as u16 == version,
{
    assert(((number + version * 0x10000) as i32) as u16 == number) by (bit_vector);
    assert((((number + version * 0x10000) as i32) >> 16i32) as u16 == version) by (bit_vector);
}

/// Law: packing the parts unpacked from an `i32` gives the same `i32` back.
pub proof fn lemma_as_i32_inverts_from_i32(x: i32)
    ensures
        pack_id(x as u16, (x >> 16i32) as u16) == x,
{
    assert(((x as u16) + ((x >> 16i32) as u16) * 0x10000) as i32 == x) by (bit_vector);
}

/// A version incremented with wrap-around.
pub open spec fn wrapping_inc(v: u16) -> u16 {
    if v == u16::MAX { 0 } else { (v + 1) as u16 }
}

/// The `i32` layout of an id: number in the low half, version in the high half.
pub open spec fn pack_id(number: u16, version: u16) -> i32 {
    (number as int + version as int * 0x10000) as i32
}

proof fn lemma_pack_bits(n: u16, v: u16)
    ensures
        (n as i32 | (v as i32) << 16) == pack_id(n, v),
{
    assert((n as i32 | (v as i32) << 16) == (n + v * 0x10000) as i32) by (bit_vector);
}


/// An IdStore is used to associate data with versioned Ids.
/// Ids always start at 1, so that 0 can represent a universally invalid id.
pub struct IdStore<T> {
    /// Dense Mapping of ids back to the array of live ids
    dense_array: Vec<(usize, Option<T>)>,
    /// The array of live and dead ids
    ids: Vec<Id>,
    /// How many live ids there are.
    /// This is also the index of the first dead id.
    live_count: usize,
    /// The next id number to be created when there are no more ids to recycle
    next_id: u16,
}

impl<T> IdStore<T> {
    /// The store's internal consistency: every number that was ever issued has exactly one
    /// position in `ids`, the dense array maps each number back to that position, the live ids
    /// come first, and exactly the live ids carry data.
    pub closed spec fn wf(&self) -> bool {
        &&& self.ids@.len() == self.dense_array@.len()
        &&& self.ids@.len() == self.next_id as int
        &&& self.live_count <= self.ids@.len()
        &&& forall|p: int|
            #![trigger self.ids@[p]]
            0 <= p < self.ids@.len() ==> {
                &&& 1 <= self.ids@[p].num() <= self.next_id
                &&& self.dense_array@[self.ids@[p].num() - 1].0 == p
                &&& (self.dense_array@[self.ids@[p].num() - 1].1 is Some <==> p < self.live_count)
            }
        &&& forall|k: int|
            #![trigger self.dense_array@[k]]
            0 <= k < self.dense_array@.len() ==> {
                &&& self.dense_array@[k].0 < self.ids@.len()
                &&& self.ids@[self.dense_array@[k].0 as int].num() == k + 1
            }
    }

    /// The number of live ids.
    pub closed spec fn live_len(&self) -> nat {
        self.live_count as nat
    }

    /// The number of id numbers issued so far.
    pub closed spec fn issued(&self) -> nat {
        self.next_id as nat
    }

    /// Whether `id` is live: its number was issued, its position is among the live ones and
    /// the id there has the same version.
    pub closed spec fn valid_id(&self, id: Id) -> bool {
        &&& 1 <= id.num() <= self.dense_array@.len()
        &&& self.dense_array@[id.num() - 1].0 < self.live_count
        &&& self.ids@[self.dense_array@[id.num() - 1].0 as int] == id
    }

    /// The id most recently issued with the number `n`, live or deleted.
    pub closed spec fn latest(&self, n: u16) -> Id {
        self.ids@[self.dense_array@[n - 1].0 as int]
    }

    /// The deleted ids, in the order `new_id` recycles them: the most recently deleted first.
    pub closed spec fn dead(&self) -> Seq<Id> {
        self.ids@.subrange(self.live_count as int, self.ids@.len() as int)
    }

    /// The deleted id that the next `new_id` recycles, when one exists.
    pub closed spec fn next_recycled(&self) -> Id {
        self.ids@[self.live_count as int]
    }
}

impl<T> View for IdStore<T> {
    type V = Map<Id, T>;

    /// The live ids and the data associated with each.
    closed spec fn view(&self) -> Map<Id, T> {
        Map::new(|id: Id| self.valid_id(id), |id: Id| self.dense_array@[id.num() - 1].1->0)
    }
}

/// The data associated with `id` when it is live.
pub open spec fn data_for<T>(m: Map<Id, T>, id: Id) -> Option<T> {
    if m.contains_key(id) {
        Some(m[id])
    } else {
        None
    }
}

impl<T> IdStore<T> {
    proof fn lemma_numbers_distinct(&self, p: int, q: int)
        requires
            self.wf(),
            0 <= p < self.ids@.len(),
            0 <= q < self.ids@.len(),
            p != q,
        ensures
            self.ids@[p].num() != self.ids@[q].num(),
    {
    }

    /// No more ids are live than numbers were issued.
    pub(crate) proof fn lemma_live_within_issued(&self)
        requires
            self.wf(),
        ensures
            self.live_len() <= self.issued(),
    {
    }

    /// Law: the numbers issued are split between the live ids and the deleted ones; the next
    /// id recycled is the first deleted one, and no deleted id is live.
    pub proof fn lemma_dead_order(&self)
        requires
            self.wf(),
        ensures
            self.dead().len() == self.issued() - self.live_len(),
            self.dead().len() > 0 ==> self.dead()[0] == self.next_recycled(),
            forall|k: int| 0 <= k < self.dead().len() ==> !self@.contains_key(#[trigger] self.dead()[k]),
    {
        assert forall|k: int| 0 <= k < self.dead().len() implies !self@.contains_key(#[trigger] self.dead()[k]) by {
            let p = self.live_count + k;
            assert(self.dead()[k] == self.ids@[p]);
        }
    }

    /// Law: a live id is the latest one issued with its number.
    pub proof fn lemma_valid_is_latest(&self, id: Id)
        requires
            self.wf(),
            self@.contains_key(id),
        ensures
            self.latest(id.num()) == id,
    {
    }

    /// Law: no two live ids share a number.
    pub proof fn lemma_live_numbers_unique(&self, a: Id, b: Id)
        requires
            self.wf(),
            self@.contains_key(a),
            self@.contains_key(b),
            a.num() == b.num(),
        ensures
            a == b,
    {
    }

    /// Law: only a live id reaches data, and it reaches the data stored under it; a deleted
    /// id reaches nothing, even when its number was given again to a newer id.
    pub proof fn lemma_data_of_live_id(&self, id: Id)
        requires
            self.wf(),
        ensures
            self@.contains_key(id) ==> data_for(self@, id) == Some(self@[id]),
            !self@.contains_key(id) ==> data_for(self@, id) is None,
    {
    }

    /// Law: an id whose number has not been issued yet is not live.
    pub proof fn lemma_unissued_is_never_valid(&self, id: Id)
        requires
            self.wf(),
            id.num() > self.issued(),
        ensures
            !self@.contains_key(id),
    {
    }

    /// Law: when some issued number is free, the id that `new_id` recycles is a deleted one:
    /// it is not live, and it is the latest id with its number, so the id made from it by
    /// incrementing its version differs from it.
    pub proof fn lemma_recycled_is_dead(&self)
        requires
            self.wf(),
            self.live_len() < self.issued(),
        ensures
            !self@.contains_key(self.next_recycled()),
            1 <= self.next_recycled().num() <= self.issued(),
            self.latest(self.next_recycled().num()) == self.next_recycled(),
    {
    }

    /// Law: the id number 0 is never live.
    pub proof fn lemma_zero_is_never_valid(&self, id: Id)
        requires
            self.wf(),
            id.num() == 0,
        ensures
            !self@.contains_key(id),
    {
    }

    pub fn new() -> (store: Self)
        ensures
            store.wf(),
            store@ == Map::<Id, T>::empty(),
            store.live_len() == 0,
            store.issued() == 0,
            store.dead() == Seq::<Id>::empty(),
    {
        let store = Self {
            dense_array: Vec::with_capacity(32),
            ids: Vec::with_capacity(32),
            live_count: 0,
            next_id: 0,
        };
        assert(store@ =~= Map::<Id, T>::empty());
        assert(store.dead() =~= Seq::<Id>::empty());
        store
    }
}

impl<T> IdStore<T> {
    /// Associates an item with a new id.
    /// A dead id is recycled with its version incremented when one exists; otherwise a new
    /// number is issued.
    pub fn new_id(&mut self, item: T) -> (id: Id)
        requires
            old(self).wf(),
            old(self).live_len() < u16::MAX,
        ensures
            final(self).wf(),
            1 <= id.num() <= final(self).issued(),
            !old(self)@.contains_key(id),
            forall|c: Id| #[trigger] old(self)@.contains_key(c) ==> c.num() != id.num(),
            final(self)@ == old(self)@.insert(id, item),
            final(self).live_len() == old(self).live_len() + 1,
            old(self).live_len() < old(self).issued() ==> {
                &&& final(self).issued() == old(self).issued()
                &&& id.num() == old(self).next_recycled().num()
                &&& id.ver() == wrapping_inc(old(self).next_recycled().ver())
                &&& old(self).latest(id.num()) == old(self).next_recycled()
            },
            old(self).live_len() == old(self).issued() ==> {
                &&& final(self).issued() == old(self).issued() + 1
                &&& id.num() == old(self).issued() + 1
                &&& id.ver() == 0
            },
            final(self).latest(id.num()) == id,
            forall|n: u16| 1 <= n <= old(self).issued() && n != id.num() ==>
                #[trigger] final(self).latest(n) == old(self).latest(n),
            final(self).dead() == (if old(self).dead().len() > 0 {
                old(self).dead().drop_first()
            } else {
                old(self).dead()
            }),
    {
        if self.live_count == self.ids.len() {
            self.make_new_id(item)
        } else {
            // Recycle id
            broadcast use Id::lemma_id_ext;
            let ghost old_self = *self;
            let pos = self.live_count;
            let mut id = self.ids[pos];
            id.increment_version();
            self.ids.set(pos, id);
            let n = id.number() as usize - 1;
            assert(old_self.dense_array@[n as int].0 == pos);
            self.dense_array.set(n, (pos, Some(item)));
            self.live_count = self.live_count + 1;
            proof {
                assert forall|p: int| 0 <= p < old_self.ids@.len() && p != pos implies
                    #[trigger] old_self.ids@[p].num() != id.num() by {
                    old_self.lemma_numbers_distinct(p, pos as int);
                }
                assert(self.wf());
                assert forall|x: Id| #[trigger] self.valid_id(x) <==> (old_self.valid_id(x) || x == id) by {
                    if 1 <= x.num() <= self.dense_array@.len() && x.num() != id.num() {
                        let q = old_self.dense_array@[x.num() - 1].0 as int;
                        assert(old_self.ids@[q].num() == x.num());
                    }
                }
                assert(!old_self.valid_id(id));
                assert(self@ =~= old_self@.insert(id, item));
                assert(self.dead() =~= old_self.dead().drop_first());
            }
            id
        }
    }

    fn make_new_id(&mut self, item: T) -> (id: Id)
        requires
            old(self).wf(),
            old(self).live_len() < u16::MAX,
            old(self).live_count == old(self).ids@.len(),
        ensures
            final(self).wf(),
            1 <= id.num(),
            !old(self)@.contains_key(id),
            forall|c: Id| #[trigger] old(self)@.contains_key(c) ==> c.num() != id.num(),
            final(self)@ == old(self)@.insert(id, item),
            final(self).live_len() == old(self).live_len() + 1,
            final(self).issued() == old(self).issued() + 1,
            id.num() == old(self).issued() + 1,
            id.ver() == 0,
            final(self).latest(id.num()) == id,
            forall|n: u16| 1 <= n <= old(self).issued() ==>
                #[trigger] final(self).latest(n) == old(self).latest(n),
            final(self).dead() == Seq::<Id>::empty(),
            old(self).dead() == Seq::<Id>::empty(),
    {
        broadcast use Id::lemma_id_ext;
        let ghost old_self = *self;
        assert(old_self.dead() =~= Seq::<Id>::empty());
        self.next_id = self.next_id + 1;
        let id = Id::new(self.next_id);
        self.ids.push(id);
        self.dense_array.push((self.ids.len() - 1, Some(item)));
        self.live_count = self.live_count + 1;
        proof {
            assert forall|x: Id| #[trigger] self.valid_id(x) <==> (old_self.valid_id(x) || x == id) by {
                if 1 <= x.num() <= old_self.dense_array@.len() {
                    assert(self.dense_array@[x.num() - 1] == old_self.dense_array@[x.num() - 1]);
                }
            }
            assert(self@ =~= old_self@.insert(id, item));
            assert(self.dead() =~= Seq::<Id>::empty());
        }
        id
    }

    /// Gets the data associated with this Id.
    /// An id that is not live (deleted, not yet created, or of another version) has none.
    pub fn data(&self, id: Id) -> (r: Option<&T>)
        requires
            self.wf(),
        ensures
            r is Some <==> self@.contains_key(id),
            r is Some ==> *r->0 == self@[id],
    {
        if !self.id_is_valid(id) {
            return None;
        }
        let n = id.number() as usize;
        self.dense_array[n - 1].1.as_ref()
    }

    /// Mutably gets the data associated with this Id.
    /// An id that is not live (deleted, not yet created, or of another version) has none.
    pub fn data_mut(&mut self, id: Id) -> (r: Option<&mut T>)
        requires
            old(self).wf(),
        ensures
            r is Some <==> old(self)@.contains_key(id),
            r is None ==> final(self)@ == old(self)@,
            r is Some ==> *r.unwrap() == old(self)@[id],
            r is Some ==> final(self)@ == old(self)@.insert(id, *final(r.unwrap())),
            final(self).wf(),
            final(self).live_len() == old(self).live_len(),
            final(self).issued() == old(self).issued(),
    {
        if !self.id_is_valid(id) {
            return None;
        }
        let ghost old_self = *self;
        let n = id.number() as usize;
        let entry = &mut self.dense_array[n - 1];
        let r = entry.1.as_mut();
        r
    }

    /// The position in `ids` recorded for the number of `id`; `None` for a number that was never
    /// issued, 0 included.
    fn get_dense_index(&self, id: Id) -> (r: Option<usize>)
        requires
            self.wf(),
        ensures
            r is Some <==> 1 <= id.num() <= self.issued(),
            r is Some ==> r->0 == self.dense_array@[id.num() - 1].0,
            r is Some ==> r->0 < self.ids@.len(),
    {
        let n = id.number() as usize;
        if n == 0 || n > self.dense_array.len() {
            return None;
        }
        Some(self.dense_array[n - 1].0)
    }

    /// How many ids are live.
    pub fn live_count(&self) -> (n: usize)
        ensures
            n == self.live_len(),
    {
        self.live_count
    }

    /// Checks if the id is still valid.
    /// An id is invalid if it is deleted, not yet created, or has a different version number.
    pub fn id_is_valid(&self, id: Id) -> (r: bool)
        requires
            self.wf(),
        ensures
            r == self@.contains_key(id),
    {
        let index = match self.get_dense_index(id) {
            Some(index) => index,
            None => return false,
        };

        if index >= self.live_count {
            return false;
        }

        id == self.ids[index]
    }

    /// Removes the data stored under the number of `id`.
    fn delete_data(&mut self, id: Id)
        requires
            1 <= id.num() <= old(self).dense_array@.len(),
        ensures
            final(self).dense_array@ == old(self).dense_array@.update(
                id.num() - 1,
                (old(self).dense_array@[id.num() - 1].0, None),
            ),
            final(self).ids == old(self).ids,
            final(self).live_count == old(self).live_count,
            final(self).next_id == old(self).next_id,
    {
        let n = id.number() as usize;
        let pair = &mut self.dense_array[n - 1];
        pair.1 = None;
    }

    /// Attempts to delete the given id.
    /// Returns false if the id is not valid.
    pub fn delete_id(&mut self, id: Id) -> (r: bool)
        requires
            old(self).wf(),
        ensures
            final(self).wf(),
            r == old(self)@.contains_key(id),
            final(self)@ == old(self)@.remove(id),
            final(self).live_len() == (if r { old(self).live_len() - 1 } else { old(self).live_len() as int }),
            final(self).issued() == old(self).issued(),
            forall|n: u16| 1 <= n <= old(self).issued() ==>
                #[trigger] final(self).latest(n) == old(self).latest(n),
            r ==> final(self).next_recycled() == id,
            r ==> final(self).dead() == seq![id] + old(self).dead(),
            !r ==> final(self).dead() == old(self).dead(),
    {
        if !self.id_is_valid(id) {
            proof {
                assert(self@.remove(id) =~= self@);
            }
            return false;
        }
        broadcast use Id::lemma_id_ext;
        let ghost old_self = *self;

        let index = self.get_dense_index(id).unwrap();
        self.delete_data(id);
        let last_live_index = self.live_count - 1;

        // Swap the deleted id with the last live one, keeping the dense mapping in step.
        let deleted = self.ids[index];
        let moved = self.ids[last_live_index];
        self.ids.set(index, moved);
        self.ids.set(last_live_index, deleted);
        let moved_n = moved.number() as usize;
        let moved_entry = &mut self.dense_array[moved_n - 1];
        moved_entry.0 = index;
        let deleted_n = deleted.number() as usize;
        let deleted_entry = &mut self.dense_array[deleted_n - 1];
        deleted_entry.0 = last_live_index;
        self.live_count = self.live_count - 1;

        proof {
            assert(deleted == id);
            assert forall|p: int| 0 <= p < old_self.ids@.len() && p != index implies
                #[trigger] old_self.ids@[p].num() != id.num() by {
                old_self.lemma_numbers_distinct(p, index as int);
            }
            assert forall|p: int| 0 <= p < old_self.ids@.len() && p != last_live_index implies
                #[trigger] old_self.ids@[p].num() != moved.num() by {
                old_self.lemma_numbers_distinct(p, last_live_index as int);
            }
            assert(self.wf());
            assert forall|x: Id| #[trigger] self.valid_id(x) <==> (old_self.valid_id(x) && x != id) by {
                if 1 <= x.num() <= self.dense_array@.len() && x.num() != id.num() && x.num() != moved.num() {
                    let q = old_self.dense_array@[x.num() - 1].0 as int;
                    assert(old_self.ids@[q].num() == x.num());
                }
            }
            assert(self@ =~= old_self@.remove(id));
            assert(self.dead() =~= seq![id] + old_self.dead());
        }
        true
    }
}

} // verus!