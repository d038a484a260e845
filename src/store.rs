//! A store of records keyed by a sixteen-byte identifier, each with an
//! expiry time. Lookups never return an expired record, and `take` reads and
//! deletes a record in one step.
use vstd::prelude::*;
use crate::ids::same_id;

verus! {

/// A record with an identifier and an expiry time (seconds since the epoch).
pub trait Expiring {
    spec fn key(&self) -> Seq<u8>;

    spec fn expiry(&self) -> int;

    fn record_id(&self) -> (r: [u8; 16])
        ensures
            r@ == self.key(),
    ;

    fn expires_at(&self) -> (r: i64)
        ensures
            r as int == self.expiry(),
    ;
}

pub open spec fn unique_keys<R: Expiring>(s: Seq<R>) -> bool {
    forall|i: int, j: int|
        0 <= i < s.len() && 0 <= j < s.len() && #[trigger] s[i].key() == #[trigger] s[j].key() ==> i
            == j
}

pub open spec fn has_key<R: Expiring>(s: Seq<R>, id: Seq<u8>) -> bool {
    exists|i: int| 0 <= i < s.len() && #[trigger] s[i].key() == id
}

pub open spec fn index_of<R: Expiring>(s: Seq<R>, id: Seq<u8>) -> int {
    choose|i: int| 0 <= i < s.len() && #[trigger] s[i].key() == id
}

/// The record stored under `id`, expired or not.
pub open spec fn record_of<R: Expiring>(s: Seq<R>, id: Seq<u8>) -> Option<R> {
    if has_key(s, id) {
        Some(s[index_of(s, id)])
    } else {
        None
    }
}

/// A record is live at `now` until its expiry time has passed.
pub open spec fn is_live<R: Expiring>(r: R, now: int) -> bool {
    now <= r.expiry()
}

/// The record stored under `id` if it is live at `now`.
pub open spec fn live_record_of<R: Expiring>(s: Seq<R>, id: Seq<u8>, now: int) -> Option<R> {
    match record_of(s, id) {
        Some(r) => if is_live(r, now) { Some(r) } else { None },
        None => None,
    }
}

pub struct Store<R> {
    records: Vec<R>,
}

impl<R: Expiring> View for Store<R> {
    type V = Seq<R>;

    closed spec fn view(&self) -> Seq<R> {
        self.records@
    }
}

proof fn lemma_index_of<R: Expiring>(s: Seq<R>, i: int)
    requires
        unique_keys(s),
        0 <= i < s.len(),
    ensures
        has_key(s, s[i].key()),
        index_of(s, s[i].key()) == i,
        record_of(s, s[i].key()) == Some(s[i]),
{
    assert(has_key(s, s[i].key()));
    let j = index_of(s, s[i].key());
    assert(s[j].key() == s[i].key());
}

impl<R: Expiring> Store<R> {
    /// Identifiers are unique in the store.
    pub open spec fn wf(&self) -> bool {
        unique_keys(self@)
    }

    /// An empty store.
    pub fn new() -> (r: Self)
        ensures
            r@ == Seq::<R>::empty(),
            r.wf(),
    {
        Store { records: Vec::new() }
    }

    fn position(&self, id: &[u8; 16]) -> (r: Option<usize>)
        requires
            self.wf(),
        ensures
            r is None <==> !has_key(self@, id@),
            r matches Some(i) ==> i < self@.len() && i as int == index_of(self@, id@)
                && self@[i as int].key() == id@,
    {
        let mut i: usize = 0;
        while i < self.records.len()
            invariant
                i <= self.records.len(),
                self.wf(),
                forall|j: int| 0 <= j < i ==> #[trigger] self.records@[j].key() != id@,
            decreases self.records.len() - i,
        {
            let rid = self.records[i].record_id();
            if same_id(&rid, id) {
                proof {
                    lemma_index_of(self@, i as int);
                }
                return Some(i);
            }
            i = i + 1;
        }
        None
    }

    /// Adds a record; refused (`false`, store unchanged) where its
    /// identifier is already present.
    pub fn insert(&mut self, rec: R) -> (r: bool)
        requires
            old(self).wf(),
        ensures
            final(self).wf(),
            r == !has_key(old(self)@, rec.key()),
            r ==> final(self)@ == old(self)@.push(rec),
            !r ==> final(self)@ == old(self)@,
    {
        let id = rec.record_id();
        match self.position(&id) {
            Some(_) => false,
            None => {
                self.records.push(rec);
                proof {
                    let s = self@;
                    assert forall|i: int, j: int|
                        0 <= i < s.len() && 0 <= j < s.len() && #[trigger] s[i].key()
                            == #[trigger] s[j].key() implies i == j by {
                        if i < s.len() - 1 && j == s.len() - 1 {
                            assert(old(self)@[i].key() == id@);
                        }
                        if j < s.len() - 1 && i == s.len() - 1 {
                            assert(old(self)@[j].key() == id@);
                        }
                    }
                }
                true
            },
        }
    }

    /// The record under `id`, if it is present and live at `now`.
    pub fn get(&self, id: &[u8; 16], now: i64) -> (r: Option<&R>)
        requires
            self.wf(),
        ensures
            match r {
                Some(x) => live_record_of(self@, id@, now as int) == Some(*x),
                None => live_record_of(self@, id@, now as int) is None,
            },
    {
        match self.position(id) {
            Some(i) => {
                proof {
                    lemma_index_of(self@, i as int);
                }
                let rec = &self.records[i];
                if now <= rec.expires_at() {
                    Some(rec)
                } else {
                    None
                }
            },
            None => None,
        }
    }

    /// Removes the record under `id`, if any, and returns it. Removing an
    /// absent identifier changes nothing.
    pub fn remove(&mut self, id: &[u8; 16]) -> (r: Option<R>)
        requires
            old(self).wf(),
        ensures
            final(self).wf(),
            r == record_of(old(self)@, id@),
            r is None ==> final(self)@ == old(self)@,
            r is Some ==> final(self)@ == old(self)@.remove(index_of(old(self)@, id@)),
            !has_key(final(self)@, id@),
            forall|k: Seq<u8>| k != id@ ==> record_of(final(self)@, k) == record_of(old(self)@, k),
    {
        match self.position(id) {
            Some(i) => {
                proof {
                    lemma_index_of(self@, i as int);
                }
                let rec = self.records.remove(i);
                proof {
                    let o = old(self)@;
                    let s = self@;
                    assert forall|a: int, b: int|
                        0 <= a < s.len() && 0 <= b < s.len() && #[trigger] s[a].key()
                            == #[trigger] s[b].key() implies a == b by {
                        let a2 = if a < i { a } else { a + 1 };
                        let b2 = if b < i { b } else { b + 1 };
                        assert(o[a2].key() == o[b2].key());
                    }
                    assert forall|k: Seq<u8>| k != id@ implies record_of(s, k) == record_of(o, k) by {
                        if has_key(o, k) {
                            let j = index_of(o, k);
                            assert(j != i);
                            let j2 = if j < i { j } else { j - 1 };
                            assert(s[j2] == o[j]);
                            lemma_index_of(s, j2);
                        }
                        if has_key(s, k) {
                            let j = index_of(s, k);
                            let j2 = if j < i { j } else { j + 1 };
                            assert(o[j2].key() == k);
                        }
                    }
                    if has_key(s, id@) {
                        let j = index_of(s, id@);
                        let j2 = if j < i { j } else { j + 1 };
                        assert(o[j2].key() == id@);
                    }
                }
                Some(rec)
            },
            None => None,
        }
    }

    /// Reads and deletes, in one step, the record under `id` if it is live
    /// at `now`; otherwise changes nothing.
    pub fn take_if_live(&mut self, id: &[u8; 16], now: i64) -> (r: Option<R>)
        requires
            old(self).wf(),
        ensures
            final(self).wf(),
            r == live_record_of(old(self)@, id@, now as int),
            r is None ==> final(self)@ == old(self)@,
            r is Some ==> final(self)@ == old(self)@.remove(index_of(old(self)@, id@)),
            r is Some ==> !has_key(final(self)@, id@),
    {
        match self.get(id, now) {
            Some(_) => self.remove(id),
            None => None,
        }
    }

    /// Deletes every record whose expiry time is before `now`.
    pub fn clear_expired(&mut self, now: i64)
        requires
            old(self).wf(),
        ensures
            final(self).wf(),
            final(self)@ == old(self)@.filter(|x: R| is_live(x, now as int)),
    {
        let ghost o = self@;
        let ghost p = |x: R| is_live(x, now as int);
        let mut i: usize = 0;
        let ghost mut k: int = 0;
        proof {
            reveal(Seq::filter);
            assert(o.take(0).filter(p) =~= Seq::<R>::empty());
            assert(self@.take(0) =~= Seq::<R>::empty());
            assert(self@.skip(0) =~= o.skip(0));
        }
        while i < self.records.len()
            invariant
                0 <= i <= k <= o.len(),
                i <= self.records.len(),
                self@.take(i as int) == o.take(k).filter(p),
                self@.skip(i as int) == o.skip(k),
                unique_keys(self@),
                p == (|x: R| is_live(x, now as int)),
            decreases self.records.len() - i,
        {
            let ghost before = self@;
            proof {
                assert(self@.skip(i as int).len() == o.skip(k).len());
                assert(k < o.len());
                assert(before[i as int] == o.skip(k)[0]);
                assert(o[k] == before[i as int]);
                reveal(Seq::filter);
                assert(o.take(k + 1).drop_last() =~= o.take(k));
                assert(o.take(k + 1).last() == o[k]);
                assert forall|j: int| 0 <= j < before.len() - (i + 1) implies #[trigger] before.skip(i + 1)[j] == o.skip(k + 1)[j] by {
                    assert(before.skip(i as int)[j + 1] == o.skip(k)[j + 1]);
                }
                assert(before.skip(i + 1) =~= o.skip(k + 1));
            }
            if self.records[i].expires_at() < now {
                self.records.remove(i);
                proof {
                    let s = self@;
                    assert(s.take(i as int) =~= before.take(i as int));
                    assert(s.skip(i as int) =~= o.skip(k + 1));
                    assert forall|a: int, b: int|
                        0 <= a < s.len() && 0 <= b < s.len() && #[trigger] s[a].key()
                            == #[trigger] s[b].key() implies a == b by {
                        let a2 = if a < i { a } else { a + 1 };
                        let b2 = if b < i { b } else { b + 1 };
                        assert(before[a2].key() == before[b2].key());
                    }
                    k = k + 1;
                }
            } else {
                proof {
                    assert(self@.take(i + 1) =~= before.take(i as int).push(before[i as int]));
                    assert(self@.skip(i + 1) =~= o.skip(k + 1));
                    k = k + 1;
                }
                i = i + 1;
            }
        }
        proof {
            assert(o.skip(k).len() == 0);
            assert(k == o.len());
            assert(o.take(k) =~= o);
            assert(self@.take(i as int) =~= self@);
        }
    }
}

/// A record whose expiry time has passed is never returned by a lookup,
/// even while it is still stored.
pub proof fn lemma_expired_never_live<R: Expiring>(s: Seq<R>, id: Seq<u8>, now: int)
    ensures
        live_record_of(s, id, now) matches Some(x) ==> now <= x.expiry(),
        record_of(s, id) matches Some(x) && x.expiry() < now ==> live_record_of(s, id, now) is None,
{
}

/// After a record is added to a store, a lookup finds it while it is live;
/// after it is taken out, no lookup finds it any more.
pub proof fn lemma_added_then_taken<R: Expiring>(s: Seq<R>, x: R, now: int, later: int)
    requires
        unique_keys(s),
        !has_key(s, x.key()),
        is_live(x, now),
    ensures
        unique_keys(s.push(x)),
        live_record_of(s.push(x), x.key(), now) == Some(x),
        !has_key(s.push(x).remove(index_of(s.push(x), x.key())), x.key()),
        live_record_of(s.push(x).remove(index_of(s.push(x), x.key())), x.key(), later) is None,
{
    let s1 = s.push(x);
    assert forall|i: int, j: int|
        0 <= i < s1.len() && 0 <= j < s1.len() && #[trigger] s1[i].key() == #[trigger] s1[j].key() implies i == j by {
        if i < s.len() && j == s.len() {
            assert(s[i].key() == x.key());
        }
        if j < s.len() && i == s.len() {
            assert(s[j].key() == x.key());
        }
    }
    lemma_index_of(s1, s.len() as int);
    let s2 = s1.remove(s.len() as int);
    assert(s2 =~= s);
}

} // verus!
