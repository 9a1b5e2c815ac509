//! A bounded, best-match resource pool.
//!
//! Expensive render objects are parked here while idle and handed back out
//! to the best-matching request instead of being recreated every frame.
//! An instance is either idle in the pool or checked out inside exactly one
//! `PoolEntry`; a checked-out instance is never handed out twice and never
//! evicted.  Releasing into a full pool evicts the oldest idle instance.

use vstd::prelude::*;

verus! {

/// How a caller asks the pool for a resource.
///
/// `distance` grades an existing idle instance: `None` means incompatible,
/// lower is better, and zero is a perfect match that ends the search.
/// `prepare` adjusts a reused instance in place before it is handed out.
/// `create` builds a fresh instance on a pool miss; it may fail and may
/// depend on outside state, so nothing is promised of its result.
pub trait PoolRequest: Sized {
    type Item;

    type Error;

    spec fn distance_spec(&self, item: Self::Item) -> Option<u64>;

    spec fn prepare_spec(&self, item: Self::Item) -> Self::Item;

    fn distance(&self, item: &Self::Item) -> (r: Option<u64>)
        ensures
            r == self.distance_spec(*item),
    ;

    fn prepare(&self, item: &mut Self::Item)
        ensures
            *final(item) == self.prepare_spec(*old(item)),
    ;

    fn create(&self) -> Result<Self::Item, Self::Error>;
}

/// Whether any idle instance is compatible with the request.
pub open spec fn some_match<R: PoolRequest>(request: R, items: Seq<R::Item>) -> bool {
    exists|i: int| 0 <= i < items.len() && request.distance_spec(items[i]) is Some
}

/// Whether index `i` holds the instance the scan picks: compatible, of
/// minimal distance, and the earliest index achieving that distance.
pub open spec fn is_best_match<R: PoolRequest>(request: R, items: Seq<R::Item>, i: int) -> bool {
    &&& 0 <= i < items.len()
    &&& request.distance_spec(items[i]) is Some
    &&& forall|j: int|
        0 <= j < items.len() && #[trigger] request.distance_spec(items[j]) is Some
            ==> request.distance_spec(items[i])->0 <= request.distance_spec(items[j])->0
    &&& forall|j: int|
        0 <= j < i && #[trigger] request.distance_spec(items[j]) is Some ==> request.distance_spec(
            items[i],
        )->0 < request.distance_spec(items[j])->0
}

/// What releasing an instance does to the idle sequence: append it, after
/// evicting the oldest idle instance if the pool is already full.
pub open spec fn release_model<T>(items: Seq<T>, value: T, cap: nat) -> Seq<T> {
    if items.len() >= cap && items.len() > 0 {
        items.drop_first().push(value)
    } else {
        items.push(value)
    }
}

/// An exclusively owned, checked-out instance.  Its value returns to the
/// pool only through `Pool::release`.
pub struct PoolEntry<T> {
    value: T,
}

impl<T> View for PoolEntry<T> {
    type V = T;

    closed spec fn view(&self) -> T {
        self.value
    }
}

impl<T> PoolEntry<T> {
    pub fn value(&self) -> (r: &T)
        ensures
            *r == self@,
    {
        &self.value
    }

    pub fn into_value(self) -> (r: T)
        ensures
            r == self@,
    {
        self.value
    }
}

/// The pool itself: a flat, bounded collection of idle instances.
pub struct Pool<T> {
    items: Vec<T>,
    max_size: usize,
}

impl<T> Pool<T> {
    /// The idle instances, oldest first.
    pub closed spec fn idle(&self) -> Seq<T> {
        self.items@
    }

    pub closed spec fn capacity(&self) -> nat {
        self.max_size as nat
    }

    pub fn new(max_size: usize) -> (r: Pool<T>)
        ensures
            r.idle() == Seq::<T>::empty(),
            r.capacity() == max_size,
    {
        let r = Pool { items: Vec::new(), max_size };
        proof {
            assert(r.idle() =~= Seq::<T>::empty());
        }
        r
    }

    pub fn size(&self) -> (r: usize)
        ensures
            r == self.idle().len(),
    {
        self.items.len()
    }

    pub fn max_size(&self) -> (r: usize)
        ensures
            r == self.capacity(),
    {
        self.max_size
    }

    /// Hands out the best-matching idle instance, prepared in place; on a
    /// miss the pool is left unchanged and the request's `create` decides
    /// between a fresh instance and an error.
    pub fn take<E, R: PoolRequest<Item = T, Error = E>>(&mut self, request: &R) -> (r: Result<
        PoolEntry<T>,
        E,
    >)
        ensures
            some_match(*request, old(self).idle()) ==> r is Ok && exists|i: int|
                is_best_match(*request, old(self).idle(), i) && r->Ok_0@ == request.prepare_spec(
                    old(self).idle()[i],
                ) && final(self).idle() == old(self).idle().remove(i),
            !some_match(*request, old(self).idle()) ==> final(self).idle() == old(self).idle(),
            final(self).capacity() == old(self).capacity(),
    {
        let mut best: Option<(usize, u64)> = Option::None;
        let mut i: usize = 0;
        loop
            invariant_except_break
                i <= self.items.len(),
            invariant
                *self == *old(self),
                match best {
                    Option::None => forall|j: int|
                        0 <= j < i ==> #[trigger] request.distance_spec(self.items@[j]) is None,
                    Option::Some((bi, bd)) => {
                        &&& bi < i <= self.items.len()
                        &&& request.distance_spec(self.items@[bi as int]) == Option::Some(bd)
                        &&& forall|j: int|
                            0 <= j < i && #[trigger] request.distance_spec(
                                self.items@[j],
                            ) is Some ==> bd <= request.distance_spec(self.items@[j])->0
                        &&& forall|j: int|
                            0 <= j < bi && #[trigger] request.distance_spec(
                                self.items@[j],
                            ) is Some ==> bd < request.distance_spec(self.items@[j])->0
                    },
                },
            ensures
                *self == *old(self),
                match best {
                    Option::None => !some_match(*request, self.items@),
                    Option::Some((bi, _)) => is_best_match(*request, self.items@, bi as int),
                },
            decreases self.items.len() - i,
        {
            if i >= self.items.len() {
                proof {
                    if best is None {
                        assert(!some_match(*request, self.items@));
                    }
                }
                break ;
            }
            let d: Option<u64> = request.distance(&self.items[i]);
            match (d, best) {
                (Option::Some(dv), Option::None) => {
                    best = Option::Some((i, dv));
                },
                (Option::Some(dv), Option::Some((_, bd))) => {
                    if dv < bd {
                        best = Option::Some((i, dv));
                    }
                },
                (Option::None, _) => {},
            }
            i = i + 1;
            if let Option::Some((_, bd)) = best {
                if bd == 0 {
                    break ;
                }
            }
        }
        match best {
            Option::Some((bi, _)) => {
                let mut item: T = self.items.remove(bi);
                request.prepare(&mut item);
                proof {
                    assert(final(self).idle() =~= old(self).idle().remove(bi as int));
                }
                Result::Ok(PoolEntry { value: item })
            },
            Option::None => {
                match request.create() {
                    Result::Ok(value) => Result::Ok(PoolEntry { value }),
                    Result::Err(e) => Result::Err(e),
                }
            },
        }
    }

    /// Returns a checked-out instance to the idle set, evicting the oldest
    /// idle instance first when the pool is already at capacity.  A pool
    /// of capacity zero with nothing idle has no instance to evict and no
    /// room to make: that state is fatal, so it is excluded here.
    pub fn release(&mut self, value: T)
        requires
            old(self).capacity() > 0 || old(self).idle().len() > 0,
        ensures
            final(self).idle() == release_model(old(self).idle(), value, old(self).capacity()),
            final(self).capacity() == old(self).capacity(),
    {
        if self.items.len() >= self.max_size {
            let _oldest: T = self.items.remove(0);
            proof {
                assert(self.items@ =~= old(self).idle().drop_first());
            }
        }
        self.items.push(value);
        proof {
            assert(final(self).idle() =~= release_model(
                old(self).idle(),
                value,
                old(self).capacity(),
            ));
        }
    }
}

/// Law: requesting the same logical resource again while the first copy is
/// still checked out cannot reuse it: a take on an empty idle set misses
/// (see `take`), and after both copies are released the pool holds two
/// physical instances.
pub proof fn lemma_pool_grows_second_instance<R: PoolRequest>(
    request: R,
    v1: R::Item,
    v2: R::Item,
    cap: nat,
)
    requires
        cap >= 2,
    ensures
        !some_match(request, Seq::<R::Item>::empty()),
        release_model(release_model(Seq::<R::Item>::empty(), v1, cap), v2, cap) == seq![v1, v2],
{
    assert(release_model(release_model(Seq::<R::Item>::empty(), v1, cap), v2, cap) =~= seq![
        v1,
        v2,
    ]);
}

/// Law: with the idle set within capacity, a release keeps it within
/// capacity, and a release into a full pool evicts exactly the oldest idle
/// instance.
pub proof fn lemma_release_bounded<T>(items: Seq<T>, value: T, cap: nat)
    requires
        cap >= 1,
        items.len() <= cap,
    ensures
        release_model(items, value, cap).len() <= cap,
        items.len() == cap ==> release_model(items, value, cap) == items.drop_first().push(value),
        items.len() < cap ==> release_model(items, value, cap) == items.push(value),
{
}

} // verus!
