use vstd::prelude::*;

verus! {

/// A bounded stack of reusable values: `get` hands out the most recently
/// returned value, or a fresh default one when the pool is empty; `put`
/// keeps a value only while the pool holds fewer than `max_buf_num`.
pub struct Pool<T> {
    vec_pool: Vec<T>,
    max_buf_num: usize,
}

/// The number of values a pool made by `new` keeps at most.
pub const DEFAULT_MAX_BUF_NUM: usize = 4096;

impl<T> Pool<T> {
    /// The pooled values, oldest first.
    pub closed spec fn items(&self) -> Seq<T> {
        self.vec_pool@
    }

    /// The number of values the pool keeps at most.
    pub closed spec fn capacity(&self) -> nat {
        self.max_buf_num as nat
    }
}

/// An empty pool that keeps up to 4096 values.
pub fn new<T: Default>() -> (pool: Pool<T>)
    ensures
        pool.items() == Seq::<T>::empty(),
        pool.capacity() == DEFAULT_MAX_BUF_NUM,
{
    Pool { vec_pool: Vec::new(), max_buf_num: DEFAULT_MAX_BUF_NUM }
}

impl<T: Default> Pool<T> {
    /// The same pool, keeping up to `size` values.
    pub fn with_max_buf_num(self, size: usize) -> (pool: Self)
        ensures
            pool.items() == self.items(),
            pool.capacity() == size,
    {
        let mut pool = self;
        pool.max_buf_num = size;
        pool
    }

    /// Takes the most recently pooled value, or a default value when the
    /// pool is empty.
    pub fn get(&mut self) -> (inner: T)
        ensures
            final(self).capacity() == old(self).capacity(),
            old(self).items().len() > 0 ==> {
                &&& inner == old(self).items().last()
                &&& final(self).items() == old(self).items().drop_last()
            },
            old(self).items().len() == 0 ==> {
                &&& call_ensures(T::default, (), inner)
                &&& final(self).items() == old(self).items()
            },
    {
        match self.vec_pool.pop() {
            Some(inner) => inner,
            None => T::default(),
        }
    }

    /// Returns a value to the pool; it is dropped when the pool is full.
    pub fn put(&mut self, inner: T)
        ensures
            final(self).capacity() == old(self).capacity(),
            final(self).items() == pooled_after_put(old(self).items(), old(self).capacity(), inner),
    {
        if self.vec_pool.len() < self.max_buf_num {
            self.vec_pool.push(inner)
        }
    }
}

/// The pooled values after `put(x)` on a pool holding `items` that keeps
/// at most `cap` values.
pub open spec fn pooled_after_put<T>(items: Seq<T>, cap: nat, x: T) -> Seq<T> {
    if items.len() < cap {
        items.push(x)
    } else {
        items
    }
}

/// A value put into a pool that has room is the value the next `get` hands
/// out, and that `get` leaves the pool as it was before the `put`.
pub proof fn law_put_then_get<T>(p: Pool<T>, x: T)
    requires
        p.items().len() < p.capacity(),
    ensures
        pooled_after_put(p.items(), p.capacity(), x).len() > 0,
        pooled_after_put(p.items(), p.capacity(), x).last() == x,
        pooled_after_put(p.items(), p.capacity(), x).drop_last() == p.items(),
{
    assert(p.items().push(x).drop_last() =~= p.items());
}

/// A full pool drops what is put into it.
pub proof fn law_full_pool_drops<T>(p: Pool<T>, x: T)
    requires
        p.items().len() >= p.capacity(),
    ensures
        pooled_after_put(p.items(), p.capacity(), x) == p.items(),
{
}

} // verus!
