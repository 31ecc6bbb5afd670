use vstd::prelude::*;
use smallvec::SmallVec;

use crate::proc_buffers::ProcBuffer;
use crate::shared::SharedBuffer;

verus! {

/// A list of port buffers, held inline up to `SMALLVEC_ALLOC_PORT_BUFFERS` items.
#[verifier::external_body]
pub struct ProcBufferList {
    items: SmallVec<[ProcBuffer; 4]>,
}

/// The items of a `ProcBufferList`, in order.
pub uninterp spec fn proc_buffer_list_items(l: ProcBufferList) -> Seq<ProcBuffer>;

impl View for ProcBufferList {
    type V = Seq<ProcBuffer>;

    open spec fn view(&self) -> Seq<ProcBuffer> {
        proc_buffer_list_items(*self)
    }
}

impl ProcBufferList {
    /// `SmallVec::new`: an empty list.
    #[verifier::external_body]
    pub(crate) fn new() -> (r: Self)
        ensures
            proc_buffer_list_items(r) == Seq::<ProcBuffer>::empty(),
    {
        ProcBufferList { items: SmallVec::new() }
    }

    /// `SmallVec::push`: appends `item` at the end.
    #[verifier::external_body]
    pub(crate) fn push(&mut self, item: ProcBuffer)
        ensures
            proc_buffer_list_items(*final(self)) == proc_buffer_list_items(*old(self)).push(item),
    {
        self.items.push(item)
    }

    /// `SmallVec::len`: the number of items.
    #[verifier::external_body]
    pub(crate) fn len(&self) -> (r: usize)
        ensures
            r == proc_buffer_list_items(*self).len(),
    {
        self.items.len()
    }

    /// `SmallVec::index`: the item at `i`, copied out.
    #[verifier::external_body]
    pub(crate) fn get(&self, i: usize) -> (r: ProcBuffer)
        requires
            i < proc_buffer_list_items(*self).len(),
        ensures
            r == proc_buffer_list_items(*self)[i as int],
    {
        self.items[i]
    }

    /// `SmallVec::remove`: takes the item at `i` out, shifting the later ones down.
    #[verifier::external_body]
    pub(crate) fn remove(&mut self, i: usize) -> (r: ProcBuffer)
        requires
            i < proc_buffer_list_items(*old(self)).len(),
        ensures
            r == proc_buffer_list_items(*old(self))[i as int],
            proc_buffer_list_items(*final(self)) == proc_buffer_list_items(*old(self)).remove(i as int),
    {
        self.items.remove(i)
    }
}

/// A list of buffers, held inline up to `SMALLVEC_ALLOC_MPR_BUFFERS` items.
#[verifier::external_body]
pub struct BufferList {
    items: SmallVec<[SharedBuffer; 4]>,
}

/// The items of a `BufferList`, in order.
pub uninterp spec fn buffer_list_items(l: BufferList) -> Seq<SharedBuffer>;

impl View for BufferList {
    type V = Seq<SharedBuffer>;

    open spec fn view(&self) -> Seq<SharedBuffer> {
        buffer_list_items(*self)
    }
}

impl BufferList {
    /// `SmallVec::new`: an empty list.
    #[verifier::external_body]
    pub(crate) fn new() -> (r: Self)
        ensures
            buffer_list_items(r) == Seq::<SharedBuffer>::empty(),
    {
        BufferList { items: SmallVec::new() }
    }

    /// `SmallVec::push`: appends `item` at the end.
    #[verifier::external_body]
    pub(crate) fn push(&mut self, item: SharedBuffer)
        ensures
            buffer_list_items(*final(self)) == buffer_list_items(*old(self)).push(item),
    {
        self.items.push(item)
    }

    /// `SmallVec::len`: the number of items.
    #[verifier::external_body]
    pub(crate) fn len(&self) -> (r: usize)
        ensures
            r == buffer_list_items(*self).len(),
    {
        self.items.len()
    }

    /// `SmallVec::index`: the item at `i`, copied out.
    #[verifier::external_body]
    pub(crate) fn get(&self, i: usize) -> (r: SharedBuffer)
        requires
            i < buffer_list_items(*self).len(),
        ensures
            r == buffer_list_items(*self)[i as int],
    {
        self.items[i]
    }
}

/// A list of (source, destination) buffer pairs, held inline up to
/// `SMALLVEC_ALLOC_MPR_BUFFERS` items.
#[verifier::external_body]
pub struct BufferPairList {
    items: SmallVec<[(SharedBuffer, SharedBuffer); 4]>,
}

/// The items of a `BufferPairList`, in order.
pub uninterp spec fn buffer_pair_list_items(l: BufferPairList) -> Seq<(SharedBuffer, SharedBuffer)>;

impl View for BufferPairList {
    type V = Seq<(SharedBuffer, SharedBuffer)>;

    open spec fn view(&self) -> Seq<(SharedBuffer, SharedBuffer)> {
        buffer_pair_list_items(*self)
    }
}

impl BufferPairList {
    /// `SmallVec::new`: an empty list.
    #[verifier::external_body]
    pub(crate) fn new() -> (r: Self)
        ensures
            buffer_pair_list_items(r) == Seq::<(SharedBuffer, SharedBuffer)>::empty(),
    {
        BufferPairList { items: SmallVec::new() }
    }

    /// `SmallVec::push`: appends `item` at the end.
    #[verifier::external_body]
    pub(crate) fn push(&mut self, item: (SharedBuffer, SharedBuffer))
        ensures
            buffer_pair_list_items(*final(self)) == buffer_pair_list_items(*old(self)).push(item),
    {
        self.items.push(item)
    }

    /// `SmallVec::len`: the number of items.
    #[verifier::external_body]
    pub(crate) fn len(&self) -> (r: usize)
        ensures
            r == buffer_pair_list_items(*self).len(),
    {
        self.items.len()
    }

    /// `SmallVec::index`: the item at `i`, copied out.
    #[verifier::external_body]
    pub(crate) fn get(&self, i: usize) -> (r: (SharedBuffer, SharedBuffer))
        requires
            i < buffer_pair_list_items(*self).len(),
        ensures
            r == buffer_pair_list_items(*self)[i as int],
    {
        self.items[i]
    }
}

impl ProcBufferList {
    /// The items, in order, copied into a `Vec`.
    pub fn to_vec(&self) -> (r: Vec<ProcBuffer>)
        ensures
            r@ == self@,
    {
        let n = self.len();
        let mut v: Vec<ProcBuffer> = Vec::new();
        let mut i: usize = 0;
        while i < n
            invariant
                n == self@.len(),
                i <= n,
                v@ == self@.take(i as int),
            decreases n - i,
        {
            v.push(self.get(i));
            proof {
                assert(self@.take(i + 1) =~= self@.take(i as int).push(self@[i as int]));
            }
            i = i + 1;
        }
        assert(self@.take(n as int) =~= self@);
        v
    }
}

impl BufferList {
    /// The items, in order, copied into a `Vec`.
    pub fn to_vec(&self) -> (r: Vec<SharedBuffer>)
        ensures
            r@ == self@,
    {
        let n = self.len();
        let mut v: Vec<SharedBuffer> = Vec::new();
        let mut i: usize = 0;
        while i < n
            invariant
                n == self@.len(),
                i <= n,
                v@ == self@.take(i as int),
            decreases n - i,
        {
            v.push(self.get(i));
            proof {
                assert(self@.take(i + 1) =~= self@.take(i as int).push(self@[i as int]));
            }
            i = i + 1;
        }
        assert(self@.take(n as int) =~= self@);
        v
    }
}

impl BufferPairList {
    /// The items, in order, copied into a `Vec`.
    pub fn to_vec(&self) -> (r: Vec<(SharedBuffer, SharedBuffer)>)
        ensures
            r@ == self@,
    {
        let n = self.len();
        let mut v: Vec<(SharedBuffer, SharedBuffer)> = Vec::new();
        let mut i: usize = 0;
        while i < n
            invariant
                n == self@.len(),
                i <= n,
                v@ == self@.take(i as int),
            decreases n - i,
        {
            v.push(self.get(i));
            proof {
                assert(self@.take(i + 1) =~= self@.take(i as int).push(self@[i as int]));
            }
            i = i + 1;
        }
        assert(self@.take(n as int) =~= self@);
        v
    }
}

impl ProcBufferList {
    /// A list of the items of `v`, in order.
    pub fn from_vec(v: &Vec<ProcBuffer>) -> (r: Self)
        ensures
            r@ == v@,
    {
        let mut l = Self::new();
        let mut i: usize = 0;
        while i < v.len()
            invariant
                i <= v@.len(),
                l@ == v@.take(i as int),
            decreases v@.len() - i,
        {
            l.push(v[i]);
            proof {
                assert(v@.take(i + 1) =~= v@.take(i as int).push(v@[i as int]));
            }
            i = i + 1;
        }
        assert(v@.take(v@.len() as int) =~= v@);
        l
    }
}

impl BufferList {
    /// A list of the items of `v`, in order.
    pub fn from_vec(v: &Vec<SharedBuffer>) -> (r: Self)
        ensures
            r@ == v@,
    {
        let mut l = Self::new();
        let mut i: usize = 0;
        while i < v.len()
            invariant
                i <= v@.len(),
                l@ == v@.take(i as int),
            decreases v@.len() - i,
        {
            l.push(v[i]);
            proof {
                assert(v@.take(i + 1) =~= v@.take(i as int).push(v@[i as int]));
            }
            i = i + 1;
        }
        assert(v@.take(v@.len() as int) =~= v@);
        l
    }
}

impl BufferPairList {
    /// A list of the items of `v`, in order.
    pub fn from_vec(v: &Vec<(SharedBuffer, SharedBuffer)>) -> (r: Self)
        ensures
            r@ == v@,
    {
        let mut l = Self::new();
        let mut i: usize = 0;
        while i < v.len()
            invariant
                i <= v@.len(),
                l@ == v@.take(i as int),
            decreases v@.len() - i,
        {
            l.push(v[i]);
            proof {
                assert(v@.take(i + 1) =~= v@.take(i as int).push(v@[i as int]));
            }
            i = i + 1;
        }
        assert(v@.take(v@.len() as int) =~= v@);
        l
    }
}

} // verus!
