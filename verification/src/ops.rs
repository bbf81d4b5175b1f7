//! The operations that a measurement is made with.
use std::collections::HashSet;
use std::mem::align_of;
use vstd::pervasive::unreached;
use vstd::prelude::*;

verus! {

/// The largest address that stands for an empty allocation.
///
/// It should always be larger than any required alignment, and it lies in the
/// first page of memory, so no legitimate address is as small.
pub const EMPTY_LIMIT: usize = 256;

/// The family of machines that a measurement is made for.
#[derive(Clone, Copy, Debug, PartialEq, Eq, Structural)]
pub enum Target {
    /// A machine whose allocator can tell the size of a block.
    Native,
    /// WebAssembly, whose allocator cannot: some sizes are estimated there.
    Wasm,
}

/// A function from the address of a heap allocation to its size.
trait VoidPtrToSizeFn {
    /// The function may be called on `ptr`.
    spec fn accepts(&self, ptr: usize) -> bool;

    /// The function may return `size` for `ptr`.
    spec fn answers(&self, ptr: usize, size: usize) -> bool;

    fn size_at(&self, ptr: usize) -> (size: usize)
        requires
            self.accepts(ptr),
        ensures
            self.answers(ptr, size),
    ;
}

impl<F: Fn(usize) -> usize> VoidPtrToSizeFn for F {
    spec fn accepts(&self, ptr: usize) -> bool {
        call_requires(*self, (ptr,))
    }

    spec fn answers(&self, ptr: usize, size: usize) -> bool {
        call_ensures(*self, (ptr,), size)
    }

    fn size_at(&self, ptr: usize) -> (size: usize) {
        self(ptr)
    }
}

/// A stateful predicate on pointers: whether a pointer has been seen before.
pub trait VoidPtrToBoolFnMut {
    /// The pointers seen so far.
    spec fn seen(&self) -> Set<usize>;

    /// Checks if `ptr` has been seen before, and remembers it for next time.
    fn have_seen(&mut self, ptr: usize) -> (already: bool)
        ensures
            already == old(self).seen().contains(ptr),
            final(self).seen() == old(self).seen().insert(ptr),
    ;
}

/// The pointers seen so far, kept in a hash set.
pub struct SeenPtrs {
    ptrs: HashSet<usize>,
}

impl View for SeenPtrs {
    type V = Set<usize>;

    closed spec fn view(&self) -> Set<usize> {
        self.ptrs@
    }
}

impl SeenPtrs {
    /// No pointer has been seen.
    pub fn new() -> (s: Self)
        ensures
            s@ == Set::<usize>::empty(),
    {
        SeenPtrs { ptrs: HashSet::new() }
    }
}

impl Default for SeenPtrs {
    fn default() -> (s: Self)
        ensures
            s@ == Set::<usize>::empty(),
    {
        SeenPtrs::new()
    }
}

impl VoidPtrToBoolFnMut for SeenPtrs {
    open spec fn seen(&self) -> Set<usize> {
        self@
    }

    fn have_seen(&mut self, ptr: usize) -> (already: bool) {
        broadcast use vstd::std_specs::hash::group_hash_axioms;

        !self.ptrs.insert(ptr)
    }
}

/// What a [`MallocSizeOfOps`] can answer, as contracts see it.
pub struct OpsModel {
    /// The family of machines the measurement is made for.
    pub target: Target,
    /// Whether the size operation may answer a size for an address.
    pub block_size: spec_fn(usize, usize) -> bool,
    /// The same for interior pointers, where such an operation is available.
    pub enclosing_size: Option<spec_fn(usize, usize) -> bool>,
    /// The pointers seen so far, where they are kept.
    pub seen: Option<Set<usize>>,
}

impl OpsModel {
    /// `ptr` is the address of an allocation of no bytes.
    pub open spec fn is_empty(ptr: usize) -> bool {
        ptr <= EMPTY_LIMIT
    }

    /// `n` may be reported as the size of the block at `ptr`.
    pub open spec fn reports(self, ptr: usize, n: usize) -> bool {
        if OpsModel::is_empty(ptr) {
            n == 0
        } else {
            (self.block_size)(ptr, n)
        }
    }

    /// `n` may be reported as the size of the block around `ptr`.
    pub open spec fn reports_enclosing(self, ptr: usize, n: usize) -> bool {
        self.enclosing_size matches Some(f) && f(ptr, n)
    }

    /// These operations are what `before` may have become in a measurement: they
    /// answer the same, and no pointer that had been seen is forgotten.
    pub open spec fn continues(self, before: OpsModel) -> bool {
        &&& self.target == before.target
        &&& self.block_size == before.block_size
        &&& self.enclosing_size == before.enclosing_size
        &&& match before.seen {
            Some(seen) => self.seen is Some && seen.subset_of(self.seen->0),
            None => self.seen is None,
        }
    }

    /// These operations, once `ptr` has been seen.
    pub open spec fn with_seen(self, ptr: usize) -> OpsModel {
        OpsModel {
            seen: match self.seen {
                Some(s) => Some(s.insert(ptr)),
                None => None,
            },
            ..self
        }
    }
}

/// The sizes that a function on addresses may return.
pub open spec fn sizes_of<F: Fn(usize) -> usize>(f: F) -> spec_fn(usize, usize) -> bool {
    |ptr: usize, n: usize| call_ensures(f, (ptr,), n)
}

/// The same for a function that may not be available.
pub open spec fn sizes_of_available<F: Fn(usize) -> usize>(f: Option<F>) -> Option<
    spec_fn(usize, usize) -> bool,
> {
    match f {
        Some(f) => Some(sizes_of(f)),
        None => None,
    }
}

/// The size of the heap block at `ptr`, which holds values of type `T`.
///
/// `heap_size_of_impl` asks the allocator for the size of a block. It is not
/// called where the address is no larger than the alignment of `T`: an
/// allocation of no bytes has such an address.
pub fn heap_size_of<T, F: Fn(usize) -> usize>(ptr: usize, heap_size_of_impl: &F) -> (n: usize)
    requires
        ptr > vstd::layout::align_of::<T>() ==> call_requires(*heap_size_of_impl, (ptr,)),
    ensures
        ptr <= vstd::layout::align_of::<T>() ==> n == 0,
        ptr > vstd::layout::align_of::<T>() ==> call_ensures(*heap_size_of_impl, (ptr,), n),
{
    if ptr <= align_of::<T>() {
        0
    } else {
        heap_size_of_impl(ptr)
    }
}

/// The size of a block on a heap that can validate addresses.
///
/// An address that the heap does not validate lies behind the start of its
/// block, and the word in front of it holds the block's address.
pub fn validated_heap_size_of<V, W, S>(
    ptr: usize,
    validate: &V,
    word_before: &W,
    size: &S,
) -> (n: usize) where
    V: Fn(usize) -> bool,
    W: Fn(usize) -> usize,
    S: Fn(usize) -> usize,

    requires
        call_requires(*validate, (ptr,)),
        call_ensures(*validate, (ptr,), false) ==> call_requires(*word_before, (ptr,)),
        call_ensures(*validate, (ptr,), true) ==> call_requires(*size, (ptr,)),
        forall|word: usize|
            call_ensures(*validate, (ptr,), false) && #[trigger] call_ensures(
                *word_before,
                (ptr,),
                word,
            ) ==> call_requires(*size, (word,)),
    ensures
        exists|block: usize|
            {
                &&& #[trigger] call_ensures(*size, (block,), n)
                &&& {
                    ||| block == ptr && call_ensures(*validate, (ptr,), true)
                    ||| {
                        &&& call_ensures(*validate, (ptr,), false)
                        &&& call_ensures(*word_before, (ptr,), block)
                    }
                }
            },
{
    let block = if validate(ptr) {
        ptr
    } else {
        word_before(ptr)
    };
    size(block)
}

/// Operations used when measuring heap usage of data structures.
pub struct MallocSizeOfOps {
    target: Target,
    size_of_op: Box<dyn VoidPtrToSizeFn>,
    enclosing_size_of_op: Option<Box<dyn VoidPtrToSizeFn>>,
    have_seen_ptr_op: Option<Box<dyn VoidPtrToBoolFnMut>>,
    block_size: Ghost<spec_fn(usize, usize) -> bool>,
    enclosing_size: Ghost<Option<spec_fn(usize, usize) -> bool>>,
}

impl View for MallocSizeOfOps {
    type V = OpsModel;

    closed spec fn view(&self) -> OpsModel {
        OpsModel {
            target: self.target,
            block_size: self.block_size@,
            enclosing_size: self.enclosing_size@,
            seen: match self.have_seen_ptr_op {
                Some(p) => Some(p.seen()),
                None => None,
            },
        }
    }
}

impl MallocSizeOfOps {
    #[verifier::type_invariant]
    spec fn well_formed(self) -> bool {
        &&& forall|ptr: usize| ptr > EMPTY_LIMIT ==> self.size_of_op.accepts(ptr)
        &&& forall|ptr: usize, n: usize| #[trigger]
            self.size_of_op.answers(ptr, n) ==> (self.block_size@)(ptr, n)
        &&& self.enclosing_size@ is Some == self.enclosing_size_of_op is Some
        &&& self.enclosing_size_of_op matches Some(f) ==> {
            &&& forall|ptr: usize| ptr > EMPTY_LIMIT ==> f.accepts(ptr)
            &&& forall|ptr: usize, n: usize| #[trigger]
                f.answers(ptr, n) ==> (self.enclosing_size@->0)(ptr, n)
        }
    }

    /// Operations made of the allocator's functions.
    ///
    /// `size_of` returns the size of a heap allocation. The second function is
    /// like it, but can take an interior pointer: not all allocators support
    /// that, and without it some measurements are computed estimates. The
    /// third checks if a pointer has been seen before, for shared values. The
    /// first two are not called with the address of an empty allocation. The
    /// measurements are made for a native machine: see [`MallocSizeOfOps::on`] for
    /// others.
    pub fn new<S, E>(
        size_of: S,
        malloc_enclosing_size_of: Option<E>,
        have_seen_ptr: Option<Box<dyn VoidPtrToBoolFnMut>>,
    ) -> (ops: Self) where
        S: Fn(usize) -> usize + 'static,
        E: Fn(usize) -> usize + 'static,

        requires
            forall|ptr: usize| ptr > EMPTY_LIMIT ==> call_requires(size_of, (ptr,)),
            malloc_enclosing_size_of matches Some(f) ==> forall|ptr: usize|
                ptr > EMPTY_LIMIT ==> call_requires(f, (ptr,)),
        ensures
            ops@.target == Target::Native,
            ops@.block_size == sizes_of(size_of),
            ops@.enclosing_size == sizes_of_available(malloc_enclosing_size_of),
            ops@.seen == (match have_seen_ptr {
                Some(p) => Some(p.seen()),
                None => None,
            }),
    {
        let ghost enclosing_size = sizes_of_available(malloc_enclosing_size_of);
        let enclosing: Option<Box<dyn VoidPtrToSizeFn>> = match malloc_enclosing_size_of {
            Some(f) => Some(Box::new(f)),
            None => None,
        };
        MallocSizeOfOps {
            target: Target::Native,
            block_size: Ghost(sizes_of(size_of)),
            enclosing_size: Ghost(enclosing_size),
            size_of_op: Box::new(size_of),
            enclosing_size_of_op: enclosing,
            have_seen_ptr_op: have_seen_ptr,
        }
    }

    /// The operations that most measurements are made with: the size operation
    /// is [`heap_size_of`], with the allocator's function; there is no
    /// operation on interior pointers, and no pointers are kept.
    pub fn default<F>(heap_size_of_impl: F) -> (ops: Self) where F: Fn(usize) -> usize + 'static
        requires
            forall|ptr: usize| ptr > EMPTY_LIMIT ==> call_requires(heap_size_of_impl, (ptr,)),
        ensures
            ops@.target == Target::Native,
            forall|ptr: usize, n: usize| #[trigger]
                (ops@.block_size)(ptr, n) ==> if ptr <= 1 {
                    n == 0
                } else {
                    call_ensures(heap_size_of_impl, (ptr,), n)
                },
            ops@.enclosing_size is None,
            ops@.seen is None,
    {
        broadcast use vstd::layout::align_of_u8;

        let ghost sizes = sizes_of(heap_size_of_impl);
        let size_of = move |ptr: usize| -> (n: usize)
            requires
                ptr > EMPTY_LIMIT,
            ensures
                ptr <= 1 ==> n == 0,
                ptr > 1 ==> sizes(ptr, n),
            { heap_size_of::<u8, F>(ptr, &heap_size_of_impl) };
        let ops = MallocSizeOfOps::new(size_of, None::<F>, None);
        assert forall|ptr: usize, n: usize| #[trigger]
            (ops@.block_size)(ptr, n) implies if ptr <= 1 {
            n == 0
        } else {
            call_ensures(heap_size_of_impl, (ptr,), n)
        } by {
            assert(call_ensures(size_of, (ptr,), n));
        }
        ops
    }

    /// The operations that most measurements are made with on WebAssembly,
    /// where every block counts as having no bytes.
    pub fn default_wasm() -> (ops: Self)
        ensures
            ops@.target == Target::Wasm,
            forall|ptr: usize, n: usize| #[trigger] (ops@.block_size)(ptr, n) ==> n == 0,
            ops@.enclosing_size is None,
            ops@.seen is None,
    {
        let heap_size_of_impl = |_ptr: usize| -> (n: usize)
            ensures
                n == 0,
            { 0 };
        MallocSizeOfOps::default(heap_size_of_impl).on(Target::Wasm)
    }

    /// These operations, for measurements on `target`.
    pub fn on(self, target: Target) -> (ops: Self)
        ensures
            ops@ == (OpsModel { target, ..self@ }),
    {
        proof {
            use_type_invariant(&self);
        }
        MallocSizeOfOps {
            target,
            size_of_op: self.size_of_op,
            enclosing_size_of_op: self.enclosing_size_of_op,
            have_seen_ptr_op: self.have_seen_ptr_op,
            block_size: self.block_size,
            enclosing_size: self.enclosing_size,
        }
    }

    /// The family of machines that these operations measure for.
    pub fn target(&self) -> (target: Target)
        ensures
            target == self@.target,
    {
        self.target
    }

    /// Checks if an allocation is empty. This relies on knowledge of how Rust
    /// handles empty allocations, which may change in the future.
    pub fn is_empty(ptr: usize) -> (empty: bool)
        ensures
            empty == OpsModel::is_empty(ptr),
    {
        ptr <= EMPTY_LIMIT
    }

    /// Calls the size operation on `ptr`, first checking that the allocation
    /// isn't empty, because some types (such as `Vec`) utilize empty
    /// allocations.
    pub fn malloc_size_of(&self, ptr: usize) -> (n: usize)
        ensures
            self@.reports(ptr, n),
    {
        proof {
            use_type_invariant(self);
        }
        if MallocSizeOfOps::is_empty(ptr) {
            0
        } else {
            self.size_of_op.size_at(ptr)
        }
    }

    /// Is an operation on interior pointers available?
    pub fn has_malloc_enclosing_size_of(&self) -> (available: bool)
        ensures
            available == self@.enclosing_size is Some,
    {
        proof {
            use_type_invariant(self);
        }
        self.enclosing_size_of_op.is_some()
    }

    /// Calls the operation on interior pointers, which must be available, on
    /// `ptr`, which must not be empty.
    pub fn malloc_enclosing_size_of(&self, ptr: usize) -> (n: usize)
        requires
            !OpsModel::is_empty(ptr),
            self@.enclosing_size is Some,
        ensures
            self@.reports_enclosing(ptr, n),
    {
        proof {
            use_type_invariant(self);
        }
        match &self.enclosing_size_of_op {
            Some(f) => f.size_at(ptr),
            None => unreached(),
        }
    }

    /// Checks if `ptr` has been seen before, and remembers it for next time.
    /// The pointers seen so far must be kept.
    pub fn have_seen_ptr(&mut self, ptr: usize) -> (already: bool)
        requires
            old(self)@.seen is Some,
        ensures
            already == old(self)@.seen->0.contains(ptr),
            final(self)@ == old(self)@.with_seen(ptr),
    {
        proof {
            use_type_invariant(&*self);
        }
        let mut kept: Option<Box<dyn VoidPtrToBoolFnMut>> = None;
        std::mem::swap(&mut kept, &mut self.have_seen_ptr_op);
        let already = match &mut kept {
            Some(op) => op.have_seen(ptr),
            None => unreached(),
        };
        self.have_seen_ptr_op = kept;
        already
    }
}

} // verus!
