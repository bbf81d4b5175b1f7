//! What a measurement may return.
use crate::ops::OpsModel;
use vstd::prelude::*;

verus! {

/// What measuring a value may return, and when it may be asked for.
///
/// A measurement is not a function of the value alone: it depends on where the
/// value's blocks lie and on what the allocator says of them. So it is a
/// relation between the operations before, the operations after and the number
/// of bytes.
pub struct Measurement {
    /// The operations with which the value can be measured: the number of
    /// bytes fits a `usize` whatever comes back, and nothing is asked of the
    /// operations that they do not offer.
    pub pre: spec_fn(OpsModel) -> bool,
    /// The operations before, the operations after, and a number of bytes that
    /// may be returned.
    pub rel: spec_fn(OpsModel, OpsModel, nat) -> bool,
}

impl Measurement {
    /// The value can be measured with `ops`, without an overflow.
    pub open spec fn fits(self, ops: OpsModel) -> bool {
        (self.pre)(ops)
    }

    /// Measuring with `before` may return `n`, and leaves `after`.
    pub open spec fn yields(self, before: OpsModel, after: OpsModel, n: nat) -> bool {
        (self.rel)(before, after, n)
    }

    /// Always `n` bytes.
    pub open spec fn exactly(n: nat) -> Measurement {
        Measurement {
            pre: |ops: OpsModel| n <= usize::MAX,
            rel: |before: OpsModel, after: OpsModel, m: nat| after == before && m == n,
        }
    }

    /// Always `n` bytes, which are known to fit a `usize`.
    pub open spec fn always(n: nat) -> Measurement {
        Measurement {
            pre: |ops: OpsModel| true,
            rel: |before: OpsModel, after: OpsModel, m: nat| after == before && m == n,
        }
    }

    /// Always no bytes: nothing is on the heap.
    pub open spec fn nothing() -> Measurement {
        Measurement::exactly(0)
    }

    /// Never possible: the value cannot be measured.
    pub open spec fn impossible() -> Measurement {
        Measurement {
            pre: |ops: OpsModel| false,
            rel: |before: OpsModel, after: OpsModel, n: nat| false,
        }
    }

    /// What the operations report of the block at `ptr`.
    pub open spec fn block(ptr: usize) -> Measurement {
        Measurement {
            pre: |ops: OpsModel| true,
            rel: |before: OpsModel, after: OpsModel, n: nat|
                after == before && n <= usize::MAX && before.reports(ptr, n as usize),
        }
    }

    /// What the operations report of the block around `ptr`, which must not be
    /// the address of an empty allocation.
    pub open spec fn enclosing(ptr: usize) -> Measurement {
        Measurement {
            pre: |ops: OpsModel| ops.enclosing_size is Some && !OpsModel::is_empty(ptr),
            rel: |before: OpsModel, after: OpsModel, n: nat|
                after == before && n <= usize::MAX && before.reports_enclosing(ptr, n as usize),
        }
    }

    /// `yes` where the operations are such as `cond` says, else `no`.
    pub open spec fn when(
        cond: spec_fn(OpsModel) -> bool,
        yes: Measurement,
        no: Measurement,
    ) -> Measurement {
        Measurement {
            pre: |ops: OpsModel|
                if cond(ops) {
                    yes.fits(ops)
                } else {
                    no.fits(ops)
                },
            rel: |before: OpsModel, after: OpsModel, n: nat|
                if cond(before) {
                    yes.yields(before, after, n)
                } else {
                    no.yields(before, after, n)
                },
        }
    }

    /// `body(a)` for some `a` in `domain`, which is not a function of the
    /// measured value: an address, a capacity, an order.
    pub open spec fn over<A>(
        domain: spec_fn(A) -> bool,
        body: spec_fn(A) -> Measurement,
    ) -> Measurement {
        Measurement {
            pre: |ops: OpsModel| forall|a: A| #[trigger] domain(a) ==> body(a).fits(ops),
            rel: |before: OpsModel, after: OpsModel, n: nat|
                exists|a: A| #[trigger] domain(a) && body(a).yields(before, after, n),
        }
    }

    /// `body`, unless `ptr` has been seen before: then no bytes. Either way
    /// `ptr` is remembered.
    pub open spec fn once(ptr: usize, body: Measurement) -> Measurement {
        Measurement {
            pre: |ops: OpsModel|
                {
                    &&& ops.seen is Some
                    &&& !ops.seen->0.contains(ptr) ==> body.fits(ops.with_seen(ptr))
                },
            rel: |before: OpsModel, after: OpsModel, n: nat|
                {
                    &&& before.seen is Some
                    &&& if before.seen->0.contains(ptr) {
                        after == before.with_seen(ptr) && n == 0
                    } else {
                        body.yields(before.with_seen(ptr), after, n)
                    }
                },
        }
    }

    /// `body` for a value that may lie where `at` says, unless that address has
    /// been seen before.
    pub open spec fn once_at(at: spec_fn(usize) -> bool, body: Measurement) -> Measurement {
        Measurement::over(at, |ptr: usize| Measurement::once(ptr, body))
    }

    /// This measurement and then `next`; the sum is returned.
    pub open spec fn plus(self, next: Measurement) -> Measurement {
        Measurement {
            pre: |ops: OpsModel| self.plus_fits(next, ops),
            rel: |before: OpsModel, after: OpsModel, n: nat|
                self.plus_yields(next, before, after, n),
        }
    }

    pub open spec fn plus_fits(self, next: Measurement, ops: OpsModel) -> bool {
        &&& self.fits(ops)
        &&& forall|mid: OpsModel, a: nat| #[trigger]
            self.yields(ops, mid, a) ==> {
                &&& next.fits(mid)
                &&& forall|after: OpsModel, b: nat| #[trigger]
                    next.yields(mid, after, b) ==> a + b <= usize::MAX
            }
    }

    pub open spec fn plus_yields(
        self,
        next: Measurement,
        before: OpsModel,
        after: OpsModel,
        n: nat,
    ) -> bool {
        exists|mid: OpsModel, a: nat, b: nat|
            {
                &&& #[trigger] self.yields(before, mid, a)
                &&& #[trigger] next.yields(mid, after, b)
                &&& n == a + b
            }
    }

    /// This measurement and then each of `rest`, in order; the sum is returned.
    pub open spec fn then_all(self, rest: Seq<Measurement>) -> Measurement
        decreases rest.len(),
    {
        if rest.len() == 0 {
            self
        } else {
            self.then_all(rest.drop_last()).plus(rest.last())
        }
    }
}

/// Where a longer sum can be made, so can the sum of its first parts.
pub proof fn lemma_then_all_prefix_fits(
    first: Measurement,
    rest: Seq<Measurement>,
    k: int,
    ops: OpsModel,
)
    requires
        first.then_all(rest).fits(ops),
        0 <= k <= rest.len(),
    ensures
        first.then_all(rest.take(k)).fits(ops),
    decreases rest.len() - k,
{
    if k == rest.len() {
        assert(rest.take(k) =~= rest);
    } else {
        lemma_then_all_prefix_fits(first, rest, k + 1, ops);
        assert(rest.take(k + 1).drop_last() =~= rest.take(k));
    }
}

/// Where a sum can be made, so can its first part.
pub proof fn lemma_then_all_first_fits(
    first: Measurement,
    rest: Seq<Measurement>,
    ops: OpsModel,
)
    requires
        first.then_all(rest).fits(ops),
    ensures
        first.fits(ops),
{
    lemma_then_all_prefix_fits(first, rest, 0, ops);
    assert(rest.take(0) =~= Seq::<Measurement>::empty());
}

/// The sum of one part more.
pub proof fn lemma_then_all_step(first: Measurement, rest: Seq<Measurement>, k: int)
    requires
        0 <= k < rest.len(),
    ensures
        first.then_all(rest.take(k + 1)) == first.then_all(rest.take(k)).plus(rest[k]),
{
    assert(rest.take(k + 1).drop_last() =~= rest.take(k));
}

/// An instance of a measurement over a domain can be made where all can.
pub proof fn lemma_over_fits<A>(
    domain: spec_fn(A) -> bool,
    body: spec_fn(A) -> Measurement,
    a: A,
    ops: OpsModel,
)
    requires
        Measurement::over(domain, body).fits(ops),
        domain(a),
    ensures
        body(a).fits(ops),
{
}

/// What an instance of a measurement over a domain yields, the whole may yield.
pub proof fn lemma_over_yields<A>(
    domain: spec_fn(A) -> bool,
    body: spec_fn(A) -> Measurement,
    a: A,
    before: OpsModel,
    after: OpsModel,
    n: nat,
)
    requires
        domain(a),
        body(a).yields(before, after, n),
    ensures
        Measurement::over(domain, body).yields(before, after, n),
{
}

} // verus!
