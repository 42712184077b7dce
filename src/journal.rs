use vstd::prelude::*;

use crate::Error;

verus! {

/// What a driver call returns for a bus outcome: the error, if any, passed
/// on unchanged.
pub open spec fn bus_result<E>(o: Result<(), E>) -> Result<(), Error<E>> {
    match o {
        Ok(_) => Ok(()),
        Err(e) => Err(Error::I2C(e)),
    }
}

/// One transaction: the bus's record grew by exactly one entry, a write of
/// `bytes` to the device at `dev`, and the call returned that write's outcome.
pub open spec fn wrote_once<E>(
    before: Seq<(u8, Seq<u8>, Result<(), E>)>,
    after: Seq<(u8, Seq<u8>, Result<(), E>)>,
    dev: u8,
    bytes: Seq<u8>,
    r: Result<(), Error<E>>,
) -> bool {
    &&& after.len() == before.len() + 1
    &&& after == before.push(after.last())
    &&& after.last().0 == dev
    &&& after.last().1 == bytes
    &&& r == bus_result(after.last().2)
}

/// The writes of `plan` were made in order to the device at `dev` until one
/// failed: the bus's record grew by a prefix of `plan`, each entry addressed
/// to `dev`, every new entry but the last succeeded, and the call
/// returned `Ok` exactly when the whole plan was written without error, else
/// the error of the failed last write. Nothing follows a failed write.
#[verifier::opaque]
pub open spec fn runs_plan<E>(
    before: Seq<(u8, Seq<u8>, Result<(), E>)>,
    after: Seq<(u8, Seq<u8>, Result<(), E>)>,
    dev: u8,
    plan: Seq<Seq<u8>>,
    r: Result<(), Error<E>>,
) -> bool {
    let b = before.len() as int;
    let n = after.len() - b;
    &&& 0 <= n <= plan.len()
    &&& after.take(b) == before
    &&& forall|i: int| b <= i < after.len() ==> (#[trigger] after[i]).0 == dev
    &&& forall|i: int| b <= i < after.len() ==> (#[trigger] after[i]).1 == plan[i - b]
    &&& forall|i: int| b <= i < after.len() - 1 ==> (#[trigger] after[i]).2 is Ok
    &&& if n > 0 && after.last().2 is Err {
        r == bus_result(after.last().2)
    } else {
        n == plan.len() && r == Ok::<(), Error<E>>(())
    }
}

/// A plan with nothing in it runs without a write.
pub proof fn lemma_runs_empty<E>(log: Seq<(u8, Seq<u8>, Result<(), E>)>, dev: u8)
    ensures
        runs_plan(log, log, dev, Seq::empty(), Ok::<(), Error<E>>(())),
{
    reveal(runs_plan);
    assert(log.take(log.len() as int) =~= log);
}

/// One transaction runs the plan of its single write.
pub proof fn lemma_runs_once<E>(
    before: Seq<(u8, Seq<u8>, Result<(), E>)>,
    after: Seq<(u8, Seq<u8>, Result<(), E>)>,
    dev: u8,
    bytes: Seq<u8>,
    r: Result<(), Error<E>>,
)
    requires
        wrote_once(before, after, dev, bytes, r),
    ensures
        runs_plan(before, after, dev, seq![bytes], r),
{
    reveal(runs_plan);
    assert(after.take(before.len() as int) =~= before);
}

/// A plan that ran to its end followed by another runs their concatenation;
/// a failed plan stays failed whatever was to follow it.
pub proof fn lemma_runs_then<E>(
    a: Seq<(u8, Seq<u8>, Result<(), E>)>,
    b: Seq<(u8, Seq<u8>, Result<(), E>)>,
    c: Seq<(u8, Seq<u8>, Result<(), E>)>,
    dev: u8,
    p1: Seq<Seq<u8>>,
    p2: Seq<Seq<u8>>,
    rest: Seq<Seq<u8>>,
    r: Result<(), Error<E>>,
)
    requires
        runs_plan(a, b, dev, p1, Ok::<(), Error<E>>(())),
        runs_plan(b, c, dev, p2, r),
    ensures
        runs_plan(a, c, dev, p1 + p2, r),
        r is Err ==> runs_plan(a, c, dev, p1 + p2 + rest, r),
        !(r is Err) ==> r == Ok::<(), Error<E>>(()),
{
    reveal(runs_plan);
    let la = a.len() as int;
    let lb = b.len() as int;
    let p = p1 + p2;
    assert(lb - la == p1.len());
    assert(c.take(la) =~= a) by {
        assert forall|i: int| 0 <= i < la implies c.take(la)[i] == a[i] by {
            assert(c.take(lb)[i] == b[i]);
            assert(b.take(la)[i] == a[i]);
        }
    }
    assert forall|i: int| la <= i < c.len() implies (#[trigger] c[i]).1 == p[i - la] && c[i].0 == dev by {
        if i < lb {
            assert(c.take(lb)[i] == b[i]);
        } else {
            assert(c[i].1 == p2[i - lb]);
        }
    }
    assert forall|i: int| la <= i < c.len() - 1 implies (#[trigger] c[i]).2 is Ok by {
        if i < lb {
            assert(c.take(lb)[i] == b[i]);
            if i == lb - 1 {
                assert(b.last() == b[i]);
            }
        }
    }
    if c.len() == lb {
        assert(c =~= b) by {
            assert forall|i: int| 0 <= i < lb implies c[i] == b[i] by {
                assert(c.take(lb)[i] == b[i]);
            }
        }
    }
    if r is Err {
        let q = p + rest;
        assert forall|i: int| la <= i < c.len() implies (#[trigger] c[i]).1 == q[i - la] by {
            assert(c[i].1 == p[i - la]);
        }
    }
}

/// A run that did not fail returned `Ok(())`.
pub proof fn lemma_runs_ok<E>(
    a: Seq<(u8, Seq<u8>, Result<(), E>)>,
    b: Seq<(u8, Seq<u8>, Result<(), E>)>,
    dev: u8,
    p: Seq<Seq<u8>>,
    r: Result<(), Error<E>>,
)
    requires
        runs_plan(a, b, dev, p, r),
        !(r is Err),
    ensures
        r == Ok::<(), Error<E>>(()),
        runs_plan(a, b, dev, p, Ok::<(), Error<E>>(())),
{
    reveal(runs_plan);
}

/// A failed run stays failed whatever was to follow it.
pub proof fn lemma_runs_stop<E>(
    a: Seq<(u8, Seq<u8>, Result<(), E>)>,
    b: Seq<(u8, Seq<u8>, Result<(), E>)>,
    dev: u8,
    p: Seq<Seq<u8>>,
    rest: Seq<Seq<u8>>,
    r: Result<(), Error<E>>,
)
    requires
        runs_plan(a, b, dev, p, r),
        r is Err,
    ensures
        runs_plan(a, b, dev, p + rest, r),
{
    reveal(runs_plan);
    let q = p + rest;
    assert forall|i: int| a.len() <= i < b.len() implies (#[trigger] b[i]).1 == q[i - a.len()] by {
        assert(b[i].1 == p[i - a.len()]);
    }
}

} // verus!
