//! The data ports that sessions reserve, one each.

use vstd::prelude::*;

verus! {

/// Why no port was handed out.
#[derive(Clone, Copy, Debug, PartialEq, Eq, Structural)]
pub enum PoolError {
    /// Every port of the pool is held by a session.
    Exhausted,
}

/// The pool of data ports: those that are free, in the order in which they
/// will be handed out, and those that sessions hold.
#[derive(Debug)]
pub struct DataPortPool {
    pub free: Vec<i32>,
    pub held: Vec<i32>,
}

/// Do `a` and `b` share no element?
pub open spec fn disjoint(a: Seq<i32>, b: Seq<i32>) -> bool {
    forall|i: int, j: int| 0 <= i < a.len() && 0 <= j < b.len() ==> a[i] != b[j]
}

/// `ports` without the ports that occur earlier in it.
pub open spec fn without_repeats(ports: Seq<i32>) -> Seq<i32>
    decreases ports.len(),
{
    if ports.len() == 0 {
        ports
    } else if without_repeats(ports.drop_last()).contains(ports.last()) {
        without_repeats(ports.drop_last())
    } else {
        without_repeats(ports.drop_last()).push(ports.last())
    }
}

/// A place of `port` in `v`, if it has one.
fn occurs_in(v: &Vec<i32>, port: i32) -> (r: Option<usize>)
    ensures
        match r {
            Some(i) => i < v@.len() && v@[i as int] == port,
            None => !v@.contains(port),
        },
{
    let mut i: usize = 0;
    while i < v.len()
        invariant
            i <= v@.len(),
            forall|k: int| 0 <= k < i ==> v@[k] != port,
        decreases v@.len() - i,
    {
        if v[i] == port {
            return Some(i);
        }
        i += 1;
    }
    None
}

impl DataPortPool {
    /// The pool's invariant: no port occurs twice, so no two sessions hold
    /// the same port and no held port can be handed out.
    pub open spec fn wf(&self) -> bool {
        &&& self.free@.no_duplicates()
        &&& self.held@.no_duplicates()
        &&& disjoint(self.free@, self.held@)
    }

    /// A pool of the given ports, all free, in the given order; a port that
    /// is given twice counts once.
    pub fn new(ports: &Vec<i32>) -> (r: DataPortPool)
        ensures
            r.wf(),
            r.free@ == without_repeats(ports@),
            r.held@.len() == 0,
    {
        let mut free: Vec<i32> = Vec::new();
        let mut i: usize = 0;
        while i < ports.len()
            invariant
                i <= ports@.len(),
                free@ == without_repeats(ports@.subrange(0, i as int)),
                free@.no_duplicates(),
            decreases ports@.len() - i,
        {
            let p: i32 = ports[i];
            proof {
                assert(ports@.subrange(0, i + 1).drop_last() =~= ports@.subrange(0, i as int));
            }
            if occurs_in(&free, p).is_none() {
                free.push(p);
            }
            i += 1;
        }
        assert(ports@.subrange(0, ports@.len() as int) =~= ports@);
        DataPortPool { free, held: Vec::new() }
    }

    /// The number of free ports.
    pub fn available(&self) -> (r: usize)
        ensures
            r == self.free@.len(),
    {
        self.free.len()
    }

    /// Reserve the first free port for a new session. With none free the pool
    /// stays as it is and says so.
    pub fn allocate(&mut self) -> (r: Result<i32, PoolError>)
        requires
            old(self).wf(),
        ensures
            final(self).wf(),
            match r {
                Ok(p) => {
                    &&& old(self).free@.len() > 0
                    &&& p == old(self).free@[0]
                    &&& !old(self).held@.contains(p)
                    &&& final(self).free@ == old(self).free@.subrange(
                        1,
                        old(self).free@.len() as int,
                    )
                    &&& final(self).held@ == old(self).held@.push(p)
                },
                Err(e) => {
                    &&& old(self).free@.len() == 0
                    &&& e == PoolError::Exhausted
                    &&& final(self).free@ == old(self).free@
                    &&& final(self).held@ == old(self).held@
                },
            },
    {
        if self.free.len() == 0 {
            return Err(PoolError::Exhausted);
        }
        let p: i32 = self.free.remove(0);
        self.held.push(p);
        proof {
            let f0 = old(self).free@;
            let h0 = old(self).held@;
            assert(self.free@ =~= f0.subrange(1, f0.len() as int));
            assert(!h0.contains(p)) by {
                if h0.contains(p) {
                    let j = choose|j: int| 0 <= j < h0.len() && h0[j] == p;
                    assert(f0[0] != h0[j]);
                }
            }
            assert forall|i: int, j: int|
                0 <= i < self.free@.len() && 0 <= j < self.held@.len() implies self.free@[i]
                != self.held@[j] by {
                assert(self.free@[i] == f0[i + 1]);
                if j < h0.len() {
                    assert(self.held@[j] == h0[j]);
                } else {
                    assert(self.held@[j] == f0[0]);
                }
            }
        }
        Ok(p)
    }

    /// Give back the port of a session that ended: it becomes the last of
    /// the free ports. A port that no session holds changes nothing.
    pub fn release(&mut self, port: i32) -> (r: bool)
        requires
            old(self).wf(),
        ensures
            final(self).wf(),
            r == old(self).held@.contains(port),
            r ==> {
                &&& final(self).free@ == old(self).free@.push(port)
                &&& !final(self).held@.contains(port)
                &&& final(self).held@.len() == old(self).held@.len() - 1
                &&& forall|q: i32|
                    q != port ==> (final(self).held@.contains(q) <==> old(self).held@.contains(q))
            },
            !r ==> final(self).free@ == old(self).free@ && final(self).held@ == old(self).held@,
    {
        match occurs_in(&self.held, port) {
            None => false,
            Some(k) => {
                self.held.remove(k);
                self.free.push(port);
                proof {
                    let f0 = old(self).free@;
                    let h0 = old(self).held@;
                    let h1 = self.held@;
                    assert(h1 =~= h0.remove(k as int));
                    assert forall|j: int| 0 <= j < h1.len() implies h1[j] == (if j < k {
                        h0[j]
                    } else {
                        h0[j + 1]
                    }) by {}
                    assert forall|q: i32| q != port implies (h1.contains(q) <==> h0.contains(
                        q,
                    )) by {
                        if h1.contains(q) {
                            let j = choose|j: int| 0 <= j < h1.len() && h1[j] == q;
                            if j < k {
                                assert(h0[j] == q);
                            } else {
                                assert(h0[j + 1] == q);
                            }
                        }
                        if h0.contains(q) {
                            let j = choose|j: int| 0 <= j < h0.len() && h0[j] == q;
                            if j < k {
                                assert(h1[j] == q);
                            } else {
                                assert(h1[j - 1] == q);
                            }
                        }
                    }
                    assert(!h1.contains(port)) by {
                        if h1.contains(port) {
                            let j = choose|j: int| 0 <= j < h1.len() && h1[j] == port;
                            if j < k {
                                assert(h0[j] == h0[k as int]);
                            } else {
                                assert(h0[j + 1] == h0[k as int]);
                            }
                        }
                    }
                    assert forall|i: int, j: int|
                        0 <= i < self.free@.len() && 0 <= j < h1.len() implies self.free@[i]
                        != h1[j] by {
                        let jj = if j < k {
                            j
                        } else {
                            j + 1
                        };
                        assert(h1[j] == h0[jj]);
                        if i < f0.len() {
                            assert(self.free@[i] == f0[i]);
                        } else {
                            assert(h0[jj] != h0[k as int]);
                        }
                    }
                    assert forall|i: int, j: int|
                        0 <= i < self.free@.len() && 0 <= j < self.free@.len() && i
                        != j implies self.free@[i] != self.free@[j] by {
                        if i == f0.len() {
                            assert(self.free@[j] == f0[j]);
                            assert(f0[j] != h0[k as int]);
                        } else if j == f0.len() {
                            assert(self.free@[i] == f0[i]);
                            assert(f0[i] != h0[k as int]);
                        }
                    }
                }
                true
            },
        }
    }
}

} // verus!
