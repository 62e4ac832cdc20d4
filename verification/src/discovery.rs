//! Probing every known runtime in turn. The probes are network calls made
//! by the application; which runtime to probe next, and which answers count,
//! is decided here.

use vstd::prelude::*;

verus! {

/// A probe of every known runtime in turn. Two runtimes can share a default
/// endpoint (llama.cpp and MLX do); whichever answers first claims it, and
/// the other is not probed, so no endpoint is reported twice.
#[derive(Debug)]
pub struct Sweep {
    /// Each runtime's listing endpoint, in the order of `RuntimeKind::ALL`.
    endpoints: Vec<String>,
    /// The next runtime to consider.
    next: usize,
    /// The runtime last handed out for probing.
    last: Option<usize>,
    /// Endpoints a runtime answered on.
    claimed: Vec<String>,
    /// The runtimes that answered, in the order they were probed.
    found: Vec<usize>,
}

impl Sweep {
    pub closed spec fn endpoints(&self) -> Seq<Seq<char>> {
        crate::text::texts(self.endpoints@)
    }

    pub closed spec fn position(&self) -> nat {
        self.next as nat
    }

    pub closed spec fn pending(&self) -> Option<nat> {
        match self.last {
            Some(i) => Some(i as nat),
            None => None,
        }
    }

    pub closed spec fn answered(&self) -> Seq<nat> {
        self.found@.map_values(|i: usize| i as nat)
    }

    /// The endpoints claimed so far.
    pub closed spec fn claimed(&self) -> Seq<Seq<char>> {
        crate::text::texts(self.claimed@)
    }

    /// The sweep's invariant: every claimed endpoint is the endpoint of the
    /// runtime that claimed it, no endpoint is claimed twice, and runtimes
    /// are taken in order.
    pub closed spec fn wf(&self) -> bool {
        &&& self.next <= self.endpoints.len()
        &&& self.found.len() == self.claimed.len()
        &&& forall|k: int| 0 <= k < self.found.len() ==> (#[trigger] self.found@[k]) < self.next
        &&& forall|k: int| 0 <= k < self.found.len() ==> self.claimed@[k]@ == self.endpoints@[self.found@[k] as int]@
        &&& forall|a: int, b: int| 0 <= a < b < self.claimed.len() ==> self.claimed@[a]@ != self.claimed@[b]@
        &&& forall|a: int, b: int| 0 <= a < b < self.found.len() ==> self.found@[a] < self.found@[b]
        &&& (self.last matches Some(i) ==> i < self.next && i < self.endpoints.len())
        &&& (self.last matches Some(i) ==> forall|k: int| 0 <= k < self.found.len() ==> (#[trigger] self.found@[k]) < i)
    }

    /// Start a sweep over runtimes listening on these endpoints.
    pub fn new(endpoints: Vec<String>) -> (s: Sweep)
        ensures
            s.wf(),
            s.endpoints() == crate::text::texts(endpoints@),
            s.position() == 0,
            s.pending() is None,
            s.answered() == Seq::<nat>::empty(),
            s.claimed() == Seq::<Seq<char>>::empty(),
    {
        let s = Sweep { endpoints, next: 0, last: None, claimed: Vec::new(), found: Vec::new() };
        assert(s.answered() =~= Seq::<nat>::empty());
        assert(s.claimed() =~= Seq::<Seq<char>>::empty());
        s
    }

    /// The next runtime to probe, as a position in `RuntimeKind::ALL`; runtimes
    /// whose endpoint is already claimed are passed over. `None` when every
    /// runtime has been considered.
    pub fn next_probe(&mut self) -> (r: Option<usize>)
        requires
            old(self).wf(),
        ensures
            final(self).wf(),
            final(self).endpoints() == old(self).endpoints(),
            final(self).claimed() == old(self).claimed(),
            final(self).answered() == old(self).answered(),
            match r {
                Some(i) => {
                    &&& old(self).position() <= i < old(self).endpoints().len()
                    &&& !old(self).claimed().contains(old(self).endpoints()[i as int])
                    &&& forall|j: int| old(self).position() <= j < i ==> old(self).claimed().contains(
                        #[trigger] old(self).endpoints()[j],
                    )
                    &&& final(self).position() == i + 1
                    &&& final(self).pending() == Some(i as nat)
                },
                None => {
                    &&& forall|j: int| old(self).position() <= j < old(self).endpoints().len() ==> old(
                        self,
                    ).claimed().contains(#[trigger] old(self).endpoints()[j])
                    &&& final(self).position() == old(self).endpoints().len()
                    &&& final(self).pending() is None
                },
            },
    {
        let ghost claimed = self.claimed();
        let ghost eps = self.endpoints();
        let ghost start = self.next;
        while self.next < self.endpoints.len()
            invariant
                self.wf(),
                start == old(self).next,
                claimed == old(self).claimed(),
                eps == old(self).endpoints(),
                self.claimed() == claimed,
                self.endpoints() == eps,
                self.found@ == old(self).found@,
                self.claimed@ == old(self).claimed@,
                self.endpoints@ == old(self).endpoints@,
                start <= self.next,
                forall|j: int| start <= j < self.next ==> claimed.contains(#[trigger] eps[j]),
            decreases self.endpoints.len() - self.next,
        {
            let i = self.next;
            let mut taken = false;
            let mut k: usize = 0;
            while k < self.claimed.len()
                invariant
                    k <= self.claimed.len(),
                    i < self.endpoints.len(),
                    !taken ==> forall|m: int| 0 <= m < k ==> self.claimed@[m]@ != self.endpoints@[i as int]@,
                    taken ==> claimed.contains(eps[i as int]),
                    claimed == crate::text::texts(self.claimed@),
                    eps == crate::text::texts(self.endpoints@),
                decreases self.claimed.len() - k,
            {
                if !taken && crate::text::str_eq(self.claimed[k].as_str(), self.endpoints[i].as_str()) {
                    taken = true;
                    assert(claimed[k as int] == eps[i as int]);
                }
                k = k + 1;
            }
            self.next = i + 1;
            if !taken {
                self.last = Some(i);
                proof {
                    if claimed.contains(eps[i as int]) {
                        let m = choose|m: int| 0 <= m < claimed.len() && claimed[m] == eps[i as int];
                        assert(self.claimed@[m]@ == self.endpoints@[i as int]@);
                    }
                }
                return Some(i);
            }
        }
        self.last = None;
        None
    }

    /// The runtime last handed out answered: it claims its endpoint.
    pub fn answered_last(&mut self)
        requires
            old(self).wf(),
        ensures
            final(self).wf(),
            final(self).endpoints() == old(self).endpoints(),
            final(self).position() == old(self).position(),
            final(self).pending() is None,
            match old(self).pending() {
                Some(i) => if old(self).claimed().contains(old(self).endpoints()[i as int]) {
                    final(self).answered() == old(self).answered() && final(self).claimed() == old(self).claimed()
                } else {
                    final(self).answered() == old(self).answered().push(i)
                        && final(self).claimed() == old(self).claimed().push(old(self).endpoints()[i as int])
                },
                None => final(self).answered() == old(self).answered() && final(self).claimed() == old(
                    self,
                ).claimed(),
            },
    {
        let ghost old_claimed = self.claimed();
        let ghost old_found = self.answered();
        match self.last {
            None => {},
            Some(i) => {
                let mut dup = false;
                let mut k: usize = 0;
                while k < self.claimed.len()
                    invariant
                        k <= self.claimed.len(),
                        i < self.endpoints.len(),
                        !dup ==> forall|m: int| 0 <= m < k ==> self.claimed@[m]@ != self.endpoints@[i as int]@,
                        dup ==> old_claimed.contains(crate::text::texts(self.endpoints@)[i as int]),
                        old_claimed == crate::text::texts(self.claimed@),
                    decreases self.claimed.len() - k,
                {
                    if !dup && crate::text::str_eq(self.claimed[k].as_str(), self.endpoints[i].as_str()) {
                        dup = true;
                        assert(old_claimed[k as int] == crate::text::texts(self.endpoints@)[i as int]);
                    }
                    k = k + 1;
                }
                if dup {
                    self.last = None;
                    return;
                }
                let e = self.endpoints[i].clone();
                proof {
                    if old_claimed.contains(self.endpoints()[i as int]) {
                        let m = choose|m: int| 0 <= m < old_claimed.len() && old_claimed[m] == self.endpoints()[i as int];
                        assert(self.claimed@[m]@ == self.endpoints@[i as int]@);
                    }
                }
                self.claimed.push(e);
                self.found.push(i);
                self.last = None;
                proof {
                    assert(self.answered() =~= old_found.push(i as nat));
                    assert(self.claimed() =~= old_claimed.push(crate::text::texts(self.endpoints@)[i as int]));
                }
            },
        }
    }

    /// The runtimes that answered, as positions in `RuntimeKind::ALL`, in
    /// the order they were probed.
    pub fn found(&self) -> (r: &[usize])
        ensures
            r@.map_values(|i: usize| i as nat) == self.answered(),
    {
        self.found.as_slice()
    }
}

/// No endpoint is reported twice: the runtimes a sweep found answered on
/// pairwise different endpoints.
pub proof fn lemma_sweep_reports_each_endpoint_once(s: Sweep, a: int, b: int)
    requires
        s.wf(),
        0 <= a < b < s.answered().len(),
    ensures
        s.answered()[a] < s.answered()[b],
        s.endpoints()[s.answered()[a] as int] != s.endpoints()[s.answered()[b] as int],
{
    let x = s.answered()[a];
    let y = s.answered()[b];
    assert(x == s.found@[a] as nat && y == s.found@[b] as nat);
    assert(s.claimed@[a]@ == s.endpoints@[s.found@[a] as int]@);
    assert(s.claimed@[b]@ == s.endpoints@[s.found@[b] as int]@);
    assert(s.claimed@[a]@ != s.claimed@[b]@);
    assert(s.endpoints()[x as int] == s.endpoints@[s.found@[a] as int]@);
    assert(s.endpoints()[y as int] == s.endpoints@[s.found@[b] as int]@);
}
} // verus!
