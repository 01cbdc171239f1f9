//! A pool of proxies handed out by a rotation strategy: round robin, random,
//! least used, or failover (stay on one until told to move on).

use vstd::prelude::*;

use rand::Rng;

use crate::config::{ProxyConfig, ProxyStrategy};

verus! {

/// The state of a pool: how many proxies it holds, its strategy, the
/// rotation position, and how often each proxy was handed out.
pub ghost struct PoolView {
    pub len: nat,
    pub strategy: ProxyStrategy,
    pub current: usize,
    pub usage: Seq<usize>,
}

/// A pool of proxies with a rotation strategy.
pub struct ProxyPool {
    proxies: Vec<ProxyConfig>,
    strategy: ProxyStrategy,
    current_index: usize,
    usage_counts: Vec<usize>,
}

impl View for ProxyPool {
    type V = PoolView;

    closed spec fn view(&self) -> PoolView {
        PoolView {
            len: self.proxies@.len(),
            strategy: self.strategy,
            current: self.current_index,
            usage: self.usage_counts@,
        }
    }
}

/// A counter after one increment; counters wrap around at `usize::MAX`.
pub open spec fn wrapped_inc(x: usize) -> usize {
    if x == usize::MAX {
        0
    } else {
        (x + 1) as usize
    }
}

/// `i` is the first index of a least-used proxy.
pub open spec fn is_least_used(usage: Seq<usize>, i: int) -> bool {
    &&& 0 <= i < usage.len()
    &&& forall|j: int| 0 <= j < usage.len() ==> usage[i] <= #[trigger] usage[j]
    &&& forall|j: int| 0 <= j < i ==> usage[i] < #[trigger] usage[j]
}

/// The index the strategy selects (for a random pool, `random` is the index
/// drawn).
pub open spec fn selected_index(v: PoolView, random: int) -> int {
    match v.strategy {
        ProxyStrategy::RoundRobin => (v.current as int) % (v.len as int),
        ProxyStrategy::FailoverOnly => (v.current as int) % (v.len as int),
        ProxyStrategy::Random => random,
        ProxyStrategy::LeastUsed => choose|i: int| is_least_used(v.usage, i),
    }
}

/// The pool after handing out the proxy at `i`: its usage goes up, and a
/// round-robin pool moves on.
pub open spec fn after_selection(v: PoolView, i: int) -> PoolView {
    PoolView {
        usage: v.usage.update(i, wrapped_inc(v.usage[i])),
        current: if v.strategy == ProxyStrategy::RoundRobin {
            wrapped_inc(v.current)
        } else {
            v.current
        },
        ..v
    }
}

/// A uniformly random index below `n` (`rand::Rng::gen_range(0..n)` on the
/// thread-local generator). Only the range is stated.
#[verifier::external_body]
pub(crate) fn random_index(n: usize) -> (res: usize)
    requires
        n > 0,
    ensures
        res < n,
{
    rand::thread_rng().gen_range(0..n)
}

impl ProxyPool {
    /// A pool over `proxies` with the given strategy; nothing handed out yet.
    pub fn new(proxies: Vec<ProxyConfig>, strategy: ProxyStrategy) -> (res: ProxyPool)
        ensures
            res@.len == proxies@.len(),
            res@.strategy == strategy,
            res@.current == 0,
            res@.usage == Seq::new(proxies@.len(), |i: int| 0usize),
            res.proxies() == proxies@,
            res.wf(),
    {
        let mut usage_counts: Vec<usize> = Vec::new();
        let mut i: usize = 0;
        while i < proxies.len()
            invariant
                i <= proxies.len(),
                usage_counts@ == Seq::new(i as nat, |k: int| 0usize),
            decreases proxies.len() - i,
        {
            usage_counts.push(0);
            i = i + 1;
            assert(usage_counts@ =~= Seq::new(i as nat, |k: int| 0usize));
        }
        ProxyPool { proxies, strategy, current_index: 0, usage_counts }
    }

    /// The proxies of the pool, in order.
    pub closed spec fn proxies(&self) -> Seq<ProxyConfig> {
        self.proxies@
    }

    /// The pool's internal consistency: one usage counter per proxy.
    pub closed spec fn wf(&self) -> bool {
        self.usage_counts@.len() == self.proxies@.len()
    }

    /// A pool is consistent exactly when it keeps one usage counter per
    /// proxy.
    pub proof fn lemma_wf_counters(&self)
        ensures
            self.wf() <==> self@.usage.len() == self@.len,
            self.proxies().len() == self@.len,
    {
    }

    /// Hand out the next proxy, returning its index: `None` for an empty
    /// pool; otherwise round robin and failover take the rotation position
    /// (modulo the pool size), random draws an index, least used takes the
    /// first proxy with the fewest uses. The proxy's usage goes up and a
    /// round-robin pool moves on.
    pub fn next_proxy_index(&mut self) -> (res: Option<usize>)
        requires
            old(self).wf(),
        ensures
            final(self).wf(),
            final(self).proxies() == old(self).proxies(),
            old(self)@.len == 0 ==> res is None && final(self)@ == old(self)@,
            old(self)@.len > 0 ==> (res matches Some(i) && i < old(self)@.len && (old(self)@.strategy
                != ProxyStrategy::Random ==> i == selected_index(old(self)@, 0)) && final(self)@
                == after_selection(old(self)@, i as int)),
    {
        let n = self.proxies.len();
        if n == 0 {
            return None;
        }
        let idx: usize = match self.strategy {
            ProxyStrategy::RoundRobin => self.current_index % n,
            ProxyStrategy::FailoverOnly => self.current_index % n,
            ProxyStrategy::Random => random_index(n),
            ProxyStrategy::LeastUsed => {
                let mut min_idx: usize = 0;
                let mut min_count: usize = self.usage_counts[0];
                let mut i: usize = 1;
                while i < n
                    invariant
                        1 <= i <= n,
                        n == self.usage_counts@.len(),
                        min_idx < i,
                        min_count == self.usage_counts@[min_idx as int],
                        forall|j: int| 0 <= j < i ==> min_count <= #[trigger] self.usage_counts@[j],
                        forall|j: int| 0 <= j < min_idx ==> min_count < #[trigger] self.usage_counts@[j],
                    decreases n - i,
                {
                    let count = self.usage_counts[i];
                    if count < min_count {
                        min_count = count;
                        min_idx = i;
                    }
                    i = i + 1;
                }
                proof {
                    assert(is_least_used(self@.usage, min_idx as int));
                    let c = choose|c: int| is_least_used(self@.usage, c);
                    if c < min_idx {
                        assert(self@.usage[min_idx as int] < self@.usage[c]);
                    } else if c > min_idx {
                        assert(self@.usage[c] < self@.usage[min_idx as int]);
                    }
                }
                min_idx
            },
        };
        let ghost before = self@;
        let u = self.usage_counts[idx];
        let bumped: usize = if u == usize::MAX {
            0
        } else {
            u + 1
        };
        self.usage_counts.set(idx, bumped);
        if self.strategy == ProxyStrategy::RoundRobin {
            self.current_index = if self.current_index == usize::MAX {
                0
            } else {
                self.current_index + 1
            };
        }
        assert(self@ == after_selection(before, idx as int));
        Some(idx)
    }

    /// Hand out the next proxy (see [`ProxyPool::next_proxy_index`]).
    pub fn next_proxy(&mut self) -> (res: Option<&ProxyConfig>)
        requires
            old(self).wf(),
        ensures
            final(self).wf(),
            final(self).proxies() == old(self).proxies(),
            old(self)@.len == 0 ==> res is None && final(self)@ == old(self)@,
            old(self)@.len > 0 ==> exists|i: int|
                0 <= i < old(self)@.len && (old(self)@.strategy != ProxyStrategy::Random ==> i
                    == selected_index(old(self)@, 0)) && final(self)@ == after_selection(
                    old(self)@,
                    i,
                ) && res == Some(&old(self).proxies()[i]),
    {
        match self.next_proxy_index() {
            Some(i) => Some(&self.proxies[i]),
            None => None,
        }
    }

    /// Move the failover position on to the next proxy (wrapping at
    /// `usize::MAX`).
    pub fn advance_failover(&mut self)
        ensures
            final(self)@ == (PoolView { current: wrapped_inc(old(self)@.current), ..old(self)@ }),
            final(self).proxies() == old(self).proxies(),
            old(self).wf() ==> final(self).wf(),
    {
        self.current_index = if self.current_index == usize::MAX {
            0
        } else {
            self.current_index + 1
        };
    }

    /// Whether the pool holds no proxies.
    pub fn is_empty(&self) -> (res: bool)
        ensures
            res == (self@.len == 0),
    {
        self.proxies.len() == 0
    }

    /// The number of proxies in the pool.
    pub fn len(&self) -> (res: usize)
        ensures
            res == self@.len,
    {
        self.proxies.len()
    }

    /// How often the proxy at `index` was handed out; 0 for an index outside
    /// the pool.
    pub fn usage_count(&self, index: usize) -> (res: usize)
        ensures
            index < self@.usage.len() ==> res == self@.usage[index as int],
            index >= self@.usage.len() ==> res == 0,
    {
        if index < self.usage_counts.len() {
            self.usage_counts[index]
        } else {
            0
        }
    }
}

// ---------------------------------------------------------------------------
// Laws
// ---------------------------------------------------------------------------

/// A round-robin pool hands out the proxies in order and wraps around: the
/// proxy after the one at the rotation position `c` is at `c + 1`.
pub proof fn lemma_round_robin_advances(v: PoolView)
    requires
        v.len > 0,
        v.strategy == ProxyStrategy::RoundRobin,
        v.current < usize::MAX,
        v.usage.len() == v.len,
    ensures
        selected_index(after_selection(v, selected_index(v, 0)), 0) == (v.current + 1) % (v.len as int),
{
}

/// A failover pool keeps handing out the same proxy until it is advanced.
pub proof fn lemma_failover_stays(v: PoolView)
    requires
        v.len > 0,
        v.strategy == ProxyStrategy::FailoverOnly,
        v.usage.len() == v.len,
    ensures
        selected_index(after_selection(v, selected_index(v, 0)), 0) == selected_index(v, 0),
{
}

/// The index of the first smallest of the first `k` counters.
pub open spec fn first_min_index(u: Seq<usize>, k: nat) -> int
    decreases k,
{
    if k <= 1 {
        0
    } else {
        let m = first_min_index(u, (k - 1) as nat);
        if u[k - 1] < u[m] {
            k - 1
        } else {
            m
        }
    }
}

proof fn lemma_first_min(u: Seq<usize>, k: nat)
    requires
        1 <= k <= u.len(),
    ensures
        0 <= first_min_index(u, k) < k,
        forall|j: int| 0 <= j < k ==> u[first_min_index(u, k)] <= #[trigger] u[j],
        forall|j: int| 0 <= j < first_min_index(u, k) ==> u[first_min_index(u, k)] < #[trigger] u[j],
    decreases k,
{
    if k > 1 {
        lemma_first_min(u, (k - 1) as nat);
    }
}

/// A least-used pool never hands out a proxy while another has been used
/// less.
pub proof fn lemma_least_used_is_minimal(v: PoolView, j: int)
    requires
        v.len > 0,
        v.strategy == ProxyStrategy::LeastUsed,
        v.usage.len() == v.len,
        0 <= j < v.len,
    ensures
        v.usage[selected_index(v, 0)] <= v.usage[j],
{
    lemma_first_min(v.usage, v.usage.len());
    let m = first_min_index(v.usage, v.usage.len());
    assert(is_least_used(v.usage, m));
}

} // verus!
