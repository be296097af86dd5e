//! The threshold configuration for an unweighted PVSS: the threshold `t`
//! and the number of players `n` such that any `t` or more players can
//! reconstruct a dealt secret, together with the evaluation domains sized
//! for `n`.

use vstd::prelude::*;
use crate::algebra::evaluation_domain::{BatchEvaluationDomain, EvaluationDomain};
use crate::constants::MAX_PLAYERS;
use crate::pvss::player::Player;
use crate::utils::random::RandomSource;

verus! {

/// The pair `(t, n)` with `1 <= t <= n`, plus the evaluation domains all
/// operations over this configuration share.
pub struct ThresholdConfig {
    pub(crate) t: usize,
    pub(crate) n: usize,
    dom: EvaluationDomain,
    batch_dom: BatchEvaluationDomain,
}

impl ThresholdConfig {
    /// The reconstruction threshold `t`.
    pub closed spec fn t_spec(&self) -> nat {
        self.t as nat
    }

    /// The number of players `n`.
    pub closed spec fn n_spec(&self) -> nat {
        self.n as nat
    }

    /// The batch evaluation domain of the configuration.
    pub closed spec fn batch_dom_spec(&self) -> BatchEvaluationDomain {
        self.batch_dom
    }

    /// The evaluation domain of the configuration.
    pub closed spec fn dom_spec(&self) -> EvaluationDomain {
        self.dom
    }

    /// A well-formed configuration has `1 <= t <= n`, bounded `n`, and
    /// matching evaluation domains sized to the smallest power of two at
    /// least `n`.
    pub open spec fn wf(&self) -> bool {
        &&& 1 <= self.t_spec() <= self.n_spec() <= MAX_PLAYERS
        &&& self.batch_dom_spec().wf()
        &&& self.n_spec() <= self.batch_dom_spec().size_spec() < 2 * self.n_spec()
        &&& self.dom_spec().wf()
        &&& self.dom_spec().size_spec() == self.batch_dom_spec().size_spec()
    }

    /// Creates a new `t` out of `n` secret sharing configuration where any
    /// subset of `t` or more players can reconstruct the secret.
    pub fn new(t: usize, n: usize) -> (r: Self)
        requires
            1 <= t <= n <= MAX_PLAYERS,
        ensures
            r.wf(),
            r.t_spec() == t,
            r.n_spec() == n,
    {
        let batch_dom = BatchEvaluationDomain::new(n);
        let dom = batch_dom.get_subdomain(n);
        proof {
            if dom.log_size_spec() < batch_dom.log_size_spec() {
                vstd::arithmetic::power2::lemma_pow2_unfold(batch_dom.log_size_spec());
                if dom.log_size_spec() < batch_dom.log_size_spec() - 1 {
                    vstd::arithmetic::power2::lemma_pow2_strictly_increases(
                        dom.log_size_spec(), (batch_dom.log_size_spec() - 1) as nat);
                }
                assert(2 * dom.size_spec() <= batch_dom.size_spec());
                assert(false);
            }
            if dom.log_size_spec() > batch_dom.log_size_spec() {
                vstd::arithmetic::power2::lemma_pow2_strictly_increases(
                    batch_dom.log_size_spec(), dom.log_size_spec());
                assert(false);
            }
        }
        ThresholdConfig { t, n, dom, batch_dom }
    }

    /// The threshold `t`: at least `t` shares are needed to reconstruct.
    pub fn get_threshold(&self) -> (r: usize)
        ensures
            r as nat == self.t_spec(),
    {
        self.t
    }

    /// The total number of players in the configuration.
    pub fn get_total_num_players(&self) -> (r: usize)
        ensures
            r as nat == self.n_spec(),
    {
        self.n
    }

    /// The total number of shares dealt: one per player.
    pub fn get_total_num_shares(&self) -> (r: usize)
        ensures
            r as nat == self.n_spec(),
    {
        self.n
    }

    /// The batch evaluation domain shared by operations over this
    /// configuration.
    pub fn get_batch_evaluation_domain(&self) -> (r: &BatchEvaluationDomain)
        ensures
            *r == self.batch_dom_spec(),
    {
        &self.batch_dom
    }

    /// The evaluation domain for FFTs of the padded size of `n`.
    pub fn get_evaluation_domain(&self) -> (r: &EvaluationDomain)
        ensures
            *r == self.dom_spec(),
    {
        &self.dom
    }

    /// The player with index `i`.
    pub fn get_player(&self, i: usize) -> (r: Player)
        requires
            (i as nat) < self.n_spec(),
        ensures
            r.id_spec() == i,
    {
        Player::from_index(i)
    }

    /// Draws `t` distinct players uniformly, a subset capable of
    /// reconstructing the secret. Used when exercising reconstruction.
    pub fn get_random_subset_of_capable_players(&self, rng: &mut RandomSource) -> (r: Vec<Player>)
        requires
            self.wf(),
        ensures
            r@.len() == self.t_spec(),
            forall|i: int| 0 <= i < r@.len() ==> (#[trigger] r@[i]).id_spec() < self.n_spec(),
            forall|i: int, j: int|
                0 <= i < r@.len() && 0 <= j < r@.len() && i != j ==> r@[i].id_spec()
                    != r@[j].id_spec(),
    {
        let mut ids: Vec<usize> = Vec::new();
        let mut i: usize = 0;
        while i < self.n
            invariant
                i <= self.n,
                ids@.len() == i,
                forall|k: int| 0 <= k < i ==> #[trigger] ids@[k] == k,
            decreases self.n - i,
        {
            ids.push(i);
            i += 1;
        }
        proof {
            assert(forall|a: int, b: int|
                0 <= a < ids@.len() && 0 <= b < ids@.len() && a != b ==> ids@[a] != ids@[b]);
        }
        let mut r: Vec<Player> = Vec::new();
        let mut i: usize = 0;
        while i < self.t
            invariant
                self.wf(),
                i <= self.t,
                ids@.len() == self.n_spec(),
                i <= self.n,
                r@.len() == i,
                forall|k: int| 0 <= k < ids@.len() ==> #[trigger] ids@[k] < self.n_spec(),
                forall|a: int, b: int|
                    0 <= a < ids@.len() && 0 <= b < ids@.len() && a != b ==> ids@[a] != ids@[b],
                forall|k: int| 0 <= k < i ==> (#[trigger] r@[k]).id_spec() == ids@[k],
            decreases self.t - i,
        {
            let remaining = self.n - i;
            let pick = i + ((rng.next_u64() % (remaining as u64)) as usize);
            let chosen = ids[pick];
            let displaced = ids[i];
            ids.set(i, chosen);
            ids.set(pick, displaced);
            r.push(Player::from_index(chosen));
            i += 1;
        }
        r
    }
}

} // verus!
