//! The threshold configuration for a *weighted* PVSS: the minimum weight
//! `w` and the total weight `W` such that any subset of players with
//! combined weight at least `w` can reconstruct. A player of weight `k`
//! stands for `k` virtual unweighted players in a contiguous index range,
//! so the unweighted machinery runs unchanged underneath.

use vstd::prelude::*;
use crate::algebra::evaluation_domain::{BatchEvaluationDomain, EvaluationDomain};
use crate::constants::MAX_PLAYERS;
use crate::pvss::player::Player;
use crate::pvss::threshold_config::ThresholdConfig;

verus! {

/// The sum of the first `i` weights.
pub open spec fn weights_prefix_sum(w: Seq<usize>, i: int) -> int
    decreases i,
{
    if i <= 0 {
        0
    } else {
        weights_prefix_sum(w, i - 1) + w[i - 1]
    }
}

/// Prefix sums of nonnegative weights grow with the prefix.
pub proof fn lemma_prefix_sum_mono(w: Seq<usize>, i: int, j: int)
    requires
        0 <= i <= j <= w.len(),
    ensures
        weights_prefix_sum(w, i) <= weights_prefix_sum(w, j),
    decreases j,
{
    if i < j {
        lemma_prefix_sum_mono(w, i, j - 1);
    }
}

/// A `w`-out-of-`W` weighted configuration: the derived unweighted
/// configuration over the `W` virtual shares, the number of real players,
/// each player's weight, and each player's starting index among the shares.
pub struct WeightedConfig {
    tc: ThresholdConfig,
    n: usize,
    weight: Vec<usize>,
    starting_index: Vec<usize>,
}

impl WeightedConfig {
    /// The derived unweighted configuration.
    pub closed spec fn tc_spec(&self) -> ThresholdConfig {
        self.tc
    }

    /// The number of real players.
    pub closed spec fn n_spec(&self) -> nat {
        self.n as nat
    }

    /// The per-player weights.
    pub closed spec fn weights(&self) -> Seq<usize> {
        self.weight@
    }

    /// The per-player starting indices.
    pub closed spec fn starting_indices(&self) -> Seq<usize> {
        self.starting_index@
    }

    /// A well-formed weighted configuration: the starting index of each
    /// player is the sum of the weights before it, and the total weight is
    /// the size of the derived unweighted configuration.
    pub open spec fn wf(&self) -> bool {
        &&& self.tc_spec().wf()
        &&& 1 <= self.n_spec()
        &&& self.weights().len() == self.n_spec()
        &&& self.starting_indices().len() == self.n_spec()
        &&& forall|i: int|
            0 <= i < self.n_spec() ==> (#[trigger] self.starting_indices()[i]) as int
                == weights_prefix_sum(self.weights(), i)
        &&& self.tc_spec().n_spec() as int == weights_prefix_sum(
            self.weights(), self.n_spec() as int)
    }

    /// Builds the weighted configuration: computes the total weight, the
    /// per-player starting indices, and the derived unweighted
    /// configuration over the virtual shares.
    pub fn new(threshold_weight: usize, n: usize, weight: Vec<usize>) -> (r: Self)
        requires
            1 <= n,
            weight@.len() == n,
            1 <= threshold_weight,
            threshold_weight as int <= weights_prefix_sum(weight@, n as int),
            weights_prefix_sum(weight@, n as int) <= MAX_PLAYERS,
        ensures
            r.wf(),
            r.n_spec() == n,
            r.weights() == weight@,
            r.tc_spec().t_spec() == threshold_weight,
            r.tc_spec().n_spec() as int == weights_prefix_sum(weight@, n as int),
    {
        let mut starting_index: Vec<usize> = Vec::new();
        let mut acc: usize = 0;
        let mut i: usize = 0;
        while i < n
            invariant
                i <= n,
                n == weight@.len(),
                starting_index@.len() == i,
                acc as int == weights_prefix_sum(weight@, i as int),
                weights_prefix_sum(weight@, n as int) <= MAX_PLAYERS,
                forall|k: int|
                    0 <= k < i ==> (#[trigger] starting_index@[k]) as int == weights_prefix_sum(
                        weight@, k),
            decreases n - i,
        {
            starting_index.push(acc);
            proof {
                lemma_prefix_sum_mono(weight@, i + 1, n as int);
            }
            acc = acc + weight[i];
            i += 1;
        }
        let tc = ThresholdConfig::new(threshold_weight, acc);
        WeightedConfig { tc, n, weight, starting_index }
    }

    /// The derived unweighted configuration over the virtual shares.
    pub fn get_threshold_config(&self) -> (r: &ThresholdConfig)
        ensures
            *r == self.tc_spec(),
    {
        &self.tc
    }

    /// The minimum combined weight needed to reconstruct.
    pub fn get_threshold_weight(&self) -> (r: usize)
        ensures
            r as nat == self.tc_spec().t_spec(),
    {
        self.tc.get_threshold()
    }

    /// The total weight of all players.
    pub fn get_total_weight(&self) -> (r: usize)
        ensures
            r as nat == self.tc_spec().n_spec(),
    {
        self.tc.get_total_num_players()
    }

    /// The number of real players.
    pub fn get_total_num_players(&self) -> (r: usize)
        ensures
            r as nat == self.n_spec(),
    {
        self.n
    }

    /// The total number of shares dealt: one per unit of weight.
    pub fn get_total_num_shares(&self) -> (r: usize)
        ensures
            r as nat == self.tc_spec().n_spec(),
    {
        self.tc.get_total_num_shares()
    }

    /// The given player's weight.
    pub fn get_player_weight(&self, player: &Player) -> (r: usize)
        requires
            self.wf(),
            player.id_spec() < self.n_spec(),
        ensures
            r == self.weights()[player.id_spec() as int],
    {
        self.weight[player.get_id()]
    }

    /// The virtual player standing for the `i`-th share owned by `player`:
    /// its index is the player's starting index plus `i`, and it lies below
    /// the total weight.
    pub fn get_virtual_player(&self, player: &Player, i: usize) -> (r: Player)
        requires
            self.wf(),
            player.id_spec() < self.n_spec(),
            i < self.weights()[player.id_spec() as int],
        ensures
            r.id_spec() as int == weights_prefix_sum(self.weights(), player.id_spec() as int) + i,
            r.id_spec() < self.tc_spec().n_spec(),
    {
        let pid = player.get_id();
        proof {
            lemma_prefix_sum_mono(self.weights(), pid as int + 1, self.n_spec() as int);
            assert(weights_prefix_sum(self.weights(), pid as int + 1) == weights_prefix_sum(
                self.weights(), pid as int) + self.weights()[pid as int]);
        }
        let idx = self.starting_index[pid] + i;
        self.tc.get_player(idx)
    }

    /// The player with index `i`.
    pub fn get_player(&self, i: usize) -> (r: Player)
        requires
            (i as nat) < self.n_spec(),
        ensures
            r.id_spec() == i,
    {
        Player::from_index(i)
    }

    /// The batch evaluation domain of the derived configuration.
    pub fn get_batch_evaluation_domain(&self) -> (r: &BatchEvaluationDomain)
        ensures
            *r == self.tc_spec().batch_dom_spec(),
    {
        self.tc.get_batch_evaluation_domain()
    }

    /// The evaluation domain of the derived configuration.
    pub fn get_evaluation_domain(&self) -> (r: &EvaluationDomain)
        ensures
            *r == self.tc_spec().dom_spec(),
    {
        self.tc.get_evaluation_domain()
    }
}

} // verus!
