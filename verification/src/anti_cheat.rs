//! Behavioural anti-cheat bookkeeping: upgrade pacing and a saturating
//! suspicion score.
use vstd::prelude::*;

verus! {

/// Whether an upgrade at `current_ms` respects the minimum interval since the
/// previous one at `last_upgrade_ms`.
pub open spec fn upgrade_interval_ok(last_upgrade_ms: u64, current_ms: u64, min_interval_ms: u64) -> bool {
    current_ms >= last_upgrade_ms && current_ms - last_upgrade_ms >= min_interval_ms
}

/// A clock that runs backwards never passes; otherwise at least
/// `min_interval_ms` must have elapsed.
pub fn check_upgrade_interval(last_upgrade_ms: u64, current_ms: u64, min_interval_ms: u64) -> (ok: bool)
    ensures
        ok == upgrade_interval_ok(last_upgrade_ms, current_ms, min_interval_ms),
{
    if current_ms < last_upgrade_ms {
        return false;
    }
    (current_ms - last_upgrade_ms) >= min_interval_ms
}

/// An upgrade passes exactly when the clock did not run backwards and the
/// whole minimum interval has elapsed since the previous upgrade.
pub proof fn law_upgrade_interval(last_upgrade_ms: u64, current_ms: u64, min_interval_ms: u64)
    ensures
        upgrade_interval_ok(last_upgrade_ms, current_ms, min_interval_ms) <==> current_ms >= last_upgrade_ms
            + min_interval_ms,
{
}

/// A per-player suspicion score that saturates at both ends.
#[derive(Debug, Clone)]
pub struct SuspicionTracker {
    pub score: u32,
}

/// `score + amount`, held at `u32::MAX`.
pub open spec fn saturating_add_u32(score: u32, amount: u32) -> u32 {
    if score + amount > u32::MAX { u32::MAX } else { (score + amount) as u32 }
}

/// `score - amount`, held at zero.
pub open spec fn saturating_sub_u32(score: u32, amount: u32) -> u32 {
    if score < amount { 0 } else { (score - amount) as u32 }
}

impl SuspicionTracker {
    pub fn new() -> (t: Self)
        ensures
            t.score == 0,
    {
        Self { score: 0 }
    }

    pub fn add_score(&mut self, amount: u32)
        ensures
            final(self).score == saturating_add_u32(old(self).score, amount),
    {
        self.score = self.score.saturating_add(amount);
    }

    pub fn decay(&mut self, amount: u32)
        ensures
            final(self).score == saturating_sub_u32(old(self).score, amount),
    {
        self.score = self.score.saturating_sub(amount);
    }

    pub fn is_flagged(&self, threshold: u32) -> (flagged: bool)
        ensures
            flagged == (self.score >= threshold),
    {
        self.score >= threshold
    }
}

/// Adding suspicion never lowers the score, and decaying never raises it.
pub proof fn lemma_score_monotone(score: u32, amount: u32)
    ensures
        saturating_add_u32(score, amount) >= score,
        saturating_sub_u32(score, amount) <= score,
{
}

/// Decaying by the amount just added restores the score whenever the addition
/// did not saturate.
pub proof fn lemma_add_then_decay(score: u32, amount: u32)
    requires
        score + amount <= u32::MAX,
    ensures
        saturating_sub_u32(saturating_add_u32(score, amount), amount) == score,
{
}

/// Once flagged at a threshold, further suspicion keeps the player flagged.
pub proof fn lemma_flag_persists_under_add(score: u32, amount: u32, threshold: u32)
    requires
        score >= threshold,
    ensures
        saturating_add_u32(score, amount) >= threshold,
{
}

} // verus!
