use vstd::prelude::*;

use instant::Instant;

verus! {

#[verifier::external_type_specification]
#[verifier::external_body]
pub struct ExInstant(std::time::Instant);

/// Points scored in the running round: one per food eaten, reset to zero
/// on every new game.
#[derive(Debug, PartialEq, Eq, Structural, Clone, Copy)]
pub struct Score {
    pub score: u32,
}

impl Default for Score {
    fn default() -> (s: Score)
        ensures
            s.score == 0,
    {
        Score { score: 0 }
    }
}

/// The best round on record for this process: the highest score seen,
/// ties broken by the shorter round time.
#[derive(Debug, PartialEq, Eq, Structural, Clone, Copy)]
pub struct HighScore {
    pub score: u32,
    pub time_millis: u64,
}

impl Default for HighScore {
    fn default() -> (h: HighScore)
        ensures
            h.score == 0,
            h.time_millis == 0,
    {
        HighScore { score: 0, time_millis: 0 }
    }
}

/// The round clock. While a round runs, `start` holds the moment it
/// began and `runtime` is `None`; once the round is over, `runtime`
/// holds the frozen duration in milliseconds. Collaborators must
/// distinguish the two readings.
#[derive(Debug)]
pub struct Timer {
    pub start: Option<Instant>,
    pub runtime: Option<u64>,
}

impl Default for Timer {
    fn default() -> (t: Timer)
        ensures
            t.start is None,
            t.runtime is None,
    {
        Timer { start: None, runtime: None }
    }
}

/// Relies on instant's `Instant::now` (std's monotonic clock on native
/// targets): a moment read from the clock, of which nothing is promised.
#[verifier::external_body]
fn instant_now() -> Instant {
    Instant::now()
}

/// Relies on std's `Instant::elapsed`: the time since `start`, given here
/// in whole milliseconds. It depends on the clock, so nothing is promised
/// of the value.
#[verifier::external_body]
fn elapsed_millis(start: &Instant) -> u64 {
    start.elapsed().as_millis() as u64
}

/// The high score table after a round of `score` points that took
/// `elapsed` milliseconds: replaced when the round beats the record, or
/// equals it in less time; kept as it was otherwise.
pub open spec fn spec_high_score_after(h: HighScore, score: u32, elapsed: u64) -> HighScore {
    if score > h.score || (score == h.score && elapsed < h.time_millis) {
        HighScore { score: score, time_millis: elapsed }
    } else {
        h
    }
}

/// Compare a finished round against the stored record and keep the
/// better of the two.
pub fn record_game_end(high: &mut HighScore, score: u32, elapsed: u64)
    ensures
        *final(high) == spec_high_score_after(*old(high), score, elapsed),
{
    if score > high.score || (score == high.score && elapsed < high.time_millis) {
        *high = HighScore { score: score, time_millis: elapsed };
    }
}

/// The record changes exactly when the new score is strictly higher, or
/// equal and reached in strictly less time; on any other round the table
/// is untouched.
pub proof fn lemma_high_score_updates_iff(h: HighScore, score: u32, elapsed: u64)
    ensures
        (score > h.score || (score == h.score && elapsed < h.time_millis)) ==> spec_high_score_after(
            h,
            score,
            elapsed,
        ) == (HighScore { score: score, time_millis: elapsed }),
        !(score > h.score || (score == h.score && elapsed < h.time_millis))
            ==> spec_high_score_after(h, score, elapsed) == h,
        spec_high_score_after(h, score, elapsed) != h <==> (score > h.score || (score == h.score
            && elapsed < h.time_millis)),
{
}

/// Begin timing a round: runs when a game starts.
pub fn start_timer(timer: &mut Timer)
    ensures
        final(timer).start is Some,
        final(timer).runtime is None,
{
    *timer = Timer { start: Some(instant_now()), runtime: None };
}

/// Stop the clock when a round ends, freeze the elapsed time, and update
/// the record. What time the clock reports is its own affair; however
/// long the round took, the record is updated by the tie-break rule.
pub fn close_timer(timer: &mut Timer, score: &Score, high_score: &mut HighScore)
    requires
        old(timer).start is Some,
    ensures
        final(timer).start == old(timer).start,
        exists|e: u64|
            final(timer).runtime == Some(e) && *final(high_score) == spec_high_score_after(
                *old(high_score),
                score.score,
                e,
            ),
{
    let elapsed = match &timer.start {
        Some(start) => elapsed_millis(start),
        None => unreached(),
    };
    timer.runtime = Some(elapsed);
    record_game_end(high_score, score.score, elapsed);
}

} // verus!
