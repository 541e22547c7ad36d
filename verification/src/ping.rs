//! Per-target probe results.
//!
//! A `PingResults` owns the running statistics of one target: how many
//! probes were received and lost, the received round-trip durations, and the
//! derived minimum, maximum and average duration and delivery rates. It is
//! fed one settled probe outcome at a time, in arrival order, and keeps the
//! statistics exact at every step: the average is the floor of the exact sum
//! of all received durations divided by their count, never a blend.
use crate::duration::PingDuration;
use crate::target::PingTarget;
use vstd::prelude::*;

verus! {

/// One successful probe: the measured round-trip duration.
#[derive(Clone, Copy, Debug, PartialEq, Eq, Structural)]
pub struct PingResponse {
    pub duration: PingDuration,
}

/// The result of one settled probe: a reply within the timeout, or loss
/// (timeout or transport error, treated alike).
#[derive(Clone, Copy, Debug, PartialEq, Eq, Structural)]
pub enum ProbeOutcome {
    Received(PingResponse),
    Lost,
}

/// The round-trip durations of a response sequence, in microseconds.
pub open spec fn spec_durations(s: Seq<PingResponse>) -> Seq<u64> {
    s.map_values(|r: PingResponse| r.duration.micros)
}

/// The sum of a duration sequence.
pub open spec fn seq_sum(s: Seq<u64>) -> int
    decreases s.len(),
{
    if s.len() == 0 {
        0
    } else {
        s[0] + seq_sum(s.drop_first())
    }
}

/// The least element of a non-empty duration sequence.
pub open spec fn seq_min(s: Seq<u64>) -> u64
    recommends
        s.len() > 0,
    decreases s.len(),
{
    if s.len() <= 1 {
        s[0]
    } else {
        let m = seq_min(s.drop_first());
        if s[0] < m {
            s[0]
        } else {
            m
        }
    }
}

/// The greatest element of a non-empty duration sequence.
pub open spec fn seq_max(s: Seq<u64>) -> u64
    recommends
        s.len() > 0,
    decreases s.len(),
{
    if s.len() <= 1 {
        s[0]
    } else {
        let m = seq_max(s.drop_first());
        if s[0] > m {
            s[0]
        } else {
            m
        }
    }
}

/// Appending a duration adds it to the sum.
pub proof fn lemma_seq_sum_push(s: Seq<u64>, d: u64)
    ensures
        seq_sum(s.push(d)) == seq_sum(s) + d,
    decreases s.len(),
{
    if s.len() == 0 {
        assert(s.push(d).drop_first() =~= Seq::<u64>::empty());
        assert(seq_sum(Seq::<u64>::empty()) == 0);
        assert(s.push(d).len() == 1);
        assert(s.push(d)[0] == d);
        assert(seq_sum(s.push(d)) == d + seq_sum(s.push(d).drop_first()));
        assert(seq_sum(s) == 0);
    } else {
        assert(s.push(d).drop_first() =~= s.drop_first().push(d));
        lemma_seq_sum_push(s.drop_first(), d);
        assert(s.push(d).len() > 0);
        assert(s.push(d)[0] == s[0]);
        assert(seq_sum(s.push(d)) == s[0] + seq_sum(s.push(d).drop_first()));
        assert(seq_sum(s.push(d).drop_first()) == seq_sum(s.drop_first().push(d)));
        assert(seq_sum(s.drop_first().push(d)) == seq_sum(s.drop_first()) + d);
        assert(seq_sum(s) == s[0] + seq_sum(s.drop_first()));
    }
}

/// Appending a duration tightens the minimum to the smaller of the two.
pub proof fn lemma_seq_min_push(s: Seq<u64>, d: u64)
    ensures
        seq_min(s.push(d)) == if s.len() == 0 {
            d
        } else if d < seq_min(s) {
            d
        } else {
            seq_min(s)
        },
    decreases s.len(),
{
    if s.len() == 0 {
    } else {
        assert(s.push(d).drop_first() =~= s.drop_first().push(d));
        lemma_seq_min_push(s.drop_first(), d);
    }
}

/// Appending a duration tightens the maximum to the larger of the two.
pub proof fn lemma_seq_max_push(s: Seq<u64>, d: u64)
    ensures
        seq_max(s.push(d)) == if s.len() == 0 {
            d
        } else if d > seq_max(s) {
            d
        } else {
            seq_max(s)
        },
    decreases s.len(),
{
    if s.len() == 0 {
    } else {
        assert(s.push(d).drop_first() =~= s.drop_first().push(d));
        lemma_seq_max_push(s.drop_first(), d);
    }
}

/// The sum of a duration sequence is bounded by its length times the
/// largest representable duration.
pub proof fn lemma_seq_sum_upper(s: Seq<u64>)
    ensures
        seq_sum(s) <= s.len() * u64::MAX,
        seq_sum(s) >= 0,
    decreases s.len(),
{
    if s.len() == 0 {
    } else {
        lemma_seq_sum_upper(s.drop_first());
        assert(u64::MAX + (s.len() - 1) * u64::MAX == s.len() * u64::MAX) by (nonlinear_arith);
    }
}

/// The sum of a non-empty duration sequence lies between its length times
/// its minimum and its length times its maximum.
pub proof fn lemma_seq_sum_bounds(s: Seq<u64>)
    requires
        s.len() > 0,
    ensures
        s.len() * seq_min(s) <= seq_sum(s),
        seq_sum(s) <= s.len() * seq_max(s),
    decreases s.len(),
{
    if s.len() == 1 {
        assert(seq_sum(s) == s[0] + seq_sum(s.drop_first()));
        assert(s.drop_first().len() == 0);
        assert(seq_sum(s.drop_first()) == 0);
        assert(seq_min(s) == s[0]);
        assert(seq_max(s) == s[0]);
        assert(s.len() * seq_min(s) == seq_min(s)) by (nonlinear_arith)
            requires
                s.len() == 1,
        ;
        assert(s.len() * seq_max(s) == seq_max(s)) by (nonlinear_arith)
            requires
                s.len() == 1,
        ;
    } else {
        let d = s.drop_first();
        lemma_seq_sum_bounds(d);
        assert(seq_sum(s) == s[0] + seq_sum(d));
        assert(seq_min(s) <= s[0] && seq_min(s) <= seq_min(d));
        assert(seq_max(s) >= s[0] && seq_max(s) >= seq_max(d));
        assert(d.len() * seq_min(d) >= d.len() * seq_min(s)) by (nonlinear_arith)
            requires
                seq_min(d) >= seq_min(s),
                d.len() >= 0,
        ;
        assert(seq_min(s) + d.len() * seq_min(s) == s.len() * seq_min(s)) by (nonlinear_arith)
            requires
                s.len() == d.len() + 1,
        ;
        assert(d.len() * seq_max(d) <= d.len() * seq_max(s)) by (nonlinear_arith)
            requires
                seq_max(d) <= seq_max(s),
                d.len() >= 0,
        ;
        assert(seq_max(s) + d.len() * seq_max(s) == s.len() * seq_max(s)) by (nonlinear_arith)
            requires
                s.len() == d.len() + 1,
        ;
    }
}

/// The floor average of a non-empty duration sequence lies between its
/// minimum and its maximum.
pub proof fn lemma_avg_in_range(s: Seq<u64>)
    requires
        s.len() > 0,
    ensures
        seq_min(s) <= seq_sum(s) / (s.len() as int),
        seq_sum(s) / (s.len() as int) <= seq_max(s),
{
    lemma_seq_sum_bounds(s);
    let n = s.len() as int;
    assert(n * seq_min(s) == seq_min(s) as int * n) by (nonlinear_arith);
    assert(n * seq_max(s) == seq_max(s) as int * n) by (nonlinear_arith);
    vstd::arithmetic::div_mod::lemma_div_is_ordered(n * seq_min(s), seq_sum(s), n);
    vstd::arithmetic::div_mod::lemma_div_multiples_vanish(seq_min(s) as int, n);
    vstd::arithmetic::div_mod::lemma_div_is_ordered(seq_sum(s), n * seq_max(s), n);
    vstd::arithmetic::div_mod::lemma_div_multiples_vanish(seq_max(s) as int, n);
}

/// The running statistics of one target.
#[derive(Debug)]
pub struct PingResults {
    /// The probed target; owned here once probing has begun.
    pub target: PingTarget,
    /// Every successful response, in arrival order.
    pub responses: Vec<PingResponse>,
    /// The smallest round-trip duration seen, absent until the first reply.
    pub min_duration: Option<PingDuration>,
    /// The largest round-trip duration seen, absent until the first reply.
    pub max_duration: Option<PingDuration>,
    /// The exact running mean, cached; kept equal to `spec_avg`.
    pub avg_duration: Option<PingDuration>,
    /// The exact sum of all received durations, in microseconds.
    pub sum_micros: u128,
    /// How many probes were answered.
    pub num_recv: u32,
    /// The delivery rate in tenths of a percent, cached.
    pub recv_permille: u32,
    /// How many probes were lost.
    pub num_loss: u32,
    /// The loss rate in tenths of a percent, cached.
    pub loss_permille: u32,
}

impl PingResults {
    /// How many probes have settled.
    pub open spec fn spec_total(&self) -> int {
        self.num_recv + self.num_loss
    }

    /// The exact sum of all received durations, in microseconds.
    pub open spec fn spec_sum(&self) -> int {
        seq_sum(spec_durations(self.responses@))
    }

    /// The minimum received duration, absent until the first reply.
    pub open spec fn spec_min(&self) -> Option<PingDuration> {
        if self.responses@.len() == 0 {
            None
        } else {
            Some(PingDuration { micros: seq_min(spec_durations(self.responses@)) })
        }
    }

    /// The maximum received duration, absent until the first reply.
    pub open spec fn spec_max(&self) -> Option<PingDuration> {
        if self.responses@.len() == 0 {
            None
        } else {
            Some(PingDuration { micros: seq_max(spec_durations(self.responses@)) })
        }
    }

    /// The exact running mean, truncated to whole microseconds: the sum of
    /// all received durations divided by their count. Absent until the
    /// first reply.
    pub open spec fn spec_avg(&self) -> Option<PingDuration> {
        if self.responses@.len() == 0 {
            None
        } else {
            Some(
                PingDuration {
                    micros: (self.spec_sum() / (self.responses@.len() as int)) as u64,
                },
            )
        }
    }

    /// The delivery rate in tenths of a percent, truncated; absent until
    /// the first probe settles.
    pub open spec fn spec_recv_rate(&self) -> Option<u32> {
        if self.spec_total() == 0 {
            None
        } else {
            Some((1000 * self.num_recv / self.spec_total()) as u32)
        }
    }

    /// The loss rate in tenths of a percent, truncated: lost over total;
    /// absent until the first probe settles.
    pub open spec fn spec_loss_rate(&self) -> Option<u32> {
        if self.spec_total() == 0 {
            None
        } else {
            Some((1000 * self.num_loss / self.spec_total()) as u32)
        }
    }

    /// Well-formedness: every derived statistic agrees with the response
    /// history. Established by the constructor and preserved by every
    /// update.
    pub open spec fn wf(&self) -> bool {
        &&& self.num_recv == self.responses@.len()
        &&& self.num_recv + self.num_loss <= u32::MAX
        &&& self.min_duration == self.spec_min()
        &&& self.max_duration == self.spec_max()
        &&& self.sum_micros == self.spec_sum()
        &&& self.avg_duration == self.spec_avg()
        &&& self.recv_permille == if self.spec_total() == 0 {
            0int
        } else {
            1000 * self.num_recv / self.spec_total()
        }
        &&& self.loss_permille == if self.spec_total() == 0 {
            0int
        } else {
            1000 * self.num_loss / self.spec_total()
        }
    }

    /// A fresh accumulator for `target`: nothing settled yet, every
    /// statistic undefined.
    pub fn new(target: PingTarget) -> (r: PingResults)
        ensures
            r.wf(),
            r.target == target,
            r.responses@.len() == 0,
            r.num_recv == 0,
            r.num_loss == 0,
            r.min_duration is None,
            r.max_duration is None,
    {
        let r = PingResults {
            target,
            responses: Vec::new(),
            min_duration: None,
            max_duration: None,
            avg_duration: None,
            sum_micros: 0,
            num_recv: 0,
            recv_permille: 0,
            num_loss: 0,
            loss_permille: 0,
        };
        proof {
            assert(spec_durations(r.responses@) =~= Seq::<u64>::empty());
        }
        r
    }

    /// The delivery rate in tenths of a percent, if any probe has settled.
    pub fn recv_rate(&self) -> (r: Option<u32>)
        requires
            self.wf(),
        ensures
            r == self.spec_recv_rate(),
    {
        if self.num_recv + self.num_loss == 0 {
            None
        } else {
            Some(self.recv_permille)
        }
    }

    /// The loss rate in tenths of a percent, if any probe has settled.
    pub fn loss_rate(&self) -> (r: Option<u32>)
        requires
            self.wf(),
        ensures
            r == self.spec_loss_rate(),
    {
        if self.num_recv + self.num_loss == 0 {
            None
        } else {
            Some(self.loss_permille)
        }
    }

    /// The exact running mean of the received durations, if any.
    pub fn avg_duration(&self) -> (r: Option<PingDuration>)
        requires
            self.wf(),
        ensures
            r == self.spec_avg(),
    {
        self.avg_duration
    }

    /// How many probes have settled.
    pub fn total_count(&self) -> (r: u32)
        requires
            self.wf(),
        ensures
            r == self.spec_total(),
    {
        self.num_recv + self.num_loss
    }

    /// Records one lost probe: the loss count grows by one and the rates
    /// are recomputed; durations are untouched.
    pub fn add_loss(&mut self)
        requires
            old(self).wf(),
            old(self).spec_total() < u32::MAX,
        ensures
            final(self).wf(),
            final(self).num_loss == old(self).num_loss + 1,
            final(self).num_recv == old(self).num_recv,
            final(self).responses == old(self).responses,
            final(self).target == old(self).target,
    {
        self.num_loss = self.num_loss + 1;
        self.update_rates();
    }

    /// Recomputes both delivery rates from the current counts; a no-op
    /// while nothing has settled.
    fn update_rates(&mut self)
        requires
            old(self).spec_total() <= u32::MAX,
        ensures
            final(self).target == old(self).target,
            final(self).responses == old(self).responses,
            final(self).min_duration == old(self).min_duration,
            final(self).max_duration == old(self).max_duration,
            final(self).avg_duration == old(self).avg_duration,
            final(self).sum_micros == old(self).sum_micros,
            final(self).num_recv == old(self).num_recv,
            final(self).num_loss == old(self).num_loss,
            old(self).spec_total() == 0 ==> final(self).recv_permille == old(self).recv_permille
                && final(self).loss_permille == old(self).loss_permille,
            old(self).spec_total() > 0 ==> final(self).recv_permille == 1000 * old(self).num_recv
                / old(self).spec_total() && final(self).loss_permille == 1000 * old(self).num_loss
                / old(self).spec_total(),
    {
        let total = self.num_recv + self.num_loss;
        if total == 0 {
            return ;
        }
        proof {
            assert(1000 * (self.num_recv as int) <= 1000 * (total as int));
            vstd::arithmetic::div_mod::lemma_multiply_divide_le(
                1000 * (self.num_recv as int),
                total as int,
                1000,
            );
            assert(1000 * (self.num_loss as int) <= 1000 * (total as int));
            vstd::arithmetic::div_mod::lemma_multiply_divide_le(
                1000 * (self.num_loss as int),
                total as int,
                1000,
            );
        }
        self.recv_permille = (1000u64 * self.num_recv as u64 / total as u64) as u32;
        self.loss_permille = (1000u64 * self.num_loss as u64 / total as u64) as u32;
    }

    /// Folds one received duration into the duration statistics: tightens
    /// the minimum and maximum, adds to the exact sum, and recomputes the
    /// running mean from sum and count. Called with the received count
    /// already bumped, before the response itself is recorded.
    fn update_time_stats(&mut self, time: PingDuration)
        requires
            old(self).num_recv == old(self).responses@.len() + 1,
            old(self).sum_micros == old(self).spec_sum(),
            old(self).min_duration == old(self).spec_min(),
            old(self).max_duration == old(self).spec_max(),
        ensures
            final(self).target == old(self).target,
            final(self).responses == old(self).responses,
            final(self).num_recv == old(self).num_recv,
            final(self).num_loss == old(self).num_loss,
            final(self).recv_permille == old(self).recv_permille,
            final(self).loss_permille == old(self).loss_permille,
            final(self).sum_micros == seq_sum(
                spec_durations(old(self).responses@).push(time.micros),
            ),
            final(self).min_duration == Some(
                PingDuration {
                    micros: seq_min(spec_durations(old(self).responses@).push(time.micros)),
                },
            ),
            final(self).max_duration == Some(
                PingDuration {
                    micros: seq_max(spec_durations(old(self).responses@).push(time.micros)),
                },
            ),
            final(self).avg_duration == Some(
                PingDuration {
                    micros: (seq_sum(spec_durations(old(self).responses@).push(time.micros)) / (
                    old(self).num_recv as int)) as u64,
                },
            ),
    {
        let ghost durs = spec_durations(self.responses@);
        let ghost pushed = durs.push(time.micros);
        proof {
            lemma_seq_sum_push(durs, time.micros);
            lemma_seq_min_push(durs, time.micros);
            lemma_seq_max_push(durs, time.micros);
            lemma_seq_sum_upper(durs);
            assert(durs.len() * u64::MAX + u64::MAX <= u32::MAX * (u64::MAX as int))
                by (nonlinear_arith)
                requires
                    durs.len() <= u32::MAX - 1,
            ;
            assert(u32::MAX * (u64::MAX as int) < u128::MAX) by (nonlinear_arith);
        }
        self.min_duration = Some(
            match self.min_duration {
                Some(m) => if time.micros < m.micros {
                    time
                } else {
                    m
                },
                None => time,
            },
        );
        self.max_duration = Some(
            match self.max_duration {
                Some(m) => if time.micros > m.micros {
                    time
                } else {
                    m
                },
                None => time,
            },
        );
        self.sum_micros = self.sum_micros + time.micros as u128;
        proof {
            lemma_avg_in_range(pushed);
        }
        let avg = self.sum_micros / self.num_recv as u128;
        self.avg_duration = Some(PingDuration { micros: avg as u64 });
    }

    /// Records one successful probe: the received count grows by one, the
    /// rates are recomputed, the duration statistics take in the measured
    /// duration, and the response joins the history.
    pub fn add_received(&mut self, response: PingResponse)
        requires
            old(self).wf(),
            old(self).spec_total() < u32::MAX,
        ensures
            final(self).wf(),
            final(self).responses@ == old(self).responses@.push(response),
            final(self).num_recv == old(self).num_recv + 1,
            final(self).num_loss == old(self).num_loss,
            final(self).target == old(self).target,
            old(self).min_duration matches Some(m) ==> final(self).min_duration matches Some(nm)
                && nm.micros <= m.micros,
            old(self).max_duration matches Some(m) ==> final(self).max_duration matches Some(nm)
                && nm.micros >= m.micros,
    {
        self.num_recv = self.num_recv + 1;
        self.update_rates();
        self.update_time_stats(response.duration);
        self.responses.push(response);
        proof {
            assert(spec_durations(self.responses@) =~= spec_durations(
                old(self).responses@,
            ).push(response.duration.micros));
            lemma_seq_min_push(spec_durations(old(self).responses@), response.duration.micros);
            lemma_seq_max_push(spec_durations(old(self).responses@), response.duration.micros);
        }
    }
}

/// The received responses among a sequence of settled outcomes, in order.
pub open spec fn spec_received_of(s: Seq<ProbeOutcome>) -> Seq<PingResponse>
    decreases s.len(),
{
    if s.len() == 0 {
        Seq::empty()
    } else {
        match s.last() {
            ProbeOutcome::Received(r) => spec_received_of(s.drop_last()).push(r),
            ProbeOutcome::Lost => spec_received_of(s.drop_last()),
        }
    }
}

/// How many of a sequence of settled outcomes were lost.
pub open spec fn spec_lost_count(s: Seq<ProbeOutcome>) -> int
    decreases s.len(),
{
    if s.len() == 0 {
        0
    } else {
        spec_lost_count(s.drop_last()) + if s.last() is Lost {
            1int
        } else {
            0int
        }
    }
}

/// Law: every settled probe is counted exactly once — over any outcome
/// sequence, the received responses and the lost probes together count its
/// length.
pub proof fn lemma_outcome_counts(s: Seq<ProbeOutcome>)
    ensures
        spec_received_of(s).len() + spec_lost_count(s) == s.len(),
        spec_received_of(s).len() >= 0,
        spec_lost_count(s) >= 0,
    decreases s.len(),
{
    if s.len() == 0 {
    } else {
        lemma_outcome_counts(s.drop_last());
    }
}

impl PingResults {
    /// Feeds a whole sequence of settled outcomes, in arrival order, into a
    /// fresh accumulator for `target` — the per-target probe loop with the
    /// transport stripped away. The counts split the outcomes exactly, and
    /// when any probe settled the loss rate is lost over total.
    pub fn from_outcomes(target: PingTarget, outcomes: &Vec<ProbeOutcome>) -> (r: PingResults)
        requires
            outcomes@.len() <= u32::MAX,
        ensures
            r.wf(),
            r.target == target,
            r.responses@ == spec_received_of(outcomes@),
            r.num_loss == spec_lost_count(outcomes@),
            r.num_recv + r.num_loss == outcomes@.len(),
            outcomes@.len() > 0 ==> r.spec_loss_rate() == Some(
                (1000 * spec_lost_count(outcomes@) / (outcomes@.len() as int)) as u32,
            ),
    {
        let mut r = PingResults::new(target);
        let mut i: usize = 0;
        while i < outcomes.len()
            invariant
                i <= outcomes@.len() <= u32::MAX,
                r.wf(),
                r.target == target,
                r.responses@ == spec_received_of(outcomes@.take(i as int)),
                r.num_loss == spec_lost_count(outcomes@.take(i as int)),
                r.num_recv + r.num_loss == i,
            decreases outcomes@.len() - i,
        {
            proof {
                assert(outcomes@.take(i + 1).drop_last() =~= outcomes@.take(i as int));
                assert(outcomes@.take(i + 1).last() == outcomes@[i as int]);
            }
            match outcomes[i] {
                ProbeOutcome::Received(resp) => r.add_received(resp),
                ProbeOutcome::Lost => r.add_loss(),
            }
            i = i + 1;
        }
        proof {
            assert(outcomes@.take(outcomes@.len() as int) =~= outcomes@);
        }
        r
    }

    /// Law: whenever the minimum, average and maximum duration are all
    /// defined, the average lies between the minimum and the maximum.
    pub proof fn lemma_min_avg_max(&self)
        requires
            self.wf(),
            self.responses@.len() > 0,
        ensures
            self.spec_min() matches Some(mn) && self.spec_avg() matches Some(av)
                && self.spec_max() matches Some(mx) && mn.micros <= av.micros <= mx.micros,
    {
        lemma_avg_in_range(spec_durations(self.responses@));
    }
}

} // verus!
