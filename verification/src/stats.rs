//! Aggregation and presentation order.
//!
//! After every per-target probe loop has finished, the per-target
//! accumulators are combined into overall totals, ordered for presentation
//! (ascending by average round-trip duration, targets without a defined
//! average last), and rendered as rows of cells.
use crate::display::permille_percent_string;
use crate::display::spec_digits;
use crate::display::spec_duration_display;
use crate::display::spec_permille_percent;
use crate::display::u64_to_string;
use crate::display::DurationExt;
use crate::duration::PingDuration;
use crate::ping::PingResults;
use vstd::multiset::Multiset;
use vstd::prelude::*;

verus! {

/// The probes sent across all accumulators: received plus lost, each.
pub open spec fn spec_total_sent(rs: Seq<PingResults>) -> int
    decreases rs.len(),
{
    if rs.len() == 0 {
        0
    } else {
        spec_total_sent(rs.drop_last()) + rs.last().spec_total()
    }
}

/// The probes received across all accumulators.
pub open spec fn spec_total_received(rs: Seq<PingResults>) -> int
    decreases rs.len(),
{
    if rs.len() == 0 {
        0
    } else {
        spec_total_received(rs.drop_last()) + rs.last().num_recv
    }
}

/// The probes lost across all accumulators.
pub open spec fn spec_total_lost(rs: Seq<PingResults>) -> int
    decreases rs.len(),
{
    if rs.len() == 0 {
        0
    } else {
        spec_total_lost(rs.drop_last()) + rs.last().num_loss
    }
}

/// Law: across any collection of accumulators, the probes sent split
/// exactly into received and lost.
pub proof fn lemma_overall_split(rs: Seq<PingResults>)
    ensures
        spec_total_sent(rs) == spec_total_received(rs) + spec_total_lost(rs),
        spec_total_received(rs) >= 0,
        spec_total_lost(rs) >= 0,
    decreases rs.len(),
{
    if rs.len() == 0 {
    } else {
        lemma_overall_split(rs.drop_last());
    }
}

/// A prefix never counts more sent probes than the whole.
proof fn lemma_sent_take_le(rs: Seq<PingResults>, i: int)
    requires
        0 <= i <= rs.len(),
    ensures
        spec_total_sent(rs.take(i)) <= spec_total_sent(rs),
    decreases rs.len() - i,
{
    if i == rs.len() {
        assert(rs.take(i) =~= rs);
    } else {
        assert(rs.take(i + 1).drop_last() =~= rs.take(i));
        assert(rs.take(i + 1).last() == rs[i]);
        lemma_sent_take_le(rs, i + 1);
    }
}

/// The aggregate statistics of one run, computed once after every
/// per-target probe loop has finished.
#[derive(Clone, Copy, Debug, Default, PartialEq, Eq, Structural)]
pub struct OverallStats {
    /// Probes sent across all targets.
    pub total_sent: u32,
    /// Probes answered across all targets.
    pub total_received: u32,
    /// Probes lost across all targets.
    pub total_lost: u32,
    /// The overall loss rate in tenths of a percent, truncated: lost over
    /// sent, zero when nothing was sent.
    pub loss_permille: u32,
}

impl OverallStats {
    /// Sums all accumulators into the overall totals. The totals are the
    /// exact sums, sent splits into received plus lost, and the loss rate
    /// is lost over sent (zero when nothing was sent).
    pub fn from_results(results: &Vec<PingResults>) -> (r: OverallStats)
        requires
            spec_total_sent(results@) <= u32::MAX,
        ensures
            r.total_sent == spec_total_sent(results@),
            r.total_received == spec_total_received(results@),
            r.total_lost == spec_total_lost(results@),
            r.total_sent == r.total_received + r.total_lost,
            r.loss_permille == if spec_total_sent(results@) == 0 {
                0int
            } else {
                1000 * spec_total_lost(results@) / spec_total_sent(results@)
            },
    {
        let mut received: u32 = 0;
        let mut lost: u32 = 0;
        let mut i: usize = 0;
        while i < results.len()
            invariant
                i <= results@.len(),
                spec_total_sent(results@) <= u32::MAX,
                received == spec_total_received(results@.take(i as int)),
                lost == spec_total_lost(results@.take(i as int)),
            decreases results@.len() - i,
        {
            proof {
                assert(results@.take(i + 1).drop_last() =~= results@.take(i as int));
                assert(results@.take(i + 1).last() == results@[i as int]);
                lemma_overall_split(results@.take(i + 1));
                lemma_sent_take_le(results@, i + 1);
            }
            received = received + results[i].num_recv;
            lost = lost + results[i].num_loss;
            i = i + 1;
        }
        proof {
            assert(results@.take(results@.len() as int) =~= results@);
            lemma_overall_split(results@);
        }
        let sent = received + lost;
        let loss_permille = if sent == 0 {
            0u32
        } else {
            proof {
                assert(1000 * (lost as int) <= 1000 * (sent as int));
                vstd::arithmetic::div_mod::lemma_multiply_divide_le(
                    1000 * (lost as int),
                    sent as int,
                    1000,
                );
            }
            (1000u64 * lost as u64 / sent as u64) as u32
        };
        OverallStats { total_sent: sent, total_received: received, total_lost: lost, loss_permille }
    }
}

/// The presentation order: ascending by average round-trip duration; a
/// target without a defined average comes after every target with one; two
/// targets without a defined average are not distinguished by this key.
pub open spec fn spec_avg_le(a: PingResults, b: PingResults) -> bool {
    match (a.spec_avg(), b.spec_avg()) {
        (Option::None, Option::None) => true,
        (Option::None, Option::Some(_)) => false,
        (Option::Some(_), Option::None) => true,
        (Option::Some(x), Option::Some(y)) => x.micros <= y.micros,
    }
}

/// Sorted in presentation order.
pub open spec fn spec_sorted_by_avg(s: Seq<PingResults>) -> bool {
    forall|i: int, j: int| 0 <= i < j < s.len() ==> spec_avg_le(s[i], s[j])
}

/// Strictly earlier in presentation order: `a` before `b` and not the
/// reverse.
fn avg_lt(a: &PingResults, b: &PingResults) -> (r: bool)
    requires
        a.wf(),
        b.wf(),
    ensures
        r == !spec_avg_le(*b, *a),
{
    match (a.avg_duration(), b.avg_duration()) {
        (Option::None, _) => false,
        (Option::Some(_), Option::None) => true,
        (Option::Some(x), Option::Some(y)) => x.micros < y.micros,
    }
}

/// The first index holding a minimal element in presentation order.
fn first_min_index(results: &Vec<PingResults>) -> (m: usize)
    requires
        results@.len() > 0,
        forall|k: int| 0 <= k < results@.len() ==> (#[trigger] results@[k]).wf(),
    ensures
        m < results@.len(),
        forall|k: int| 0 <= k < results@.len() ==> spec_avg_le(
            results@[m as int],
            #[trigger] results@[k],
        ),
        forall|k: int| 0 <= k < m ==> !spec_avg_le(#[trigger] results@[k], results@[m as int]),
{
    let mut m: usize = 0;
    let mut j: usize = 1;
    while j < results.len()
        invariant
            m < j,
            j <= results@.len(),
            results@.len() > 0,
            forall|k: int| 0 <= k < results@.len() ==> (#[trigger] results@[k]).wf(),
            forall|k: int| 0 <= k < j ==> spec_avg_le(results@[m as int], #[trigger] results@[k]),
            forall|k: int| 0 <= k < m ==> !spec_avg_le(#[trigger] results@[k], results@[m as int]),
        decreases results@.len() - j,
    {
        if avg_lt(&results[j], &results[m]) {
            m = j;
        }
        j = j + 1;
    }
    m
}

/// Orders the accumulators for presentation: ascending by average duration,
/// targets without a defined average after all others. The result holds
/// exactly the same accumulators, and input that is already in order comes
/// back unchanged — so ordering twice orders once.
pub fn sort_results(results: &mut Vec<PingResults>)
    requires
        forall|k: int| 0 <= k < old(results)@.len() ==> (#[trigger] old(results)@[k]).wf(),
    ensures
        final(results)@.to_multiset() == old(results)@.to_multiset(),
        final(results)@.len() == old(results)@.len(),
        spec_sorted_by_avg(final(results)@),
        forall|k: int| 0 <= k < final(results)@.len() ==> (#[trigger] final(results)@[k]).wf(),
        spec_sorted_by_avg(old(results)@) ==> final(results)@ == old(results)@,
{
    broadcast use vstd::seq_lib::group_to_multiset_ensures;
    broadcast use vstd::multiset::group_multiset_axioms;

    let ghost orig = results@;
    let mut sorted: Vec<PingResults> = Vec::new();
    while results.len() > 0
        invariant
            forall|k: int| 0 <= k < results@.len() ==> (#[trigger] results@[k]).wf(),
            forall|k: int| 0 <= k < sorted@.len() ==> (#[trigger] sorted@[k]).wf(),
            sorted@.to_multiset().add(results@.to_multiset()) == orig.to_multiset(),
            sorted@.len() + results@.len() == orig.len(),
            spec_sorted_by_avg(sorted@),
            forall|p: int, q: int|
                0 <= p < sorted@.len() && 0 <= q < results@.len() ==> spec_avg_le(
                    #[trigger] sorted@[p],
                    #[trigger] results@[q],
                ),
            spec_sorted_by_avg(orig) ==> sorted@ + results@ == orig,
        decreases results@.len(),
    {
        let m = first_min_index(results);
        let ghost pre_res = results@;
        let ghost pre_sorted = sorted@;
        let x = results.remove(m);
        sorted.push(x);
        proof {
            broadcast use vstd::seq_lib::group_to_multiset_ensures;
            broadcast use vstd::multiset::group_multiset_axioms;

            assert(results@ == pre_res.remove(m as int));
            assert(sorted@ == pre_sorted.push(x));
            assert(pre_res.contains(x));
            assert(pre_res.to_multiset().count(x) > 0);
            assert(sorted@.to_multiset().add(results@.to_multiset()) =~= pre_sorted.to_multiset().add(
                pre_res.to_multiset(),
            ));
            assert forall|i: int, j: int| 0 <= i < j < sorted@.len() implies spec_avg_le(
                sorted@[i],
                sorted@[j],
            ) by {
                if j == sorted@.len() - 1 {
                    assert(sorted@[j] == x);
                    assert(spec_avg_le(pre_sorted[i], pre_res[m as int]));
                }
            }
            assert forall|p: int, q: int|
                0 <= p < sorted@.len() && 0 <= q < results@.len() implies spec_avg_le(
                sorted@[p],
                results@[q],
            ) by {
                let pre_q: int = if q < m { q } else { q + 1 };
                assert(results@[q] == pre_res[pre_q]);
                if p == sorted@.len() - 1 {
                    assert(sorted@[p] == x);
                    assert(spec_avg_le(pre_res[m as int], pre_res[pre_q]));
                } else {
                    assert(spec_avg_le(pre_sorted[p], pre_res[pre_q]));
                }
            }
            if spec_sorted_by_avg(orig) {
                assert(pre_sorted + pre_res == orig);
                if m > 0 {
                    assert(pre_res[0] == (pre_sorted + pre_res)[pre_sorted.len() as int]);
                    assert(pre_res[m as int] == (pre_sorted + pre_res)[pre_sorted.len() + m]);
                    assert(spec_avg_le(pre_res[0], pre_res[m as int]));
                    assert(!spec_avg_le(pre_res[0], pre_res[m as int]));
                }
                assert(sorted@ + results@ =~= orig);
            }
        }
    }
    proof {
        assert(results@.to_multiset() =~= Multiset::<PingResults>::empty());
        assert(sorted@.to_multiset().add(results@.to_multiset()) =~= sorted@.to_multiset());
        if spec_sorted_by_avg(orig) {
            assert(sorted@ + results@ =~= sorted@);
        }
        vstd::seq_lib::to_multiset_len(sorted@);
        vstd::seq_lib::to_multiset_len(orig);
    }
    *results = sorted;
}

/// Law: in presentation order, a target without a defined average never
/// stands before one with a defined average — whatever follows an undefined
/// average is undefined too.
pub proof fn lemma_undefined_avg_last(s: Seq<PingResults>, i: int, j: int)
    requires
        spec_sorted_by_avg(s),
        0 <= i < j < s.len(),
        s[i].spec_avg() is None,
    ensures
        s[j].spec_avg() is None,
{
    assert(spec_avg_le(s[i], s[j]));
}

/// The placeholder cell for a statistic that is still undefined.
pub open spec fn spec_na() -> Seq<char> {
    seq!['N', '/', 'A']
}

/// The host cell: the host label, or "-" when the input was a literal
/// address.
pub open spec fn spec_host_cell(r: PingResults) -> Seq<char> {
    match r.target.host {
        Some(h) => h@,
        None => seq!['-'],
    }
}

/// The loss cell: the loss rate in percent with one decimal place, or the
/// placeholder while no probe has settled.
pub open spec fn spec_loss_cell(r: PingResults) -> Seq<char> {
    match r.spec_loss_rate() {
        Some(p) => spec_permille_percent(p as nat),
        None => spec_na(),
    }
}

/// A duration cell: the rendered duration, or the placeholder while it is
/// undefined.
pub open spec fn spec_duration_cell(d: Option<PingDuration>) -> Seq<char> {
    match d {
        Some(x) => spec_duration_display(x.micros as nat),
        None => spec_na(),
    }
}

/// The row shown for one target: host, address, sent, received, loss rate,
/// and minimum, maximum and average round-trip duration.
pub open spec fn spec_row_matches(row: Seq<String>, r: PingResults) -> bool {
    &&& row.len() == 8
    &&& row[0]@ == spec_host_cell(r)
    &&& row[1]@ == r.target.addr.text@
    &&& row[2]@ == spec_digits(r.spec_total() as nat)
    &&& row[3]@ == spec_digits(r.num_recv as nat)
    &&& row[4]@ == spec_loss_cell(r)
    &&& row[5]@ == spec_duration_cell(r.spec_min())
    &&& row[6]@ == spec_duration_cell(r.spec_max())
    &&& row[7]@ == spec_duration_cell(r.spec_avg())
}

/// The placeholder cell.
fn na_string() -> (s: String)
    ensures
        s@ == spec_na(),
{
    proof {
        reveal_strlit("N/A");
    }
    let s = String::from_str("N/A");
    proof {
        assert(s@ =~= spec_na());
    }
    s
}

/// One duration cell.
fn duration_cell(d: Option<PingDuration>) -> (s: String)
    ensures
        s@ == spec_duration_cell(d),
{
    match d {
        Some(x) => x.display(),
        None => na_string(),
    }
}

/// The presentation row of one accumulator.
fn make_row(r: &PingResults) -> (row: Vec<String>)
    requires
        r.wf(),
    ensures
        spec_row_matches(row@, *r),
{
    let mut row: Vec<String> = Vec::new();
    let host = match &r.target.host {
        Some(h) => h.clone(),
        None => {
            proof {
                reveal_strlit("-");
            }
            let s = String::from_str("-");
            proof {
                assert(s@ =~= seq!['-']);
            }
            s
        },
    };
    row.push(host);
    row.push(r.target.addr.text.clone());
    row.push(u64_to_string(r.total_count() as u64));
    row.push(u64_to_string(r.num_recv as u64));
    let loss = match r.loss_rate() {
        Some(p) => permille_percent_string(p),
        None => na_string(),
    };
    row.push(loss);
    row.push(duration_cell(r.min_duration));
    row.push(duration_cell(r.max_duration));
    row.push(duration_cell(r.avg_duration()));
    row
}

/// Orders the accumulators for presentation and renders one row of cells
/// per target, in that order.
pub fn create_results_table(results: &mut Vec<PingResults>) -> (rows: Vec<Vec<String>>)
    requires
        forall|k: int| 0 <= k < old(results)@.len() ==> (#[trigger] old(results)@[k]).wf(),
    ensures
        final(results)@.to_multiset() == old(results)@.to_multiset(),
        final(results)@.len() == old(results)@.len(),
        spec_sorted_by_avg(final(results)@),
        spec_sorted_by_avg(old(results)@) ==> final(results)@ == old(results)@,
        rows@.len() == final(results)@.len(),
        forall|k: int|
            0 <= k < rows@.len() ==> spec_row_matches((#[trigger] rows@[k])@, final(results)@[k]),
{
    sort_results(results);
    let mut rows: Vec<Vec<String>> = Vec::new();
    let mut i: usize = 0;
    while i < results.len()
        invariant
            i <= results@.len(),
            forall|k: int| 0 <= k < results@.len() ==> (#[trigger] results@[k]).wf(),
            rows@.len() == i,
            forall|k: int|
                0 <= k < i ==> spec_row_matches((#[trigger] rows@[k])@, results@[k]),
        decreases results@.len() - i,
    {
        let row = make_row(&results[i]);
        rows.push(row);
        i = i + 1;
    }
    rows
}

} // verus!
