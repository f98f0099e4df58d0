//! The distributed Monte Carlo estimate: validating the requested sample
//! count, splitting it over the active workers, and combining their reports.
use vstd::prelude::*;
use crate::registry::{is_active, with_success, DispatcherState, Worker};
use crate::request::QueryParams;
use crate::responses::{
    bad_request_json, framed, http_resonse_400, http_response_200, http_response_500_json, ok_json,
    server_error_json,
};
use crate::text::{chars_of, decimal, digit_value, push_decimal, push_str};

verus! {

/// Every character of `s` is a decimal digit.
pub open spec fn all_digits(s: Seq<char>) -> bool {
    forall|i: int| 0 <= i < s.len() ==> (#[trigger] digit_value(s[i])) is Some
}

/// The number that a string of decimal digits denotes.
pub open spec fn digits_value(s: Seq<char>) -> nat
    decreases s.len(),
{
    if s.len() == 0 {
        0
    } else {
        digits_value(s.drop_last()) * 10 + digit_value(s.last())->Some_0
    }
}

/// The unsigned 64-bit number that `s` spells: an optional `+`, then one or
/// more decimal digits, with a value that fits.
pub open spec fn u64_of(s: Seq<char>) -> Option<u64> {
    let body = if s.len() > 0 && s[0] == '+' { s.drop_first() } else { s };
    if body.len() > 0 && all_digits(body) && digits_value(body) <= u64::MAX {
        Some(digits_value(body) as u64)
    } else {
        None
    }
}

/// Reads an unsigned 64-bit decimal number.
pub fn parse_u64(s: &str) -> (r: Option<u64>)
    ensures
        r == u64_of(s@),
{
    let all = chars_of(s);
    let start: usize = if all.len() > 0 && all[0] == '+' { 1 } else { 0 };
    let ghost body = if s@.len() > 0 && s@[0] == '+' { s@.drop_first() } else { s@ };
    if start >= all.len() {
        return None;
    }
    let mut value: u64 = 0;
    let mut overflow = false;
    let mut i: usize = start;
    while i < all.len()
        invariant
            all@ == s@,
            start <= i <= all@.len(),
            body == all@.subrange(start as int, all@.len() as int),
            body == (if s@.len() > 0 && s@[0] == '+' { s@.drop_first() } else { s@ }),
            all_digits(all@.subrange(start as int, i as int)),
            !overflow ==> value == digits_value(all@.subrange(start as int, i as int)),
            overflow ==> digits_value(all@.subrange(start as int, i as int)) > u64::MAX,
        decreases all@.len() - i,
    {
        let c = all[i];
        let ghost pre = all@.subrange(start as int, i as int);
        let ghost next = all@.subrange(start as int, i + 1);
        assert(next.drop_last() =~= pre);
        if !('0' <= c && c <= '9') {
            assert(!all_digits(body)) by {
                assert(body[i - start] == c);
                assert(digit_value(body[i - start]) is None);
            }
            return None;
        }
        let d = (c as u32 - '0' as u32) as u64;
        assert(digits_value(next) == digits_value(pre) * 10 + d);
        if !overflow {
            match value.checked_mul(10) {
                Some(v10) => match v10.checked_add(d) {
                    Some(v) => { value = v; },
                    None => { overflow = true; },
                },
                None => {
                    overflow = true;
                    assert(digits_value(pre) * 10 + d > u64::MAX) by (nonlinear_arith)
                        requires digits_value(pre) * 10 > u64::MAX, d >= 0;
                },
            }
        } else {
            assert(digits_value(pre) * 10 + d > u64::MAX) by (nonlinear_arith)
                requires digits_value(pre) > u64::MAX, d >= 0;
        }
        assert(all_digits(next)) by {
            assert forall|j: int| 0 <= j < next.len() implies (#[trigger] digit_value(next[j])) is Some by {
                if j < pre.len() {
                    assert(next[j] == pre[j]);
                }
            }
        }
        i = i + 1;
    }
    assert(all@.subrange(start as int, all@.len() as int) =~= body);
    if overflow { None } else { Some(value) }
}

/// The sample count that a request's parameters ask for: `points` must spell
/// a positive number.
pub open spec fn requested_points(params: Map<Seq<char>, Seq<char>>) -> Option<u64> {
    if params.contains_key("points"@) {
        match u64_of(params["points"@]) {
            Some(p) => if p > 0 { Some(p) } else { None },
            None => None,
        }
    } else {
        None
    }
}

/// Reads the requested sample count from the query parameters.
pub fn parse_points(params: &QueryParams) -> (r: Option<u64>)
    ensures
        r == requested_points(params@),
{
    match params.get("points") {
        Some(text) => match parse_u64(text.as_str()) {
            Some(p) => if p > 0 { Some(p) } else { None },
            None => None,
        },
        None => None,
    }
}

/// Indices of the active workers of `ws`, in registry order.
pub open spec fn active_indices(ws: Seq<Worker>) -> Seq<int>
    decreases ws.len(),
{
    if ws.len() == 0 {
        Seq::empty()
    } else if is_active(ws.last()) {
        active_indices(ws.drop_last()).push(ws.len() - 1)
    } else {
        active_indices(ws.drop_last())
    }
}

/// The sampling endpoint of the worker at `address`, asked for `points` samples.
pub open spec fn sampling_url(address: Seq<char>, points: nat) -> Seq<char> {
    address + "/internal/montecarlo?points="@ + decimal(points)
}

/// How a sampling task is split: the samples per worker and, for every active
/// worker, its index and the address to ask.
#[derive(Debug)]
pub struct MonteCarloPlan {
    pub per_worker: u64,
    pub targets: Vec<(usize, String)>,
}

impl MonteCarloPlan {
    /// The samples that all targets together take fit in 64 bits.
    pub open spec fn wf(&self) -> bool {
        self.per_worker * self.targets@.len() <= u64::MAX
    }
}

/// Splits `total_points` over the active workers of `state`: each gets the
/// same share, the remainder being dropped. Nothing when no worker is active.
pub fn plan_montecarlo(state: &DispatcherState, total_points: u64) -> (r: Option<MonteCarloPlan>)
    ensures
        active_indices(state.workers@).len() == 0 <==> r is None,
        r matches Some(plan) ==> {
            let act = active_indices(state.workers@);
            &&& plan.wf()
            &&& plan.per_worker == total_points / (act.len() as u64)
            &&& plan.targets@.len() == act.len()
            &&& forall|j: int| 0 <= j < act.len() ==> {
                &&& (#[trigger] plan.targets@[j]).0 == act[j]
                &&& plan.targets@[j].1@ == sampling_url(
                    state.workers@[act[j]].address@,
                    plan.per_worker as nat,
                )
            }
        },
{
    let ghost ws = state.workers@;
    let mut active: Vec<usize> = Vec::new();
    let mut i: usize = 0;
    while i < state.workers.len()
        invariant
            i <= ws.len(),
            ws == state.workers@,
            active@.len() == active_indices(ws.take(i as int)).len(),
            forall|j: int| 0 <= j < active@.len() ==> (#[trigger] active@[j]) as int
                == active_indices(ws.take(i as int))[j] && active@[j] < i,
        decreases ws.len() - i,
    {
        assert(ws.take(i + 1).drop_last() =~= ws.take(i as int));
        if state.workers[i].status == crate::registry::WorkerStatus::Active {
            active.push(i);
        }
        i = i + 1;
    }
    assert(ws.take(ws.len() as int) =~= ws);
    let k = active.len();
    if k == 0 {
        return None;
    }
    let per = total_points / (k as u64);
    assert(per * k <= total_points) by (nonlinear_arith)
        requires per == total_points / (k as u64), k > 0;
    let mut targets: Vec<(usize, String)> = Vec::new();
    let mut j: usize = 0;
    while j < k
        invariant
            k == active@.len(),
            ws == state.workers@,
            j <= k,
            targets@.len() == j,
            forall|t: int| 0 <= t < active@.len() ==> (#[trigger] active@[t]) < ws.len(),
            forall|t: int| 0 <= t < j ==> {
                &&& (#[trigger] targets@[t]).0 == active@[t]
                &&& targets@[t].1@ == sampling_url(ws[active@[t] as int].address@, per as nat)
            },
        decreases k - j,
    {
        let idx = active[j];
        let mut url = state.workers[idx].address.clone();
        push_str(&mut url, "/internal/montecarlo?points=");
        push_decimal(&mut url, per);
        assert(url@ =~= sampling_url(ws[idx as int].address@, per as nat));
        targets.push((idx, url));
        j = j + 1;
    }
    Some(MonteCarloPlan { per_worker: per, targets })
}

/// A report is taken when it arrived and claims no more hits than samples.
pub open spec fn accepted(per: u64, h: Option<u64>) -> bool {
    h matches Some(x) && x <= per
}

/// Sum of the accepted reports.
pub open spec fn hits_sum(per: u64, hs: Seq<Option<u64>>) -> nat
    decreases hs.len(),
{
    if hs.len() == 0 {
        0
    } else {
        hits_sum(per, hs.drop_last()) + if accepted(per, hs.last()) { hs.last()->Some_0 as nat } else { 0 }
    }
}

/// Number of accepted reports.
pub open spec fn accepted_count(per: u64, hs: Seq<Option<u64>>) -> nat
    decreases hs.len(),
{
    if hs.len() == 0 {
        0
    } else {
        accepted_count(per, hs.drop_last()) + if accepted(per, hs.last()) { 1nat } else { 0 }
    }
}

/// The workers after one completed task is counted for each accepted report.
pub open spec fn credit(ws: Seq<Worker>, targets: Seq<(usize, String)>, per: u64, hs: Seq<Option<u64>>) -> Seq<Worker>
    decreases hs.len(),
{
    if hs.len() == 0 || targets.len() < hs.len() {
        ws
    } else {
        let before = credit(ws, targets, per, hs.drop_last());
        let t = targets[hs.len() - 1].0 as int;
        if accepted(per, hs.last()) { before.update(t, with_success(before[t])) } else { before }
    }
}

/// The combined result: all accepted hits, and the samples behind them.
#[derive(Debug, Clone, Copy, PartialEq, Eq, Structural)]
pub struct MonteCarloSummary {
    pub total_hits: u64,
    pub total_points: u64,
}

proof fn lemma_hits_bounded(per: u64, hs: Seq<Option<u64>>)
    ensures
        hits_sum(per, hs) <= per * accepted_count(per, hs),
        accepted_count(per, hs) <= hs.len(),
    decreases hs.len(),
{
    if hs.len() > 0 {
        lemma_hits_bounded(per, hs.drop_last());
        let c = accepted_count(per, hs.drop_last());
        if accepted(per, hs.last()) {
            assert(per * (c + 1) == per * c + per) by (nonlinear_arith);
        }
    }
}

/// Combines the workers' reports, `hits[j]` coming from `plan.targets[j]`:
/// each accepted report adds its hits and counts a completed task for its
/// worker; the rest are left out. Nothing when no report is accepted.
pub fn finish_montecarlo(
    state: &mut DispatcherState,
    plan: &MonteCarloPlan,
    hits: &Vec<Option<u64>>,
) -> (r: Option<MonteCarloSummary>)
    requires
        plan.wf(),
        hits@.len() == plan.targets@.len(),
        forall|j: int| 0 <= j < plan.targets@.len() ==> (#[trigger] plan.targets@[j]).0 < old(
            state,
        ).workers@.len(),
    ensures
        final(state).next_worker_index == old(state).next_worker_index,
        final(state).workers@ == credit(old(state).workers@, plan.targets@, plan.per_worker, hits@),
        accepted_count(plan.per_worker, hits@) == 0 <==> r is None,
        r matches Some(s) ==> {
            &&& s.total_hits == hits_sum(plan.per_worker, hits@)
            &&& s.total_points == plan.per_worker * accepted_count(plan.per_worker, hits@)
        },
{
    let per = plan.per_worker;
    let n = hits.len();
    let mut total: u64 = 0;
    let mut ok: u64 = 0;
    let mut j: usize = 0;
    while j < n
        invariant
            n == hits@.len(),
            n == plan.targets@.len(),
            j <= n,
            per == plan.per_worker,
            per * n <= u64::MAX,
            state.workers@.len() == old(state).workers@.len(),
            state.next_worker_index == old(state).next_worker_index,
            forall|t: int| 0 <= t < plan.targets@.len() ==> (#[trigger] plan.targets@[t]).0 < old(
                state,
            ).workers@.len(),
            state.workers@ == credit(old(state).workers@, plan.targets@, per, hits@.take(j as int)),
            total == hits_sum(per, hits@.take(j as int)),
            ok == accepted_count(per, hits@.take(j as int)),
        decreases n - j,
    {
        let ghost pre = hits@.take(j as int);
        let ghost next = hits@.take(j + 1);
        assert(next.drop_last() =~= pre);
        proof {
            lemma_hits_bounded(per, pre);
            assert(per * ok <= per * n) by (nonlinear_arith)
                requires ok <= n;
        }
        match hits[j] {
            Some(h) => {
                if h <= per {
                    assert(total + h <= per * (ok + 1)) by (nonlinear_arith)
                        requires total <= per * ok, h <= per;
                    assert(per * (ok + 1) <= per * n) by (nonlinear_arith)
                        requires ok + 1 <= n;
                    total = total + h;
                    ok = ok + 1;
                    state.record_success(plan.targets[j].0);
                }
            },
            None => {},
        }
        j = j + 1;
    }
    assert(hits@.take(n as int) =~= hits@);
    if ok == 0 {
        return None;
    }
    proof {
        lemma_hits_bounded(per, hits@);
        assert(per * ok <= per * n) by (nonlinear_arith)
            requires ok <= n;
    }
    Some(MonteCarloSummary { total_hits: total, total_points: per * ok })
}

/// Sum of a sequence of counts.
pub open spec fn total(hs: Seq<u64>) -> nat
    decreases hs.len(),
{
    if hs.len() == 0 { 0 } else { total(hs.drop_last()) + hs.last() as nat }
}

/// Aggregation over workers that all report: with `k` reports `h1..hk`, each
/// from `p` samples, the combined hits are the sum of the `hi` and the samples
/// behind them are `p * k`, so the estimate is `4 * sum / (p * k)`.
pub proof fn lemma_aggregation(p: u64, hs: Seq<u64>)
    requires
        forall|i: int| 0 <= i < hs.len() ==> #[trigger] hs[i] <= p,
    ensures
        hits_sum(p, hs.map_values(|h: u64| Some(h))) == total(hs),
        accepted_count(p, hs.map_values(|h: u64| Some(h))) == hs.len(),
        p * accepted_count(p, hs.map_values(|h: u64| Some(h))) == p * hs.len(),
    decreases hs.len(),
{
    if hs.len() > 0 {
        assert(hs.map_values(|h: u64| Some(h)).drop_last() =~= hs.drop_last().map_values(|h: u64| Some(h)));
        lemma_aggregation(p, hs.drop_last());
        assert(hs[hs.len() - 1] <= p);
    }
}

/// The answer to a sampling request whose sample count is not a positive number.
pub open spec fn invalid_points_response() -> Seq<char> {
    framed(
        "HTTP/1.0 400 Bad Request\r\nContent-Length: "@,
        "\r\nContent-Type: text/plain\r\n\r\n"@,
        bad_request_json("Parametro 'points' debe ser un numero entero positivo"@),
    )
}

/// A `500` answer carrying `msg`.
pub open spec fn unavailable_response(msg: Seq<char>) -> Seq<char> {
    framed(
        "HTTP/1.0 500 Internal Server Error\r\nContent-Type: application/json\r\nContent-Length: "@,
        "\r\n\r\n"@,
        server_error_json(msg),
    )
}

/// First step of a sampling request: an answer right away when the sample
/// count is missing or not positive (no worker is asked), or when no worker
/// is active; otherwise the plan of who samples what.
pub fn start_montecarlo(params: &QueryParams, state: &DispatcherState) -> (r: Result<MonteCarloPlan, String>)
    ensures
        requested_points(params@) is None ==> r is Err && r->Err_0@ == invalid_points_response(),
        requested_points(params@) is Some && active_indices(state.workers@).len() == 0 ==> r is Err
            && r->Err_0@ == unavailable_response("No hay workers disponibles"@),
        requested_points(params@) is Some && active_indices(state.workers@).len() > 0 ==> r is Ok,
        r matches Ok(plan) ==> {
            let act = active_indices(state.workers@);
            &&& plan.wf()
            &&& plan.per_worker == requested_points(params@)->Some_0 / (act.len() as u64)
            &&& plan.targets@.len() == act.len()
            &&& forall|j: int| 0 <= j < act.len() ==> {
                &&& (#[trigger] plan.targets@[j]).0 == act[j]
                &&& plan.targets@[j].1@ == sampling_url(
                    state.workers@[act[j]].address@,
                    plan.per_worker as nat,
                )
            }
        },
{
    let total_points = match parse_points(params) {
        Some(p) => p,
        None => {
            return Err(http_resonse_400("Parametro 'points' debe ser un numero entero positivo"));
        },
    };
    match plan_montecarlo(state, total_points) {
        Some(plan) => Ok(plan),
        None => Err(http_response_500_json("No hay workers disponibles")),
    }
}

/// The body reporting an estimate, written as `pi`, with its samples and hits.
pub open spec fn summary_json(pi: Seq<char>, s: MonteCarloSummary) -> Seq<char> {
    "{\"pi_estimate\":"@ + pi + ", \"total_points_simulated\":"@ + decimal(s.total_points as nat)
        + ", \"total_hits\":"@ + decimal(s.total_hits as nat) + "}"@
}

/// The answer to a sampling request: the summary when some report was
/// accepted, with the estimate written as `pi`; a `500` otherwise.
pub fn montecarlo_response(summary: Option<MonteCarloSummary>, pi: &str) -> (r: String)
    ensures
        summary matches Some(s) ==> r@ == framed(
            "HTTP/1.0 200 OK\r\nContent-Type: application/json\r\nContent-Length: "@,
            "\r\n\r\n"@,
            ok_json(summary_json(pi@, s)),
        ),
        summary is None ==> r@ == unavailable_response(
            "Ningun worker pudo completar la tarea de Montecarlo"@,
        ),
{
    match summary {
        None => http_response_500_json("Ningun worker pudo completar la tarea de Montecarlo"),
        Some(s) => {
            let mut body = String::new();
            push_str(&mut body, "{\"pi_estimate\":");
            push_str(&mut body, pi);
            push_str(&mut body, ", \"total_points_simulated\":");
            push_decimal(&mut body, s.total_points);
            push_str(&mut body, ", \"total_hits\":");
            push_decimal(&mut body, s.total_hits);
            push_str(&mut body, "}");
            assert(body@ =~= summary_json(pi@, s));
            http_response_200(body.as_str())
        },
    }
}

} // verus!
