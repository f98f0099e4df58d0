//! The worker registry: the workers known to the dispatcher, their status
//! and counters, and the round-robin cursor.
use vstd::prelude::*;

verus! {

/// Reachability of a worker, as last seen by a probe or a forward.
#[derive(Debug, Clone, Copy, PartialEq, Eq, Structural)]
pub enum WorkerStatus {
    Active,
    Inactive,
}

/// One backend node.
#[derive(Debug, Clone)]
pub struct Worker {
    pub id: String,
    pub address: String,
    pub status: WorkerStatus,
    pub task_completed: u64,
    pub tasks_failed: u64,
}

/// The whole shared state of the dispatcher.
#[derive(Debug)]
pub struct DispatcherState {
    pub workers: Vec<Worker>,
    pub next_worker_index: usize,
}

pub open spec fn is_active(w: Worker) -> bool {
    w.status == WorkerStatus::Active
}

/// The worker examined `k` steps after position `start` in a rotation over `n` workers.
pub open spec fn slot(n: int, start: int, k: int) -> int {
    (start + k) % n
}

/// Round-robin scan over `ws` from `start`, examining offsets `k..len`: the index
/// of the first active worker met, if any.
pub open spec fn scan_from(ws: Seq<Worker>, start: int, k: int) -> Option<int>
    decreases ws.len() - k,
{
    if k < 0 || k >= ws.len() {
        None
    } else if is_active(ws[slot(ws.len() as int, start, k)]) {
        Some(slot(ws.len() as int, start, k))
    } else {
        scan_from(ws, start, k + 1)
    }
}

/// The worker that round-robin selection picks from cursor `cursor`.
pub open spec fn select_spec(ws: Seq<Worker>, cursor: int) -> Option<int> {
    scan_from(ws, cursor % (ws.len() as int), 0)
}

/// The cursor that round-robin selection leaves behind.
pub open spec fn cursor_after(ws: Seq<Worker>, cursor: int) -> int {
    match select_spec(ws, cursor) {
        Some(i) => (i + 1) % (ws.len() as int),
        None => if ws.len() == 0 { cursor } else { cursor % (ws.len() as int) },
    }
}

pub open spec fn some_active(ws: Seq<Worker>) -> bool {
    exists|i: int| 0 <= i < ws.len() && is_active(#[trigger] ws[i])
}

/// What a scan from offset `k` returns: an active worker met at an offset of at
/// least `k`, or nothing when no such offset holds one.
proof fn lemma_scan_from(ws: Seq<Worker>, start: int, k: int)
    requires
        ws.len() > 0,
        0 <= start < ws.len(),
        0 <= k <= ws.len(),
    ensures
        match scan_from(ws, start, k) {
            Some(i) => 0 <= i < ws.len() && is_active(ws[i])
                && exists|j: int| k <= j < ws.len() && i == #[trigger] slot(ws.len() as int, start, j),
            None => forall|j: int| k <= j < ws.len() ==> !is_active(#[trigger] ws[slot(ws.len() as int, start, j)]),
        },
    decreases ws.len() - k,
{
    if k < ws.len() {
        lemma_scan_from(ws, start, k + 1);
        if is_active(ws[slot(ws.len() as int, start, k)]) {
            assert(k <= k < ws.len() && scan_from(ws, start, k) == Some(slot(ws.len() as int, start, k)));
        }
    }
}

/// Every index of the rotation is met at some offset below `n`.
proof fn lemma_slot_covers(n: int, start: int, i: int)
    requires
        0 <= start < n,
        0 <= i < n,
    ensures
        ({
            let j = if i >= start { i - start } else { i + n - start };
            0 <= j < n && slot(n, start, j) == i
        }),
{
    if i >= start {
        assert((start + (i - start)) % n == i) by {
            vstd::arithmetic::div_mod::lemma_small_mod(i as nat, n as nat);
        }
    } else {
        assert((start + (i + n - start)) % n == i) by {
            vstd::arithmetic::div_mod::lemma_mod_add_multiples_vanish(i, n);
            vstd::arithmetic::div_mod::lemma_small_mod(i as nat, n as nat);
        }
    }
}

/// Selection always lands inside the worker sequence, on an active worker,
/// and finds one whenever some worker is active, whatever the cursor.
pub proof fn lemma_selection_in_bounds(ws: Seq<Worker>, cursor: int)
    requires
        ws.len() > 0,
        cursor >= 0,
    ensures
        match select_spec(ws, cursor) {
            Some(i) => 0 <= i < ws.len() && is_active(ws[i]),
            None => !some_active(ws),
        },
        some_active(ws) ==> select_spec(ws, cursor) is Some,
        0 <= cursor_after(ws, cursor) < ws.len(),
{
    let n = ws.len() as int;
    let start = cursor % n;
    lemma_scan_from(ws, start, 0);
    if select_spec(ws, cursor) is None {
        assert forall|i: int| 0 <= i < n implies !is_active(#[trigger] ws[i]) by {
            lemma_slot_covers(n, start, i);
            let j = if i >= start { i - start } else { i + n - start };
            assert(!is_active(ws[slot(n, start, j)]));
        }
    }
}

/// The same worker with one more completed task; counters stop at `u64::MAX`.
pub open spec fn with_success(w: Worker) -> Worker {
    Worker { task_completed: bump(w.task_completed), ..w }
}

/// The same worker demoted to `Inactive`, with one more failed task.
pub open spec fn with_failure(w: Worker) -> Worker {
    Worker { status: WorkerStatus::Inactive, tasks_failed: bump(w.tasks_failed), ..w }
}

/// A counter after one increment.
pub open spec fn bump(c: u64) -> u64 {
    if c < u64::MAX { (c + 1) as u64 } else { c }
}

/// The index of the first worker of `ws` whose id is `id`.
pub open spec fn first_with_id(ws: Seq<Worker>, id: Seq<char>, i: int) -> bool {
    &&& 0 <= i < ws.len()
    &&& ws[i].id@ == id
    &&& forall|j: int| 0 <= j < i ==> (#[trigger] ws[j]).id@ != id
}

/// Scan over absolute positions from `x + k` up to `x + n`: the first
/// position whose worker (taken modulo `n`) is active, or `x + n`.
pub open spec fn lift_scan(ws: Seq<Worker>, x: int, k: int) -> int
    decreases ws.len() - k,
{
    if k < 0 || k >= ws.len() {
        x + ws.len()
    } else if is_active(ws[(x + k) % (ws.len() as int)]) {
        x + k
    } else {
        lift_scan(ws, x, k + 1)
    }
}

/// The cursor after `t` selections starting from cursor `c`, with no status change in between.
pub open spec fn rr_cursor(ws: Seq<Worker>, c: int, t: nat) -> int
    decreases t,
{
    if t == 0 { c } else { cursor_after(ws, rr_cursor(ws, c, (t - 1) as nat)) }
}

/// The worker picked by selection number `t` (counting from 0) from cursor `c`.
pub open spec fn rr_pick(ws: Seq<Worker>, c: int, t: nat) -> Option<int> {
    select_spec(ws, rr_cursor(ws, c, t))
}

/// Selection number `t` as an absolute position that only grows.
pub open spec fn rr_abs(ws: Seq<Worker>, c: int, t: nat) -> int
    decreases t,
{
    if t == 0 { lift_scan(ws, c, 0) } else { lift_scan(ws, rr_abs(ws, c, (t - 1) as nat) + 1, 0) }
}

proof fn lemma_mod_shift(x: int, k: int, n: int)
    requires
        n > 0,
    ensures
        (x % n + k) % n == (x + k) % n,
{
    vstd::arithmetic::div_mod::lemma_add_mod_noop_right(k, x, n);
}

proof fn lemma_lift_scan(ws: Seq<Worker>, x: int, k: int)
    requires
        ws.len() > 0,
        x >= 0,
        0 <= k <= ws.len(),
    ensures
        x + k <= lift_scan(ws, x, k) <= x + ws.len(),
        lift_scan(ws, x, k) < x + ws.len() ==> is_active(ws[lift_scan(ws, x, k) % (ws.len() as int)])
            && scan_from(ws, x % (ws.len() as int), k) == Some(lift_scan(ws, x, k) % (ws.len() as int)),
        lift_scan(ws, x, k) == x + ws.len() ==> scan_from(ws, x % (ws.len() as int), k) is None,
        forall|y: int| x + k <= y < lift_scan(ws, x, k) ==> !is_active(#[trigger] ws[y % (ws.len() as int)]),
    decreases ws.len() - k,
{
    let n = ws.len() as int;
    if k < n {
        lemma_mod_shift(x, k, n);
        assert(slot(n, x % n, k) == (x + k) % n);
        if !is_active(ws[(x + k) % n]) {
            lemma_lift_scan(ws, x, k + 1);
        }
    }
}

proof fn lemma_lift_found(ws: Seq<Worker>, x: int)
    requires
        ws.len() > 0,
        x >= 0,
        some_active(ws),
    ensures
        lift_scan(ws, x, 0) < x + ws.len(),
        select_spec(ws, x) == Some(lift_scan(ws, x, 0) % (ws.len() as int)),
        cursor_after(ws, x) == (lift_scan(ws, x, 0) + 1) % (ws.len() as int),
{
    let n = ws.len() as int;
    lemma_lift_scan(ws, x, 0);
    let i = choose|i: int| 0 <= i < n && is_active(#[trigger] ws[i]);
    if lift_scan(ws, x, 0) == x + n {
        let y = x + (i - x % n + n) % n;
        assert(y % n == i) by {
            lemma_mod_shift(x, (i - x % n + n) % n, n);
            vstd::arithmetic::div_mod::lemma_add_mod_noop_right(x % n, i - x % n + n, n);
            vstd::arithmetic::div_mod::lemma_mod_add_multiples_vanish(i, n);
            vstd::arithmetic::div_mod::lemma_small_mod(i as nat, n as nat);
        }
        assert(!is_active(ws[y % n]));
    }
    vstd::arithmetic::div_mod::lemma_add_mod_noop_right(1, lift_scan(ws, x, 0), n);
}

/// The cursor after `t` selections is the position after the previous pick.
proof fn lemma_rr_step(ws: Seq<Worker>, c: int, t: nat)
    requires
        ws.len() > 0,
        c >= 0,
        some_active(ws),
    ensures
        rr_cursor(ws, c, t) >= 0,
        t == 0 ==> rr_cursor(ws, c, t) == c,
        t > 0 ==> rr_cursor(ws, c, t) == (rr_abs(ws, c, (t - 1) as nat) + 1) % (ws.len() as int),
        rr_pick(ws, c, t) == Some(rr_abs(ws, c, t) % (ws.len() as int)),
        rr_abs(ws, c, t) >= c,
    decreases t,
{
    let n = ws.len() as int;
    if t == 0 {
        lemma_lift_found(ws, c);
        lemma_lift_scan(ws, c, 0);
    } else {
        let prev = rr_abs(ws, c, (t - 1) as nat);
        lemma_rr_step(ws, c, (t - 1) as nat);
        let cur = rr_cursor(ws, c, (t - 1) as nat);
        lemma_lift_found(ws, cur);
        lemma_lift_found(ws, prev + 1);
        lemma_lift_scan(ws, prev + 1, 0);
        // The scans from `cur` and from `prev + 1` see the same workers.
        assert(cursor_after(ws, cur) == (prev + 1) % n) by {
            vstd::arithmetic::div_mod::lemma_add_mod_noop_right(1, prev, n);
        }
        let nxt = (prev + 1) % n;
        assert(nxt % n == (prev + 1) % n) by {
            vstd::arithmetic::div_mod::lemma_mod_twice(prev + 1, n);
        }
        assert(select_spec(ws, nxt) == select_spec(ws, prev + 1));
    }
}

proof fn lemma_rr_monotone(ws: Seq<Worker>, c: int, s: nat, t: nat)
    requires
        ws.len() > 0,
        c >= 0,
        some_active(ws),
        s < t,
    ensures
        rr_abs(ws, c, s) < rr_abs(ws, c, t),
    decreases t,
{
    lemma_rr_step(ws, c, (t - 1) as nat);
    lemma_lift_scan(ws, rr_abs(ws, c, (t - 1) as nat) + 1, 0);
    if s < t - 1 {
        lemma_rr_monotone(ws, c, s, (t - 1) as nat);
    }
}

/// Every active position between the first pick and pick `t` is a pick.
proof fn lemma_rr_covers(ws: Seq<Worker>, c: int, t: nat, y: int)
    requires
        ws.len() > 0,
        c >= 0,
        some_active(ws),
        rr_abs(ws, c, 0) <= y <= rr_abs(ws, c, t),
        is_active(ws[y % (ws.len() as int)]),
    ensures
        exists|s: nat| s <= t && #[trigger] rr_abs(ws, c, s) == y,
    decreases t,
{
    if t > 0 {
        let prev = rr_abs(ws, c, (t - 1) as nat);
        lemma_rr_step(ws, c, (t - 1) as nat);
        lemma_lift_scan(ws, prev + 1, 0);
        if y <= prev {
            lemma_rr_covers(ws, c, (t - 1) as nat, y);
            let s = choose|s: nat| s <= (t - 1) as nat && #[trigger] rr_abs(ws, c, s) == y;
            assert(s <= t && rr_abs(ws, c, s) == y);
        } else {
            assert(rr_abs(ws, c, t) == y);
        }
    } else {
        assert(rr_abs(ws, c, 0) == y);
    }
}

/// Round-robin fairness: with no status change between selections, no worker
/// is picked a second time before every active worker has been picked once.
/// When picks `t1 < t2` name the same worker, each active worker is named by
/// some pick before `t2`.
pub proof fn lemma_round_robin_fair(ws: Seq<Worker>, c: int, t1: nat, t2: nat)
    requires
        ws.len() > 0,
        c >= 0,
        some_active(ws),
        t1 < t2,
        rr_pick(ws, c, t1) == rr_pick(ws, c, t2),
    ensures
        forall|i: int| 0 <= i < ws.len() && is_active(#[trigger] ws[i]) ==> exists|s: nat| s < t2 && rr_pick(ws, c, s) == Some(i),
{
    let n = ws.len() as int;
    let a = rr_abs(ws, c, t1);
    let b = rr_abs(ws, c, t2);
    lemma_rr_step(ws, c, t1);
    lemma_rr_step(ws, c, t2);
    lemma_rr_monotone(ws, c, t1, t2);
    assert(b >= a + n) by {
        vstd::arithmetic::div_mod::lemma_fundamental_div_mod(a, n);
        vstd::arithmetic::div_mod::lemma_fundamental_div_mod(b, n);
        let qa = a / n;
        let qb = b / n;
        let r = a % n;
        assert(b - a == n * (qb - qa)) by (nonlinear_arith)
            requires a == n * qa + r, b == n * qb + r;
        assert(b - a >= n) by (nonlinear_arith)
            requires b - a == n * (qb - qa), b - a > 0, n > 0;
    }
    assert forall|i: int| 0 <= i < ws.len() && is_active(#[trigger] ws[i]) implies exists|s: nat| s < t2 && rr_pick(ws, c, s) == Some(i) by {
        let y = a + (i - a % n + n) % n;
        assert(y % n == i) by {
            lemma_mod_shift(a, (i - a % n + n) % n, n);
            vstd::arithmetic::div_mod::lemma_add_mod_noop_right(a % n, i - a % n + n, n);
            vstd::arithmetic::div_mod::lemma_mod_add_multiples_vanish(i, n);
            vstd::arithmetic::div_mod::lemma_small_mod(i as nat, n as nat);
        }
        if t1 > 0 {
            lemma_rr_monotone(ws, c, 0, t1);
        }
        lemma_rr_covers(ws, c, t2, y);
        let s = choose|s: nat| s <= t2 && #[trigger] rr_abs(ws, c, s) == y;
        if s == t2 {
            assert(false);
        }
        lemma_rr_step(ws, c, s);
        assert(s < t2 && rr_pick(ws, c, s) == Some(i));
    }
}

impl DispatcherState {
    /// The registry holds at least one worker and the cursor points inside it.
    pub open spec fn wf(&self) -> bool {
        &&& self.workers@.len() > 0
        &&& self.next_worker_index < self.workers@.len()
    }

    /// A registry over `workers` with the cursor on the first one.
    pub fn new(workers: Vec<Worker>) -> (r: DispatcherState)
        ensures
            r.workers@ == workers@,
            r.next_worker_index == 0,
            workers@.len() > 0 ==> r.wf(),
    {
        DispatcherState { workers, next_worker_index: 0 }
    }

    /// Sets the status of the first worker whose id is `id`, overwriting the
    /// previous one; returns whether such a worker exists.
    pub fn set_status_by_id(&mut self, id: &String, status: WorkerStatus) -> (found: bool)
        ensures
            final(self).next_worker_index == old(self).next_worker_index,
            found <==> exists|i: int| 0 <= i < old(self).workers@.len() && (#[trigger] old(self).workers@[i]).id@ == id@,
            found ==> exists|i: int| first_with_id(old(self).workers@, id@, i)
                && final(self).workers@ == old(self).workers@.update(
                    i,
                    Worker { status, ..old(self).workers@[i] },
                ),
            !found ==> final(self).workers@ == old(self).workers@,
    {
        let mut i: usize = 0;
        while i < self.workers.len()
            invariant
                i <= self.workers@.len(),
                self.workers@ == old(self).workers@,
                self.next_worker_index == old(self).next_worker_index,
                forall|j: int| 0 <= j < i ==> (#[trigger] self.workers@[j]).id@ != id@,
            decreases self.workers@.len() - i,
        {
            if self.workers[i].id == *id {
                self.workers[i].status = status;
                assert(first_with_id(old(self).workers@, id@, i as int));
                return true;
            }
            i = i + 1;
        }
        false
    }

    /// The `(id, address)` of every worker, in registry order.
    pub fn probe_targets(&self) -> (r: Vec<(String, String)>)
        ensures
            r@.len() == self.workers@.len(),
            forall|i: int| 0 <= i < r@.len() ==> (#[trigger] r@[i]).0@ == self.workers@[i].id@
                && r@[i].1@ == self.workers@[i].address@,
    {
        let mut r: Vec<(String, String)> = Vec::new();
        let mut i: usize = 0;
        while i < self.workers.len()
            invariant
                i <= self.workers@.len(),
                r@.len() == i,
                forall|j: int| 0 <= j < i ==> (#[trigger] r@[j]).0@ == self.workers@[j].id@
                    && r@[j].1@ == self.workers@[j].address@,
            decreases self.workers@.len() - i,
        {
            r.push((self.workers[i].id.clone(), self.workers[i].address.clone()));
            i = i + 1;
        }
        r
    }

    /// Counts a confirmed successful task for worker `index`.
    pub fn record_success(&mut self, index: usize)
        requires
            index < old(self).workers@.len(),
        ensures
            final(self).next_worker_index == old(self).next_worker_index,
            final(self).workers@ == old(self).workers@.update(
                index as int,
                with_success(old(self).workers@[index as int]),
            ),
    {
        let c = self.workers[index].task_completed.saturating_add(1);
        self.workers[index].task_completed = c;
    }

    /// Counts a failed forward for worker `index` and demotes it.
    pub fn record_failure(&mut self, index: usize)
        requires
            index < old(self).workers@.len(),
        ensures
            final(self).next_worker_index == old(self).next_worker_index,
            final(self).workers@ == old(self).workers@.update(
                index as int,
                with_failure(old(self).workers@[index as int]),
            ),
    {
        let c = self.workers[index].tasks_failed.saturating_add(1);
        self.workers[index].tasks_failed = c;
        self.workers[index].status = WorkerStatus::Inactive;
    }
}

/// Round-robin selection: examines at most one full rotation starting at the
/// cursor, advancing the cursor (modulo the number of workers) on every
/// examination, and returns the first active worker met.
pub fn select_next_worker(state: &mut DispatcherState) -> (r: Option<usize>)
    ensures
        final(state).workers@ == old(state).workers@,
        old(state).workers@.len() > 0 ==> final(state).wf(),
        old(state).workers@.len() == 0 ==> r is None && final(state).next_worker_index == old(
            state,
        ).next_worker_index,
        old(state).workers@.len() > 0 ==> {
            &&& (r is None <==> select_spec(old(state).workers@, old(state).next_worker_index as int) is None)
            &&& (r matches Some(i) ==> select_spec(old(state).workers@, old(state).next_worker_index as int) == Some(i as int))
            &&& final(state).next_worker_index == cursor_after(
                old(state).workers@,
                old(state).next_worker_index as int,
            )
        },
{
    let n = state.workers.len();
    if n == 0 {
        return None;
    }
    proof {
        lemma_selection_in_bounds(old(state).workers@, old(state).next_worker_index as int);
    }
    let ghost ws = state.workers@;
    let ghost start = (state.next_worker_index % n) as int;
    let mut index = state.next_worker_index % n;
    state.next_worker_index = index;
    assert(ws == old(state).workers@);
    assert(slot(n as int, start, 0) == start) by {
        vstd::arithmetic::div_mod::lemma_small_mod(start as nat, n as nat);
    }
    let mut k: usize = 0;
    while k < n
        invariant
            n == ws.len(),
            state.workers@ == ws,
            ws == old(state).workers@,
            0 <= start < n,
            start == (old(state).next_worker_index as int) % (n as int),
            k <= n,
            index < n,
            index == slot(n as int, start, k as int),
            state.next_worker_index == index,
            scan_from(ws, start, 0) == scan_from(ws, start, k as int),
        decreases n - k,
    {
        if index == n - 1 {
            state.next_worker_index = 0;
        } else {
            state.next_worker_index = index + 1;
        }
        assert(state.next_worker_index == (index + 1) % (n as int)) by {
            if index < n - 1 {
                vstd::arithmetic::div_mod::lemma_small_mod((index + 1) as nat, n as nat);
            } else {
                vstd::arithmetic::div_mod::lemma_mod_self_0(n as int);
            }
        }
        if state.workers[index].status == WorkerStatus::Active {
            assert(scan_from(ws, start, k as int) == Some(index as int));
            assert(select_spec(ws, old(state).next_worker_index as int) == Some(index as int));
            return Some(index);
        }
        assert(slot(n as int, start, k + 1) == (index + 1) % (n as int)) by {
            vstd::arithmetic::div_mod::lemma_add_mod_noop_right(1, start + k, n as int);
        }
        index = state.next_worker_index;
        k = k + 1;
    }
    assert(slot(n as int, start, n as int) == start) by {
        vstd::arithmetic::div_mod::lemma_mod_add_multiples_vanish(start, n as int);
        vstd::arithmetic::div_mod::lemma_small_mod(start as nat, n as nat);
    }
    None
}

} // verus!
