//! The dispatcher's front: building the registry from configuration, the
//! status report, and routing a request to one of the three kinds of work.
use vstd::prelude::*;
use crate::registry::{DispatcherState, Worker, WorkerStatus};
use crate::request::{
    params_of, parse_query, parse_request_line, request_line_parts, route_of, same_chars, split_all,
    split_on, QueryParams,
};
use crate::responses::{frame, framed};
use crate::text::{chars_of, decimal, push_decimal, push_str, string_of, trim, trimmed};

verus! {

/// The name of a status in the report.
pub open spec fn status_name(s: WorkerStatus) -> Seq<char> {
    match s {
        WorkerStatus::Active => "Active"@,
        WorkerStatus::Inactive => "Inactive"@,
    }
}

/// One worker as a JSON object.
pub open spec fn worker_json(w: Worker) -> Seq<char> {
    "{\"id\":\""@ + w.id@ + "\",\"address\":\""@ + w.address@ + "\",\"status\":\""@
        + status_name(w.status) + "\",\"tasks_completed\":"@ + decimal(w.task_completed as nat)
        + ",\"tasks_failed\":"@ + decimal(w.tasks_failed as nat) + "}"@
}

/// The objects of all workers, separated by commas.
pub open spec fn workers_json(ws: Seq<Worker>) -> Seq<char>
    decreases ws.len(),
{
    if ws.len() == 0 {
        Seq::empty()
    } else if ws.len() == 1 {
        worker_json(ws[0])
    } else {
        workers_json(ws.drop_last()) + ","@ + worker_json(ws.last())
    }
}

/// The status report: a JSON array with one object per worker, in registry order.
pub open spec fn status_report(ws: Seq<Worker>) -> Seq<char> {
    framed(
        "HTTP/1.1 200 OK\r\nContent-Type: application/json\r\nContent-Length: "@,
        "\r\n\r\n"@,
        "["@ + workers_json(ws) + "]"@,
    )
}

fn push_worker_json(s: &mut String, w: &Worker)
    ensures
        final(s)@ == old(s)@ + worker_json(*w),
{
    push_str(s, "{\"id\":\"");
    push_str(s, w.id.as_str());
    push_str(s, "\",\"address\":\"");
    push_str(s, w.address.as_str());
    push_str(s, "\",\"status\":\"");
    match w.status {
        WorkerStatus::Active => push_str(s, "Active"),
        WorkerStatus::Inactive => push_str(s, "Inactive"),
    }
    push_str(s, "\",\"tasks_completed\":");
    push_decimal(s, w.task_completed);
    push_str(s, ",\"tasks_failed\":");
    push_decimal(s, w.tasks_failed);
    push_str(s, "}");
    assert(s@ =~= old(s)@ + worker_json(*w));
}

/// Reports every worker's id, address, status and counters.
pub fn handle_workers_status_request(state: &DispatcherState) -> (r: String)
    ensures
        r@ == status_report(state.workers@),
{
    let ghost ws = state.workers@;
    let mut body = String::new();
    push_str(&mut body, "[");
    let mut i: usize = 0;
    while i < state.workers.len()
        invariant
            ws == state.workers@,
            i <= ws.len(),
            body@ == "["@ + workers_json(ws.take(i as int)),
        decreases ws.len() - i,
    {
        assert(ws.take(i + 1).drop_last() =~= ws.take(i as int));
        if i > 0 {
            push_str(&mut body, ",");
        }
        push_worker_json(&mut body, &state.workers[i]);
        assert(body@ =~= "["@ + workers_json(ws.take(i + 1)));
        i = i + 1;
    }
    assert(ws.take(ws.len() as int) =~= ws);
    push_str(&mut body, "]");
    assert(body@ =~= "["@ + workers_json(ws) + "]"@);
    frame(
        "HTTP/1.1 200 OK\r\nContent-Type: application/json\r\nContent-Length: ",
        "\r\n\r\n",
        body.as_str(),
    )
}

/// The id given to the worker at position `i` of the configuration.
pub open spec fn worker_id(i: nat) -> Seq<char> {
    "worker"@ + decimal(i + 1)
}

/// The configuration names no worker: it is empty or only whitespace.
pub open spec fn names_no_worker(addresses: Seq<char>) -> bool {
    let entries = split_on(addresses, ',');
    entries.len() == 1 && trim(entries[0]).len() == 0
}

/// Builds the registry's workers from a comma-separated list of addresses:
/// the worker at position `i` gets id `worker<i+1>`, the trimmed address,
/// status `Inactive` until a probe succeeds, and zero counters. Nothing when
/// the list names no worker.
pub fn initialize_workers(addresses: &str) -> (r: Option<Vec<Worker>>)
    ensures
        names_no_worker(addresses@) <==> r is None,
        r matches Some(ws) ==> {
            let entries = split_on(addresses@, ',');
            &&& ws@.len() == entries.len()
            &&& ws@.len() > 0
            &&& forall|i: int| 0 <= i < ws@.len() ==> {
                &&& (#[trigger] ws@[i]).id@ == worker_id(i as nat)
                &&& ws@[i].address@ == trim(entries[i])
                &&& ws@[i].status == WorkerStatus::Inactive
                &&& ws@[i].task_completed == 0
                &&& ws@[i].tasks_failed == 0
            }
        },
{
    let all = chars_of(addresses);
    let entries = split_all(all.as_slice(), ',');
    let ghost ev = entries@.map_values(|v: Vec<char>| v@);
    proof {
        crate::request::lemma_split_on_len(all@, ',');
    }
    if entries.len() == 1 {
        let first = trimmed(entries[0].as_slice());
        if first.len() == 0 {
            return None;
        }
    }
    let mut ws: Vec<Worker> = Vec::new();
    let mut i: usize = 0;
    while i < entries.len()
        invariant
            ev == entries@.map_values(|v: Vec<char>| v@),
            ev == split_on(all@, ','),
            all@ == addresses@,
            i <= ev.len(),
            ws@.len() == i,
            forall|j: int| 0 <= j < i ==> {
                &&& (#[trigger] ws@[j]).id@ == worker_id(j as nat)
                &&& ws@[j].address@ == trim(ev[j])
                &&& ws@[j].status == WorkerStatus::Inactive
                &&& ws@[j].task_completed == 0
                &&& ws@[j].tasks_failed == 0
            },
        decreases ev.len() - i,
    {
        let mut id = String::new();
        push_str(&mut id, "worker");
        push_decimal(&mut id, i as u64 + 1);
        assert(id@ =~= worker_id(i as nat));
        let address = string_of(trimmed(entries[i].as_slice()).as_slice());
        ws.push(Worker { id, address, status: WorkerStatus::Inactive, task_completed: 0, tasks_failed: 0 });
        i = i + 1;
    }
    Some(ws)
}

/// Where a request goes.
#[derive(Debug)]
pub enum DispatchRoute {
    /// The status report.
    WorkersStatus,
    /// The distributed estimate, with the request's query parameters.
    MonteCarlo(QueryParams),
    /// Any other target, forwarded verbatim.
    Forward(String),
}

/// Routes a raw request by the route of its target: `/workers` and
/// `/montecarlo` are answered by the dispatcher, anything else is forwarded
/// with its path and query unchanged.
pub fn classify_request(request: &str) -> (r: DispatchRoute)
    ensures
        ({
            let target = request_line_parts(request@).1;
            let route = route_of(target);
            &&& route == "/workers"@ <==> r is WorkersStatus
            &&& route != "/workers"@ && route == "/montecarlo"@ <==> r is MonteCarlo
            &&& r matches DispatchRoute::MonteCarlo(p) ==> p@ == params_of(target)
            &&& r matches DispatchRoute::Forward(t) ==> t@ == target
        }),
{
    let (_method, target) = parse_request_line(request);
    let (route, params) = parse_query(target.as_str());
    if same_chars(&route, "/workers") {
        DispatchRoute::WorkersStatus
    } else if same_chars(&route, "/montecarlo") {
        DispatchRoute::MonteCarlo(params)
    } else {
        DispatchRoute::Forward(target)
    }
}

} // verus!
