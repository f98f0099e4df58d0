//! The forwarding proxy's decisions: which worker to try next, and what an
//! attempt's outcome does to the registry and to the client's answer. The
//! caller performs each send and reports back.
use vstd::prelude::*;
use crate::registry::{
    cursor_after, select_spec, select_next_worker, with_failure, with_success, DispatcherState,
};
use crate::responses::{
    all_attempts_failed, forwarded_head, format_forwarded_response, framed, no_active_workers,
    no_workers_configured, response_all_attempts_failed, response_no_active_workers,
    response_no_workers_configured,
};
use crate::text::push_str;

verus! {

/// What the proxy does next.
#[derive(Debug)]
pub enum ForwardAction {
    /// Send the request to worker `index`, at `url`.
    Send { index: usize, url: String },
    /// Answer the client with this response; no more attempts.
    Respond(String),
}

/// How one upstream attempt ended.
#[derive(Debug)]
pub enum AttemptOutcome {
    /// The worker answered with this status code, reason phrase and body.
    Replied { code: u16, reason: String, body: String },
    /// The request failed: connection error or timeout.
    Failed,
}

/// One client request being forwarded.
#[derive(Debug)]
pub struct Forwarding {
    pub path_and_query: String,
    pub attempts: usize,
    pub max_retries: usize,
}

impl Forwarding {
    /// A forwarding of `path_and_query` whose budget is the number of workers,
    /// read once here.
    pub fn new(state: &DispatcherState, path_and_query: &str) -> (r: Forwarding)
        ensures
            r.path_and_query@ == path_and_query@,
            r.attempts == 0,
            r.max_retries == state.workers@.len(),
    {
        Forwarding {
            path_and_query: path_and_query.to_string(),
            attempts: 0,
            max_retries: state.workers.len(),
        }
    }

    /// Decides the next step. With no workers configured, or with the budget
    /// used up, it answers at once. Otherwise it selects a worker round-robin:
    /// none active means an immediate answer, else the request goes to the
    /// selected worker and one more attempt is counted.
    pub fn next_attempt(&mut self, state: &mut DispatcherState) -> (r: ForwardAction)
        ensures
            final(self).path_and_query == old(self).path_and_query,
            final(self).max_retries == old(self).max_retries,
            final(state).workers@ == old(state).workers@,
            old(self).max_retries == 0 ==> r == ForwardAction::Respond(r->Respond_0)
                && r->Respond_0@ == no_workers_configured()
                && *final(state) == *old(state) && final(self).attempts == old(self).attempts,
            old(self).max_retries > 0 && old(self).attempts >= old(self).max_retries ==> r
                is Respond && r->Respond_0@ == all_attempts_failed() && *final(state) == *old(
                state,
            ) && final(self).attempts == old(self).attempts,
            old(self).max_retries > 0 && old(self).attempts < old(self).max_retries ==> {
                let sel = select_spec(old(state).workers@, old(state).next_worker_index as int);
                &&& final(state).next_worker_index == cursor_after(
                    old(state).workers@,
                    old(state).next_worker_index as int,
                )
                &&& sel is None ==> r is Respond && r->Respond_0@ == no_active_workers()
                    && final(self).attempts == old(self).attempts
                &&& sel is Some ==> r is Send && sel == Some(r->index as int)
                    && r->url@ == old(state).workers@[r->index as int].address@ + old(
                    self,
                ).path_and_query@ && final(self).attempts == old(self).attempts + 1
            },
            old(state).workers@.len() == 0 ==> !(r is Send),
            r is Send ==> r->index < old(state).workers@.len() && final(self).attempts
                <= final(self).max_retries,
    {
        if self.max_retries == 0 {
            return ForwardAction::Respond(response_no_workers_configured());
        }
        if self.attempts >= self.max_retries {
            return ForwardAction::Respond(response_all_attempts_failed());
        }
        match select_next_worker(state) {
            None => ForwardAction::Respond(response_no_active_workers()),
            Some(index) => {
                proof {
                    crate::registry::lemma_selection_in_bounds(
                        old(state).workers@,
                        old(state).next_worker_index as int,
                    );
                }
                let mut url = state.workers[index].address.clone();
                push_str(&mut url, self.path_and_query.as_str());
                self.attempts = self.attempts + 1;
                ForwardAction::Send { index, url }
            },
        }
    }

    /// Takes the outcome of the attempt on worker `index`. A reply counts a
    /// completed task for that worker and is relayed to the client verbatim,
    /// ending the forwarding. A failure demotes that worker and counts a failed
    /// task for it, and leaves the next step to `next_attempt`.
    pub fn record_outcome(
        &mut self,
        state: &mut DispatcherState,
        index: usize,
        outcome: AttemptOutcome,
    ) -> (r: Option<String>)
        requires
            index < old(state).workers@.len(),
        ensures
            *final(self) == *old(self),
            final(state).next_worker_index == old(state).next_worker_index,
            match outcome {
                AttemptOutcome::Replied { code, reason, body } => {
                    &&& final(state).workers@ == old(state).workers@.update(
                        index as int,
                        with_success(old(state).workers@[index as int]),
                    )
                    &&& r is Some
                    &&& r->Some_0@ == framed(forwarded_head(code as nat, reason@), "\r\n\r\n"@, body@)
                },
                AttemptOutcome::Failed => {
                    &&& final(state).workers@ == old(state).workers@.update(
                        index as int,
                        with_failure(old(state).workers@[index as int]),
                    )
                    &&& r is None
                },
            },
    {
        match outcome {
            AttemptOutcome::Replied { code, reason, body } => {
                state.record_success(index);
                Some(format_forwarded_response(code, reason.as_str(), body.as_str()))
            },
            AttemptOutcome::Failed => {
                state.record_failure(index);
                None
            },
        }
    }
}

} // verus!
