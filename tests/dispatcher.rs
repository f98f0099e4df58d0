use dispatcher::dispatch::{classify_request, handle_workers_status_request, initialize_workers, DispatchRoute};
use dispatcher::forwarding::{AttemptOutcome, ForwardAction, Forwarding};
use dispatcher::montecarlo::{finish_montecarlo, montecarlo_response, parse_u64, start_montecarlo};
use dispatcher::registry::{select_next_worker, DispatcherState, Worker, WorkerStatus};
use dispatcher::request::{parse_query, parse_request_line};
use dispatcher::responses::{format_forwarded_response, http_resonse_400, http_response_200, http_response_500_json};

fn worker(n: usize, status: WorkerStatus, done: u64, failed: u64) -> Worker {
    Worker {
        id: format!("worker{}", n),
        address: format!("http://w{}:7878", n),
        status,
        task_completed: done,
        tasks_failed: failed,
    }
}

fn registry(statuses: &[WorkerStatus]) -> DispatcherState {
    let ws = statuses.iter().enumerate().map(|(i, s)| worker(i + 1, *s, 0, 0)).collect();
    DispatcherState::new(ws)
}

#[test]
fn selection_stays_in_bounds_for_any_cursor() {
    for cursor in [0usize, 1, 2, 3, 7, 100, usize::MAX] {
        let mut st = registry(&[WorkerStatus::Inactive, WorkerStatus::Inactive, WorkerStatus::Active]);
        st.next_worker_index = cursor;
        assert_eq!(select_next_worker(&mut st), Some(2));
        assert_eq!(st.next_worker_index, 0);
    }
}

#[test]
fn selection_finds_none_when_all_inactive() {
    let mut st = registry(&[WorkerStatus::Inactive, WorkerStatus::Inactive]);
    st.next_worker_index = 1;
    assert_eq!(select_next_worker(&mut st), None);
    assert_eq!(st.next_worker_index, 1);
    let mut empty = DispatcherState::new(vec![]);
    assert_eq!(select_next_worker(&mut empty), None);
}

#[test]
fn round_robin_visits_every_active_worker_before_repeating() {
    let mut st = registry(&[
        WorkerStatus::Active,
        WorkerStatus::Inactive,
        WorkerStatus::Active,
        WorkerStatus::Active,
    ]);
    st.next_worker_index = 2;
    let picks: Vec<Option<usize>> = (0..6).map(|_| select_next_worker(&mut st)).collect();
    assert_eq!(picks, vec![Some(2), Some(3), Some(0), Some(2), Some(3), Some(0)]);
}

#[test]
fn forwarding_tries_each_worker_once_then_gives_up() {
    let mut st = registry(&[WorkerStatus::Active, WorkerStatus::Active, WorkerStatus::Active]);
    let mut fwd = Forwarding::new(&st, "/reverse?text=abc");
    let mut sends = 0;
    loop {
        match fwd.next_attempt(&mut st) {
            ForwardAction::Send { index, url } => {
                sends += 1;
                assert!(url.ends_with("/reverse?text=abc"));
                assert_eq!(fwd.record_outcome(&mut st, index, AttemptOutcome::Failed), None);
            }
            ForwardAction::Respond(r) => {
                assert_eq!(
                    r,
                    "HTTP/1.1 502 Bad Gateway\r\n\r\nCould not complete the task after all workers failed"
                );
                break;
            }
        }
    }
    assert_eq!(sends, 3);
    assert!(fwd.attempts <= fwd.max_retries);
    for w in &st.workers {
        assert_eq!(w.status, WorkerStatus::Inactive);
        assert_eq!(w.tasks_failed, 1);
    }
}

#[test]
fn forwarding_reports_bad_gateway_when_budget_is_spent() {
    let mut st = registry(&[WorkerStatus::Active, WorkerStatus::Active]);
    let mut fwd = Forwarding::new(&st, "/hash?text=a");
    fwd.attempts = 2;
    match fwd.next_attempt(&mut st) {
        ForwardAction::Respond(r) => assert_eq!(
            r,
            "HTTP/1.1 502 Bad Gateway\r\n\r\nCould not complete the task after all workers failed"
        ),
        other => panic!("unexpected {:?}", other),
    }
}

#[test]
fn forwarding_stops_at_first_success() {
    let mut st = registry(&[WorkerStatus::Active, WorkerStatus::Active]);
    let mut fwd = Forwarding::new(&st, "/fibonacci?num=10");
    let (index, url) = match fwd.next_attempt(&mut st) {
        ForwardAction::Send { index, url } => (index, url),
        other => panic!("unexpected {:?}", other),
    };
    assert_eq!(index, 0);
    assert_eq!(url, "http://w1:7878/fibonacci?num=10");
    let reply = AttemptOutcome::Replied { code: 200, reason: "OK".to_string(), body: "{\"x\":1}".to_string() };
    let r = fwd.record_outcome(&mut st, index, reply).unwrap();
    assert_eq!(r, "HTTP/1.1 200 OK\r\nContent-Type: application/json\r\nContent-Length: 7\r\n\r\n{\"x\":1}");
    assert_eq!(st.workers[0].task_completed, 1);
    assert_eq!(st.workers[1].task_completed, 0);
    assert_eq!(fwd.attempts, 1);
}

#[test]
fn failed_forward_touches_only_the_attempted_worker() {
    let mut st = registry(&[WorkerStatus::Active, WorkerStatus::Active, WorkerStatus::Active]);
    st.workers[2].task_completed = 4;
    let mut fwd = Forwarding::new(&st, "/x");
    st.next_worker_index = 1;
    let index = match fwd.next_attempt(&mut st) {
        ForwardAction::Send { index, .. } => index,
        other => panic!("unexpected {:?}", other),
    };
    assert_eq!(index, 1);
    fwd.record_outcome(&mut st, index, AttemptOutcome::Failed);
    assert_eq!(st.workers[1].status, WorkerStatus::Inactive);
    assert_eq!(st.workers[1].tasks_failed, 1);
    assert_eq!(st.workers[0].status, WorkerStatus::Active);
    assert_eq!(st.workers[0].tasks_failed, 0);
    assert_eq!(st.workers[2].status, WorkerStatus::Active);
    assert_eq!(st.workers[2].tasks_failed, 0);
    assert_eq!(st.workers[2].task_completed, 4);
}

#[test]
fn single_inactive_worker_gets_no_attempt() {
    let mut st = registry(&[WorkerStatus::Inactive]);
    let mut fwd = Forwarding::new(&st, "/reverse?text=hola");
    match fwd.next_attempt(&mut st) {
        ForwardAction::Respond(r) => {
            assert_eq!(r, "HTTP/1.1 503 Service Unavailable\r\n\r\nNo active workers available")
        }
        other => panic!("unexpected {:?}", other),
    }
    assert_eq!(fwd.attempts, 0);
    assert_eq!(st.workers[0].tasks_failed, 0);
}

#[test]
fn forwarding_with_no_workers_configured() {
    let mut st = DispatcherState::new(vec![]);
    let mut fwd = Forwarding::new(&st, "/x");
    match fwd.next_attempt(&mut st) {
        ForwardAction::Respond(r) => assert_eq!(r, "HTTP/1.1 503 Service Unavailable\r\n\r\nNo workers configured"),
        other => panic!("unexpected {:?}", other),
    }
}

fn params_of(target: &str) -> dispatcher::request::QueryParams {
    parse_query(target).1
}

#[test]
fn montecarlo_three_workers_three_hundred_points() {
    let mut st = registry(&[WorkerStatus::Active, WorkerStatus::Active, WorkerStatus::Active]);
    let plan = start_montecarlo(&params_of("/montecarlo?points=300"), &st).unwrap();
    assert_eq!(plan.per_worker, 100);
    let urls: Vec<&str> = plan.targets.iter().map(|t| t.1.as_str()).collect();
    assert_eq!(
        urls,
        vec![
            "http://w1:7878/internal/montecarlo?points=100",
            "http://w2:7878/internal/montecarlo?points=100",
            "http://w3:7878/internal/montecarlo?points=100",
        ]
    );
    let s = finish_montecarlo(&mut st, &plan, &vec![Some(78), Some(81), Some(79)]).unwrap();
    assert_eq!(s.total_hits, 238);
    assert_eq!(s.total_points, 300);
    let pi = 4.0 * (s.total_hits as f64) / (s.total_points as f64);
    assert!((pi - 3.1733).abs() < 1e-4);
    for w in &st.workers {
        assert_eq!(w.task_completed, 1);
    }
    let r = montecarlo_response(Some(s), "3.1733333333333333");
    let body = "{\"status\":200,\"message\":\"{\"pi_estimate\":3.1733333333333333, \"total_points_simulated\":300, \"total_hits\":238}\"}";
    assert_eq!(r, format!("HTTP/1.0 200 OK\r\nContent-Type: application/json\r\nContent-Length: {}\r\n\r\n{}", body.len(), body));
}

#[test]
fn montecarlo_sums_any_number_of_reports() {
    let mut st = registry(&[WorkerStatus::Active, WorkerStatus::Inactive, WorkerStatus::Active]);
    let plan = start_montecarlo(&params_of("/montecarlo?points=1001"), &st).unwrap();
    assert_eq!(plan.per_worker, 500);
    assert_eq!(plan.targets.iter().map(|t| t.0).collect::<Vec<_>>(), vec![0, 2]);
    let s = finish_montecarlo(&mut st, &plan, &vec![Some(400), Some(390)]).unwrap();
    assert_eq!((s.total_hits, s.total_points), (790, 1000));
}

#[test]
fn montecarlo_leaves_out_failed_and_malformed_reports() {
    let mut st = registry(&[WorkerStatus::Active, WorkerStatus::Active, WorkerStatus::Active]);
    let plan = start_montecarlo(&params_of("/montecarlo?points=30"), &st).unwrap();
    let s = finish_montecarlo(&mut st, &plan, &vec![None, Some(8), Some(11)]).unwrap();
    assert_eq!((s.total_hits, s.total_points), (8, 10));
    assert_eq!(st.workers[0].task_completed, 0);
    assert_eq!(st.workers[1].task_completed, 1);
    assert_eq!(st.workers[2].task_completed, 0);
}

#[test]
fn montecarlo_with_no_report_is_a_server_error() {
    let mut st = registry(&[WorkerStatus::Active]);
    let plan = start_montecarlo(&params_of("/montecarlo?points=5"), &st).unwrap();
    assert_eq!(finish_montecarlo(&mut st, &plan, &vec![None]), None);
    assert_eq!(
        montecarlo_response(None, "0"),
        http_response_500_json("Ningun worker pudo completar la tarea de Montecarlo")
    );
}

#[test]
fn montecarlo_rejects_zero_or_missing_points() {
    let st = registry(&[WorkerStatus::Active]);
    let expected = http_resonse_400("Parametro 'points' debe ser un numero entero positivo");
    for target in ["/montecarlo?points=0", "/montecarlo", "/montecarlo?points=abc", "/montecarlo?points=-3"] {
        match start_montecarlo(&params_of(target), &st) {
            Err(r) => assert_eq!(r, expected),
            Ok(_) => panic!("accepted {}", target),
        }
    }
}

#[test]
fn montecarlo_without_active_workers() {
    let st = registry(&[WorkerStatus::Inactive]);
    match start_montecarlo(&params_of("/montecarlo?points=10"), &st) {
        Err(r) => assert_eq!(r, http_response_500_json("No hay workers disponibles")),
        Ok(_) => panic!("planned without workers"),
    }
}

#[test]
fn status_report_lists_every_worker() {
    let st = DispatcherState::new(vec![
        worker(1, WorkerStatus::Active, 5, 0),
        worker(2, WorkerStatus::Inactive, 0, 2),
    ]);
    let body = "[{\"id\":\"worker1\",\"address\":\"http://w1:7878\",\"status\":\"Active\",\"tasks_completed\":5,\"tasks_failed\":0},{\"id\":\"worker2\",\"address\":\"http://w2:7878\",\"status\":\"Inactive\",\"tasks_completed\":0,\"tasks_failed\":2}]";
    let expected = format!(
        "HTTP/1.1 200 OK\r\nContent-Type: application/json\r\nContent-Length: {}\r\n\r\n{}",
        body.len(),
        body
    );
    assert_eq!(handle_workers_status_request(&st), expected);
}

#[test]
fn workers_from_configuration() {
    let ws = initialize_workers(" http://a:1 ,http://b:2").unwrap();
    assert_eq!(ws.len(), 2);
    assert_eq!(ws[0].id, "worker1");
    assert_eq!(ws[0].address, "http://a:1");
    assert_eq!(ws[1].id, "worker2");
    assert_eq!(ws[1].address, "http://b:2");
    assert_eq!(ws[1].status, WorkerStatus::Inactive);
    assert_eq!(ws[1].task_completed, 0);
    assert!(initialize_workers("").is_none());
    assert!(initialize_workers("   ").is_none());
}

#[test]
fn request_line_and_routes() {
    assert_eq!(
        parse_request_line("GET /montecarlo?points=10 HTTP/1.1\r\nHost: x\r\n\r\n"),
        ("GET".to_string(), "/montecarlo?points=10".to_string())
    );
    assert_eq!(parse_request_line("GET\r\n"), (String::new(), String::new()));
    assert_eq!(parse_request_line(""), (String::new(), String::new()));
    assert!(matches!(classify_request("GET /workers HTTP/1.1\r\n"), DispatchRoute::WorkersStatus));
    match classify_request("GET /montecarlo?points=7 HTTP/1.1\r\n") {
        DispatchRoute::MonteCarlo(p) => assert_eq!(p.get("points").unwrap(), "7"),
        other => panic!("unexpected {:?}", other),
    }
    match classify_request("GET /reverse?text=abc HTTP/1.1\r\n") {
        DispatchRoute::Forward(t) => assert_eq!(t, "/reverse?text=abc"),
        other => panic!("unexpected {:?}", other),
    }
}

#[test]
fn query_keeps_last_value_of_a_key() {
    let (route, params) = parse_query("/x?a=1&b=2&a=3&c&d=4=5");
    assert_eq!(route, "/x");
    assert_eq!(params.get("a").unwrap(), "3");
    assert_eq!(params.get("b").unwrap(), "2");
    assert!(params.get("c").is_none());
    assert_eq!(params.get("d").unwrap(), "4=5");
}

#[test]
fn number_parsing() {
    assert_eq!(parse_u64("300"), Some(300));
    assert_eq!(parse_u64("+12"), Some(12));
    assert_eq!(parse_u64("18446744073709551615"), Some(u64::MAX));
    assert_eq!(parse_u64("18446744073709551616"), None);
    assert_eq!(parse_u64(""), None);
    assert_eq!(parse_u64("+"), None);
    assert_eq!(parse_u64("1a"), None);
}

#[test]
fn response_framing_counts_bytes() {
    let body = "{\"status\":200,\"message\":\"ñ\"}";
    assert_eq!(
        http_response_200("ñ"),
        format!("HTTP/1.0 200 OK\r\nContent-Type: application/json\r\nContent-Length: {}\r\n\r\n{}", body.len(), body)
    );
    assert_eq!(
        format_forwarded_response(404, "Not Found", "no"),
        "HTTP/1.1 404 Not Found\r\nContent-Type: application/json\r\nContent-Length: 2\r\n\r\nno"
    );
}
