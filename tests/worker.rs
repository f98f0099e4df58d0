use dispatcher::endpoints::{file_path, generate_random_numbers, list_to_text, parse_i32, sha256_hash, timestamp_iso};
use dispatcher::worker::{
    checked_fibonacci, fibonacci, http_resonse_404, http_response_200, http_response_500, parse_query,
    parse_request, rerverse_text, route_request, sampling_response, sleep_response, WorkerReply,
};

#[test]
fn fibonacci_values() {
    assert_eq!(fibonacci(0), 0);
    assert_eq!(fibonacci(1), 1);
    assert_eq!(fibonacci(10), 55);
    assert_eq!(fibonacci(93), 12200160415121876738);
    assert_eq!(checked_fibonacci(93), Some(12200160415121876738));
    assert_eq!(checked_fibonacci(94), None);
}

#[test]
fn reverse_text() {
    assert_eq!(rerverse_text("abc"), "cba");
    assert_eq!(rerverse_text(""), "");
    assert_eq!(rerverse_text("añb"), "bña");
}

#[test]
fn sha256_of_abc() {
    assert_eq!(sha256_hash("abc"), "ba7816bf8f01cfea414140de5dae2223b00361a396177a9cb410ff61f20015ad");
    assert_eq!(sha256_hash(""), "e3b0c44298fc1c149afbf4c8996fb92427ae41e4649b934ca495991b7852b855");
}

#[test]
fn random_numbers_in_range() {
    let v = generate_random_numbers(50, -3, 4);
    assert_eq!(v.len(), 50);
    assert!(v.iter().all(|x| (-3..=4).contains(x)));
    assert_eq!(list_to_text(&vec![1, -20, 300]), format!("{:?}", vec![1, -20, 300]));
    assert_eq!(list_to_text(&vec![]), "[]");
}

#[test]
fn signed_parsing() {
    assert_eq!(parse_i32("-2147483648"), Some(i32::MIN));
    assert_eq!(parse_i32("2147483647"), Some(i32::MAX));
    assert_eq!(parse_i32("2147483648"), None);
    assert_eq!(parse_i32("+5"), Some(5));
    assert_eq!(parse_i32("-+5"), None);
    assert_eq!(parse_i32("-"), None);
}

#[test]
fn file_names() {
    assert_eq!(file_path("notas_1").unwrap(), "archivos/notas_1.txt");
    assert!(file_path("../etc").is_err());
    assert!(file_path("a b").is_err());
}

#[test]
fn worker_responses() {
    let j = "{\"status\" : 404, \"error\" : \"x\"}";
    assert_eq!(
        http_resonse_404("x"),
        format!("HTTP/1.0 404 Not Found\r\nContent-Length: {}\r\nContent-Type: text/plain\r\n\r\n{}", j.len(), j)
    );
    let j = "{\"status\":500,\"message\":\"boom\"}";
    assert_eq!(
        http_response_500("boom"),
        format!("HTTP/1.0 500 Internal Server Error\r\nContent-Type: application/json\r\nContent-Length: {}\r\n\r\n{}", j.len(), j)
    );
    assert_eq!(sampling_response(42), "HTTP/1.1 200 OK\r\nContent-Type: application/json\r\nContent-Length: 11\r\n\r\n{\"hits\":42}");
    assert_eq!(sleep_response(3), http_response_200("Simulado retraso de 3 segundos"));
}

#[test]
fn worker_query_reading() {
    let (route, params) = parse_query("/random?count=3&min&max=9=1?x=1");
    assert_eq!(route, "/random");
    assert_eq!(params.get("count").unwrap(), "3");
    assert_eq!(params.get("min").unwrap(), "");
    assert_eq!(params.get("max").unwrap(), "9");
    assert!(params.get("x").is_none());
    assert_eq!(parse_request("GET /ping HTTP/1.1"), ("GET".to_string(), "/ping".to_string()));
}

fn ready(r: WorkerReply) -> String {
    match r {
        WorkerReply::Ready(s) => s,
        other => panic!("unexpected {:?}", other),
    }
}

#[test]
fn worker_routes() {
    assert_eq!(ready(route_request("/ping")), http_response_200("{\"status\":\"ok\"}"));
    assert_eq!(ready(route_request("/fibonacci?num=10")), http_response_200("55"));
    assert_eq!(ready(route_request("/reverse?text=hola")), http_response_200("aloh"));
    assert_eq!(
        ready(route_request("/hash?text=abc")),
        http_response_200("ba7816bf8f01cfea414140de5dae2223b00361a396177a9cb410ff61f20015ad")
    );
    assert_eq!(ready(route_request("/nothing")), http_resonse_404("Ruta no encontrada"));
    assert!(matches!(route_request("/internal/montecarlo?points=100"), WorkerReply::Sample(100)));
    assert!(matches!(route_request("/sleep?seconds=2"), WorkerReply::Sleep(2)));
    let r = ready(route_request("/timestamp"));
    assert!(r.starts_with("HTTP/1.0 200 OK"));
    assert!(r.ends_with("Z\"}"));
    match route_request("/createfile?name=a1&content=hi") {
        WorkerReply::CreateFile { path, content } => {
            assert_eq!(path, "archivos/a1.txt");
            assert_eq!(content, "hi");
        }
        other => panic!("unexpected {:?}", other),
    }
    match route_request("/deletefile?name=a1") {
        WorkerReply::DeleteFile { path } => assert_eq!(path, "archivos/a1.txt"),
        other => panic!("unexpected {:?}", other),
    }
    let r = ready(route_request("/random?count=2&min=5&max=1"));
    assert!(r.contains("El parametro 'min' debe ser menor que 'max'"));
    let r = ready(route_request("/random?count=3&min=1&max=2"));
    assert!(r.starts_with("HTTP/1.0 200 OK"));
    assert!(ready(route_request("/fibonacci?num=x")).contains("Parametro 'num' invalido"));
}

#[test]
fn timestamp_is_rfc3339_to_the_second() {
    let t = timestamp_iso();
    assert_eq!(t.len(), 20);
    assert!(t.ends_with('Z'));
    assert_eq!(&t[4..5], "-");
    assert_eq!(&t[10..11], "T");
    assert!(t.as_str() > "2020-01-01T00:00:00Z");
}
