//! The worker service's own computations: the endpoints that need no I/O,
//! its responses, and its request parsing.
use vstd::prelude::*;
use crate::request::{pairs_map, request_line_parts, split_all, split_on};
use crate::responses::{bad_request_json, frame, framed, ok_json, server_error_json};
use crate::endpoints::{
    file_path, generate_random_numbers, hex_of, i32_of, list_text, list_to_text, parse_i32,
    sha256_hash, sha256_of,
};
use crate::montecarlo::{parse_u64, u64_of};
use crate::request::{same_chars, QueryParams};
use crate::text::{chars_of, decimal, push_char, push_decimal, push_str, string_of};
use vstd::string::StringSliceAdditionalSpecFns;

verus! {

/// The Fibonacci numbers.
pub open spec fn fib(n: nat) -> nat
    decreases n,
{
    if n == 0 {
        0
    } else if n == 1 {
        1
    } else {
        fib((n - 1) as nat) + fib((n - 2) as nat)
    }
}

proof fn lemma_fib_monotone(i: nat, j: nat)
    requires
        i <= j,
    ensures
        fib(i) <= fib(j),
    decreases j - i,
{
    if i < j {
        lemma_fib_monotone(i, (j - 1) as nat);
        if j >= 2 {
            assert(fib(j) == fib((j - 1) as nat) + fib((j - 2) as nat));
        }
    }
}

/// The `n`-th Fibonacci number; `n` must be small enough for it to fit.
pub fn fibonacci(n: u64) -> (r: u64)
    requires
        fib(n as nat) <= u64::MAX,
    ensures
        r == fib(n as nat),
{
    if n == 0 {
        return 0;
    }
    let mut a: u64 = 0;
    let mut b: u64 = 1;
    let mut i: u64 = 1;
    while i < n
        invariant
            1 <= i <= n,
            fib(n as nat) <= u64::MAX,
            a == fib((i - 1) as nat),
            b == fib(i as nat),
        decreases n - i,
    {
        proof {
            lemma_fib_monotone((i + 1) as nat, n as nat);
            assert(fib((i + 1) as nat) == fib(i as nat) + fib((i - 1) as nat));
        }
        let c = a + b;
        a = b;
        b = c;
        i = i + 1;
    }
    b
}

/// The `n`-th Fibonacci number, or nothing when it does not fit in 64 bits.
pub fn checked_fibonacci(n: u64) -> (r: Option<u64>)
    ensures
        r is Some <==> fib(n as nat) <= u64::MAX,
        r matches Some(v) ==> v == fib(n as nat),
{
    if n == 0 {
        return Some(0);
    }
    let mut a: u64 = 0;
    let mut b: u64 = 1;
    let mut i: u64 = 1;
    while i < n
        invariant
            1 <= i <= n,
            a == fib((i - 1) as nat),
            b == fib(i as nat),
        decreases n - i,
    {
        assert(fib((i + 1) as nat) == fib(i as nat) + fib((i - 1) as nat));
        match a.checked_add(b) {
            Some(c) => {
                a = b;
                b = c;
            },
            None => {
                proof {
                    lemma_fib_monotone((i + 1) as nat, n as nat);
                }
                return None;
            },
        }
        i = i + 1;
    }
    Some(b)
}

/// `s` read backwards.
pub open spec fn reversed(s: Seq<char>) -> Seq<char> {
    Seq::new(s.len(), |i: int| s[s.len() - 1 - i])
}

/// The characters of `input` in reverse order.
pub fn rerverse_text(input: &str) -> (r: String)
    ensures
        r@ == reversed(input@),
{
    let v = chars_of(input);
    let mut r = String::new();
    let mut i: usize = v.len();
    while i > 0
        invariant
            i <= v@.len(),
            v@ == input@,
            r@ == reversed(v@).subrange(0, v@.len() - i),
        decreases i,
    {
        push_char(&mut r, v[i - 1]);
        i = i - 1;
        assert(r@ =~= reversed(v@).subrange(0, v@.len() - i));
    }
    assert(r@ =~= reversed(v@));
    r
}

/// A `200 OK` answer whose JSON body carries `body` as its message.
pub fn http_response_200(body: &str) -> (r: String)
    ensures
        r@ == framed(
            "HTTP/1.0 200 OK\r\nContent-Type: application/json\r\nContent-Length: "@,
            "\r\n\r\n"@,
            ok_json(body@),
        ),
{
    crate::responses::http_response_200(body)
}

/// `{"status" : 404, "error" : "<msg>"}`
pub open spec fn not_found_json(msg: Seq<char>) -> Seq<char> {
    "{\"status\" : 404, \"error\" : \""@ + msg + "\"}"@
}

/// A `404 Not Found` answer carrying `msg` as its error.
pub fn http_resonse_404(msg: &str) -> (r: String)
    ensures
        r@ == framed(
            "HTTP/1.0 404 Not Found\r\nContent-Length: "@,
            "\r\nContent-Type: text/plain\r\n\r\n"@,
            not_found_json(msg@),
        ),
{
    let json = crate::responses::enclose("{\"status\" : 404, \"error\" : \"", msg, "\"}");
    frame("HTTP/1.0 404 Not Found\r\nContent-Length: ", "\r\nContent-Type: text/plain\r\n\r\n", json.as_str())
}

/// A `400 Bad Request` answer carrying `msg` as its error.
pub fn http_resonse_400(msg: &str) -> (r: String)
    ensures
        r@ == framed(
            "HTTP/1.0 400 Bad Request\r\nContent-Length: "@,
            "\r\nContent-Type: text/plain\r\n\r\n"@,
            bad_request_json(msg@),
        ),
{
    crate::responses::http_resonse_400(msg)
}

/// A `500 Internal Server Error` answer carrying `msg`.
pub fn http_response_500(msg: &str) -> (r: String)
    ensures
        r@ == framed(
            "HTTP/1.0 500 Internal Server Error\r\nContent-Type: application/json\r\nContent-Length: "@,
            "\r\n\r\n"@,
            server_error_json(msg@),
        ),
{
    crate::responses::http_response_500_json(msg)
}

/// The method and target named on the first line of `request`.
pub fn parse_request(request: &str) -> (r: (String, String))
    ensures
        (r.0@, r.1@) == request_line_parts(request@),
{
    crate::request::parse_request_line(request)
}

/// The pairs of the worker's query string: every `&`-separated piece gives a
/// pair, its key before the first `=` and its value between that and the
/// next `=` (empty when missing).
pub open spec fn loose_pairs(pieces: Seq<Seq<char>>) -> Seq<(Seq<char>, Seq<char>)>
    decreases pieces.len(),
{
    if pieces.len() == 0 {
        Seq::empty()
    } else {
        let kv = split_on(pieces.last(), '=');
        let value = if kv.len() > 1 { kv[1] } else { Seq::empty() };
        loose_pairs(pieces.drop_last()).push((kv[0], value))
    }
}

/// The worker's reading of a target: the route is the text before the first
/// `?`, the query the text between the first and second `?`.
pub open spec fn worker_route(path: Seq<char>) -> Seq<char> {
    split_on(path, '?')[0]
}

pub open spec fn worker_params(path: Seq<char>) -> Map<Seq<char>, Seq<char>> {
    let parts = split_on(path, '?');
    if parts.len() > 1 {
        pairs_map(loose_pairs(split_on(parts[1], '&')))
    } else {
        Map::empty()
    }
}

/// Splits a target into route and parameters the way the worker reads it.
pub fn parse_query(path: &str) -> (r: (String, crate::request::QueryParams))
    ensures
        r.0@ == worker_route(path@),
        r.1@ == worker_params(path@),
{
    let all = chars_of(path);
    let parts = split_all(all.as_slice(), '?');
    let ghost partv = parts@.map_values(|v: Vec<char>| v@);
    proof {
        crate::request::lemma_split_on_len(all@, '?');
    }
    assert(partv[0] == parts@[0]@);
    let route = string_of(parts[0].as_slice());
    let mut pairs: Vec<(String, String)> = Vec::new();
    if parts.len() > 1 {
        assert(partv[1] == parts@[1]@);
        let pieces = split_all(parts[1].as_slice(), '&');
        let ghost pv = pieces@.map_values(|v: Vec<char>| v@);
        let mut i: usize = 0;
        while i < pieces.len()
            invariant
                i <= pieces@.len(),
                pv == pieces@.map_values(|v: Vec<char>| v@),
                pairs@.map_values(|p: (String, String)| crate::request::pair_view(p)) == loose_pairs(
                    pv.take(i as int),
                ),
            decreases pieces@.len() - i,
        {
            assert(pv.take(i + 1).drop_last() =~= pv.take(i as int));
            let kv = split_all(pieces[i].as_slice(), '=');
            let ghost kvv = kv@.map_values(|v: Vec<char>| v@);
            proof {
                crate::request::lemma_split_on_len(pv[i as int], '=');
            }
            assert(kvv[0] == kv@[0]@);
            let key = string_of(kv[0].as_slice());
            let value = if kv.len() > 1 {
                assert(kvv[1] == kv@[1]@);
                string_of(kv[1].as_slice())
            } else {
                String::new()
            };
            pairs.push((key, value));
            assert(pairs@.map_values(|p: (String, String)| crate::request::pair_view(p)) =~= loose_pairs(
                pv.take(i + 1),
            ));
            i = i + 1;
        }
        assert(pv.take(pv.len() as int) =~= pv);
    } else {
        assert(pairs@.map_values(|p: (String, String)| crate::request::pair_view(p)) =~= Seq::empty());
    }
    (route, crate::request::QueryParams { pairs })
}

/// What the worker does with a request: answer at once, or first do some
/// outside work and then answer.
#[derive(Debug)]
pub enum WorkerReply {
    /// The complete answer.
    Ready(String),
    /// Draw this many sample points; answer with `sampling_response`.
    Sample(u64),
    /// Wait this many seconds; answer with `sleep_response`.
    Sleep(u64),
    /// Create the file at this path with this content.
    CreateFile { path: String, content: String },
    /// Delete the file at this path.
    DeleteFile { path: String },
}

/// A `200` answer with message `m`.
pub open spec fn ok_response(m: Seq<char>) -> Seq<char> {
    framed(
        "HTTP/1.0 200 OK\r\nContent-Type: application/json\r\nContent-Length: "@,
        "\r\n\r\n"@,
        ok_json(m),
    )
}

/// A `400` answer with error `m`.
pub open spec fn bad_response(m: Seq<char>) -> Seq<char> {
    framed(
        "HTTP/1.0 400 Bad Request\r\nContent-Length: "@,
        "\r\nContent-Type: text/plain\r\n\r\n"@,
        bad_request_json(m),
    )
}

/// A `500` answer with message `m`.
pub open spec fn failed_response(m: Seq<char>) -> Seq<char> {
    framed(
        "HTTP/1.0 500 Internal Server Error\r\nContent-Type: application/json\r\nContent-Length: "@,
        "\r\n\r\n"@,
        server_error_json(m),
    )
}

/// The value of parameter `k` read as an unsigned number.
pub open spec fn number_param(params: Map<Seq<char>, Seq<char>>, k: Seq<char>) -> Option<u64> {
    if params.contains_key(k) { u64_of(params[k]) } else { None }
}

/// The value of parameter `k` read as a signed 32-bit number.
pub open spec fn int_param(params: Map<Seq<char>, Seq<char>>, k: Seq<char>) -> Option<i32> {
    if params.contains_key(k) { i32_of(params[k]) } else { None }
}

/// The answer to a sampling task: the number of hits as JSON.
pub open spec fn sampling_answer(hits: nat) -> Seq<char> {
    framed(
        "HTTP/1.1 200 OK\r\nContent-Type: application/json\r\nContent-Length: "@,
        "\r\n\r\n"@,
        "{\"hits\":"@ + decimal(hits) + "}"@,
    )
}

/// Answers a sampling task that found `hits` points inside the circle.
pub fn sampling_response(hits: u64) -> (r: String)
    ensures
        r@ == sampling_answer(hits as nat),
{
    let mut body = String::new();
    push_str(&mut body, "{\"hits\":");
    push_decimal(&mut body, hits);
    push_str(&mut body, "}");
    assert(body@ =~= "{\"hits\":"@ + decimal(hits as nat) + "}"@);
    frame("HTTP/1.1 200 OK\r\nContent-Type: application/json\r\nContent-Length: ", "\r\n\r\n", body.as_str())
}

/// Answers a wait of `n` seconds once it is over.
pub fn sleep_response(n: u64) -> (r: String)
    ensures
        r@ == ok_response("Simulado retraso de "@ + decimal(n as nat) + " segundos"@),
{
    let mut m = String::new();
    push_str(&mut m, "Simulado retraso de ");
    push_decimal(&mut m, n);
    push_str(&mut m, " segundos");
    assert(m@ =~= "Simulado retraso de "@ + decimal(n as nat) + " segundos"@);
    http_response_200(m.as_str())
}

/// The usage manual of the worker's endpoints.
pub open spec fn help_text() -> Seq<char> {
    HELP@
}

pub const HELP: &'static str = "\"endpoints\" : [
                {\"path\" : \"reverse\", 
                \"description\" : \"Invierte el texto recibido\", 
                \"params\" : [\"text: texto que se desea invertir\"], 
                \"example\" : \"/reverse?text=abc\"},
                {\"path\" : \"toupper\", \"description\" : \"Convierte el texto a mayúsculas\", \"params\" : [\"text: texto a convertir\"], \"example\" : \"/toupper?text=hola\"},
                {\"path\" : \"sha256\", \"description\" : \"Devuelve el hash SHA-256 del texto\", \"params\" : [\"text: texto a hashear\"], \"example\" : \"/sha256?text=hola\"},
                {\"path\" : \"fibonacci\", \"description\" : \"Calcula el n-ésimo número de Fibonacci (recursivo)\", \"params\" : [\"num: número a calcular\"], \"example\" : \"/fibonacci?num=10\"},
                {\"path\" : \"random\", \"description\" : \"Genera una lista de números aleatorios\", \"params\" : [\"count: cantidad\", \"min: mínimo\", \"max: máximo\"], \"example\" : \"/random?count=5&min=10&max=100\"},
                {\"path\" : \"timestamp\", \"description\" : \"Devuelve la hora actual en formato ISO\", \"params\" : [], \"example\" : \"/timestamp\"},
                {\"path\" : \"sleep\", \"description\" : \"Simula una espera bloqueante de N segundos\", \"params\" : [\"seconds: segundos a esperar\"], \"example\" : \"/sleep?seconds=3\"},
                {\"path\" : \"createfile\", \"description\" : \"Crea un archivo con el contenido indicado\", \"params\" : [\"name: nombre del archivo\", \"content: contenido\"], \"example\" : \"/createfile?name=miarchivo&content=hola\"},
                {\"path\" : \"deletefile\", \"description\" : \"Elimina un archivo existente\", \"params\" : [\"name: nombre del archivo\"], \"example\" : \"/deletefile?name=miarchivo\"},
                {\"path\" : \"simulate\", \"description\" : \"Simula un endpoint como reverse, toupper, etc., con retardo\", \"params\" : [\"seconds: retardo\", \"task: nombre del endpoint interno\", \"otros: según la tarea\"], \"example\" : \"/simulate?seconds=2&task=reverse&text=hola\"},
                {\"path\" : \"loadtest\", \"description\" : \"Encola múltiples tareas para medir carga del sistema\", \"params\" : [\"task: tipo de tarea\", \"count: cuántas tareas\", \"text: valor base si aplica\"], \"example\" : \"/loadtest?task=reverse&count=5&text=hola\"},
                {\"path\" : \"help\", \"description\" : \"Devuelve este manual de uso de endpoints\", \"params\" : [], \"example\" : \"/help\"},
                ]";

/// Decides how the worker answers the request target `path`: by its route,
/// each endpoint checking its parameters (a missing or unreadable one gives a
/// `400`), an unknown route a `404`.
pub fn route_request(path: &str) -> (r: WorkerReply)
    ensures
        worker_route(path@) == "/ping"@ ==> r == WorkerReply::Ready(r->Ready_0) && r->Ready_0@ == ok_response(
            "{\"status\":\"ok\"}"@,
        ),
        worker_route(path@) == "/internal/montecarlo"@ ==> match number_param(worker_params(path@), "points"@) {
            Some(p) => r == WorkerReply::Sample(p),
            None => r is Ready && r->Ready_0@ == bad_response("Parametro 'points' invalido o faltante"@),
        },
        worker_route(path@) == "/fibonacci"@ ==> r is Ready && match number_param(worker_params(path@), "num"@) {
            Some(n) => if fib(n as nat) <= u64::MAX {
                r->Ready_0@ == ok_response(decimal(fib(n as nat)))
            } else {
                r->Ready_0@ == bad_response("Parametro 'num' invalido"@)
            },
            None => r->Ready_0@ == bad_response("Parametro 'num' invalido"@),
        },
        worker_route(path@) == "/reverse"@ ==> r is Ready && if worker_params(path@).contains_key("text"@) {
            r->Ready_0@ == ok_response(reversed(worker_params(path@)["text"@]))
        } else {
            r->Ready_0@ == bad_response("Falta el parametro 'text'"@)
        },
        worker_route(path@) == "/hash"@ ==> r is Ready && if worker_params(path@).contains_key("text"@) {
            exists|t: &str| t@ == worker_params(path@)["text"@] && r->Ready_0@ == ok_response(hex_of(sha256_of(t.spec_bytes())))
        } else {
            r->Ready_0@ == bad_response("Falta el parametro 'text'"@)
        },
        worker_route(path@) == "/timestamp"@ ==> r is Ready && exists|t: Seq<char>| {
            &&& (t.len() == 0 || exists|secs: i64| t == crate::endpoints::rfc3339_of(secs as int))
            &&& r->Ready_0@ == ok_response(t)
        },
        worker_route(path@) == "/sleep"@ ==> match number_param(worker_params(path@), "seconds"@) {
            Some(n) => r == WorkerReply::Sleep(n),
            None => r is Ready && r->Ready_0@ == bad_response("Parámetro 'seconds' inválido o faltante"@),
        },
        worker_route(path@) == "/random"@ ==> r is Ready && {
            let c = number_param(worker_params(path@), "count"@);
            let lo = int_param(worker_params(path@), "min"@);
            let hi = int_param(worker_params(path@), "max"@);
            if c is Some && c->Some_0 <= usize::MAX && lo is Some && hi is Some {
                if lo->Some_0 >= hi->Some_0 {
                    r->Ready_0@ == bad_response("El parametro 'min' debe ser menor que 'max'"@)
                } else {
                    exists|v: Seq<i32>| {
                        &&& v.len() == c->Some_0
                        &&& forall|i: int| 0 <= i < v.len() ==> lo->Some_0 <= #[trigger] v[i] <= hi->Some_0
                        &&& r->Ready_0@ == ok_response(list_text(v))
                    }
                }
            } else {
                r->Ready_0@ == bad_response("Faltan parametros (count, min, max) o son invalidos"@)
            }
        },
        worker_route(path@) == "/createfile"@ ==> if worker_params(path@).contains_key("name"@) && worker_params(path@).contains_key("content"@) {
            if crate::endpoints::valid_file_name(worker_params(path@)["name"@]) {
                r matches WorkerReply::CreateFile { path: fp, content: fc } && fp@
                    == crate::endpoints::file_path_of(worker_params(path@)["name"@]) && fc@ == worker_params(path@)["content"@]
            } else {
                r is Ready && r->Ready_0@ == failed_response(crate::endpoints::invalid_name_message())
            }
        } else {
            r is Ready && r->Ready_0@ == bad_response("Faltan parametros 'name' o 'content'"@)
        },
        worker_route(path@) == "/deletefile"@ ==> if worker_params(path@).contains_key("name"@) {
            if crate::endpoints::valid_file_name(worker_params(path@)["name"@]) {
                r matches WorkerReply::DeleteFile { path: fp } && fp@ == crate::endpoints::file_path_of(
                    worker_params(path@)["name"@],
                )
            } else {
                r is Ready && r->Ready_0@ == failed_response(crate::endpoints::invalid_name_message())
            }
        } else {
            r is Ready && r->Ready_0@ == bad_response("Falta el parametro 'name'"@)
        },
        worker_route(path@) == "/help"@ ==> r is Ready && r->Ready_0@ == ok_response(help_text()),
{
    proof {
        reveal_strlit("/ping");
        reveal_strlit("/internal/montecarlo");
        reveal_strlit("/fibonacci");
        reveal_strlit("/reverse");
        reveal_strlit("/hash");
        reveal_strlit("/timestamp");
        reveal_strlit("/sleep");
        reveal_strlit("/random");
        reveal_strlit("/createfile");
        reveal_strlit("/deletefile");
        reveal_strlit("/help");
        assert("/ping"@.len() == 5);
        assert("/internal/montecarlo"@.len() == 20);
        assert("/fibonacci"@.len() == 10);
        assert("/reverse"@.len() == 8);
        assert("/hash"@.len() == 5);
        assert("/timestamp"@.len() == 10);
        assert("/sleep"@.len() == 6);
        assert("/random"@.len() == 7);
        assert("/createfile"@.len() == 11);
        assert("/deletefile"@.len() == 11);
        assert("/help"@.len() == 5);
        assert("/ping"@[1] == 'p');
        assert("/hash"@[1] == 'h');
        assert("/help"@[1] == 'h');
        assert("/help"@[2] == 'e');
        assert("/hash"@[2] == 'a');
        assert("/fibonacci"@[1] == 'f');
        assert("/timestamp"@[1] == 't');
        assert("/createfile"@[1] == 'c');
        assert("/deletefile"@[1] == 'd');
    }
    let (route, params) = parse_query(path);
    if same_chars(&route, "/ping") {
        return WorkerReply::Ready(http_response_200("{\"status\":\"ok\"}"));
    }
    if same_chars(&route, "/internal/montecarlo") {
        match number_of(&params, "points") {
            Some(p) => return WorkerReply::Sample(p),
            None => return WorkerReply::Ready(http_resonse_400("Parametro 'points' invalido o faltante")),
        }
    }
    if same_chars(&route, "/fibonacci") {
        match number_of(&params, "num") {
            Some(n) => match checked_fibonacci(n) {
                Some(f) => {
                    let mut m = String::new();
                    push_decimal(&mut m, f);
                    assert(m@ =~= decimal(f as nat));
                    return WorkerReply::Ready(http_response_200(m.as_str()));
                },
                None => return WorkerReply::Ready(http_resonse_400("Parametro 'num' invalido")),
            },
            None => return WorkerReply::Ready(http_resonse_400("Parametro 'num' invalido")),
        }
    }
    if same_chars(&route, "/reverse") {
        match params.get("text") {
            Some(t) => return WorkerReply::Ready(http_response_200(rerverse_text(t.as_str()).as_str())),
            None => return WorkerReply::Ready(http_resonse_400("Falta el parametro 'text'")),
        }
    }
    if same_chars(&route, "/hash") {
        match params.get("text") {
            Some(t) => {
                let h = sha256_hash(t.as_str());
                return WorkerReply::Ready(http_response_200(h.as_str()));
            },
            None => return WorkerReply::Ready(http_resonse_400("Falta el parametro 'text'")),
        }
    }
    if same_chars(&route, "/timestamp") {
        let t = crate::endpoints::timestamp_iso();
        return WorkerReply::Ready(http_response_200(t.as_str()));
    }
    if same_chars(&route, "/sleep") {
        match number_of(&params, "seconds") {
            Some(n) => return WorkerReply::Sleep(n),
            None => return WorkerReply::Ready(http_resonse_400("Parámetro 'seconds' inválido o faltante")),
        }
    }
    if same_chars(&route, "/random") {
        let count = number_of(&params, "count");
        let lo = signed_of(&params, "min");
        let hi = signed_of(&params, "max");
        match (count, lo, hi) {
            (Some(c), Some(mi), Some(ma)) => {
                if c <= usize::MAX as u64 {
                    if mi >= ma {
                        return WorkerReply::Ready(http_resonse_400("El parametro 'min' debe ser menor que 'max'"));
                    }
                    let numbers = generate_random_numbers(c as usize, mi, ma);
                    let text = list_to_text(&numbers);
                    return WorkerReply::Ready(http_response_200(text.as_str()));
                }
            },
            _ => {},
        }
        return WorkerReply::Ready(http_resonse_400("Faltan parametros (count, min, max) o son invalidos"));
    }
    if same_chars(&route, "/createfile") {
        match (params.get("name"), params.get("content")) {
            (Some(name), Some(content)) => match file_path(name.as_str()) {
                Ok(path) => return WorkerReply::CreateFile { path, content: content.clone() },
                Err(e) => return WorkerReply::Ready(http_response_500(e.as_str())),
            },
            _ => return WorkerReply::Ready(http_resonse_400("Faltan parametros 'name' o 'content'")),
        }
    }
    if same_chars(&route, "/deletefile") {
        match params.get("name") {
            Some(name) => match file_path(name.as_str()) {
                Ok(path) => return WorkerReply::DeleteFile { path },
                Err(e) => return WorkerReply::Ready(http_response_500(e.as_str())),
            },
            None => return WorkerReply::Ready(http_resonse_400("Falta el parametro 'name'")),
        }
    }
    if same_chars(&route, "/help") {
        return WorkerReply::Ready(http_response_200(HELP));
    }
    WorkerReply::Ready(http_resonse_404("Ruta no encontrada"))
}

fn number_of(params: &QueryParams, k: &str) -> (r: Option<u64>)
    ensures
        r == number_param(params@, k@),
{
    match params.get(k) {
        Some(v) => parse_u64(v.as_str()),
        None => None,
    }
}

fn signed_of(params: &QueryParams, k: &str) -> (r: Option<i32>)
    ensures
        r == int_param(params@, k@),
{
    match params.get(k) {
        Some(v) => parse_i32(v.as_str()),
        None => None,
    }
}

} // verus!
