//! Reading a client request: the request line's method and target, and the
//! split of a target into route and query parameters.
use vstd::prelude::*;
use crate::text::{chars_of, is_space, is_space_exec, string_of};

verus! {

/// The characters of `s` before the first `c` (all of `s` when there is none).
pub open spec fn before(s: Seq<char>, c: char) -> Seq<char>
    decreases s.len(),
{
    if s.len() == 0 {
        s
    } else if s[0] == c {
        Seq::empty()
    } else {
        seq![s[0]] + before(s.drop_first(), c)
    }
}

/// The characters of `s` after the first `c`, if `s` holds one.
pub open spec fn after(s: Seq<char>, c: char) -> Option<Seq<char>>
    decreases s.len(),
{
    if s.len() == 0 {
        None
    } else if s[0] == c {
        Some(s.drop_first())
    } else {
        after(s.drop_first(), c)
    }
}

/// The pieces of `s` between occurrences of `sep`, empty pieces included.
pub open spec fn split_on(s: Seq<char>, sep: char) -> Seq<Seq<char>>
    decreases s.len(),
{
    if s.len() == 0 {
        seq![Seq::empty()]
    } else {
        let p = split_on(s.drop_last(), sep);
        if s.last() == sep {
            p.push(Seq::empty())
        } else {
            p.update(p.len() - 1, p.last().push(s.last()))
        }
    }
}

/// Splitting always yields at least one piece.
pub proof fn lemma_split_on_len(s: Seq<char>, sep: char)
    ensures
        split_on(s, sep).len() >= 1,
    decreases s.len(),
{
    if s.len() > 0 {
        lemma_split_on_len(s.drop_last(), sep);
    }
}

/// Left-to-right reading of `s` into finished words and the word in progress.
pub open spec fn words_acc(s: Seq<char>) -> (Seq<Seq<char>>, Seq<char>)
    decreases s.len(),
{
    if s.len() == 0 {
        (Seq::empty(), Seq::empty())
    } else {
        let (done, cur) = words_acc(s.drop_last());
        if is_space(s.last()) {
            if cur.len() > 0 { (done.push(cur), Seq::empty()) } else { (done, cur) }
        } else {
            (done, cur.push(s.last()))
        }
    }
}

/// The maximal runs of non-whitespace characters of `s`, in order.
pub open spec fn words(s: Seq<char>) -> Seq<Seq<char>> {
    let (done, cur) = words_acc(s);
    if cur.len() > 0 { done.push(cur) } else { done }
}

/// The method and target of a request: the first two words of its first line,
/// or two empty strings when that line has fewer than two.
pub open spec fn request_line_parts(request: Seq<char>) -> (Seq<char>, Seq<char>) {
    let w = words(before(request, '\n'));
    if w.len() >= 2 { (w[0], w[1]) } else { (Seq::empty(), Seq::empty()) }
}

/// Lookup table from parameter pairs: a later pair overrides an earlier one with the same key.
pub open spec fn pairs_map(pairs: Seq<(Seq<char>, Seq<char>)>) -> Map<Seq<char>, Seq<char>>
    decreases pairs.len(),
{
    if pairs.len() == 0 {
        Map::empty()
    } else {
        pairs_map(pairs.drop_last()).insert(pairs.last().0, pairs.last().1)
    }
}

pub open spec fn pair_view(p: (String, String)) -> (Seq<char>, Seq<char>) {
    (p.0@, p.1@)
}

/// Query parameters, in the order they were read.
#[derive(Debug)]
pub struct QueryParams {
    pub pairs: Vec<(String, String)>,
}

impl View for QueryParams {
    type V = Map<Seq<char>, Seq<char>>;

    open spec fn view(&self) -> Map<Seq<char>, Seq<char>> {
        pairs_map(self.pairs@.map_values(|p: (String, String)| pair_view(p)))
    }
}

pub(crate) fn same_chars(a: &String, b: &str) -> (r: bool)
    ensures
        r == (a@ == b@),
{
    let x = chars_of(a.as_str());
    let y = chars_of(b);
    if x.len() != y.len() {
        return false;
    }
    let mut i: usize = 0;
    while i < x.len()
        invariant
            x@ == a@,
            y@ == b@,
            x@.len() == y@.len(),
            i <= x@.len(),
            forall|j: int| 0 <= j < i ==> x@[j] == y@[j],
        decreases x@.len() - i,
    {
        if x[i] != y[i] {
            return false;
        }
        i = i + 1;
    }
    assert(x@ =~= y@);
    true
}

impl QueryParams {
    /// The value of `key`: that of its last pair.
    pub fn get(&self, key: &str) -> (r: Option<&String>)
        ensures
            r is None <==> !self@.contains_key(key@),
            r matches Some(v) ==> self@[key@] == v@,
    {
        let ghost ps = self.pairs@.map_values(|p: (String, String)| pair_view(p));
        let mut i: usize = self.pairs.len();
        assert(ps.take(i as int) =~= ps);
        while i > 0
            invariant
                i <= self.pairs@.len(),
                ps == self.pairs@.map_values(|p: (String, String)| pair_view(p)),
                pairs_map(ps).contains_key(key@) == pairs_map(ps.take(i as int)).contains_key(key@),
                pairs_map(ps).contains_key(key@) ==> pairs_map(ps)[key@] == pairs_map(ps.take(i as int))[key@],
            decreases i,
        {
            assert(ps.take(i as int).drop_last() =~= ps.take(i - 1));
            if same_chars(&self.pairs[i - 1].0, key) {
                return Some(&self.pairs[i - 1].1);
            }
            i = i - 1;
        }
        None
    }
}

/// The characters of `s` before the first `c`, and those after it if there is one.
pub fn split_once(s: &[char], c: char) -> (r: (Vec<char>, Option<Vec<char>>))
    ensures
        r.0@ == before(s@, c),
        r.1 is None <==> after(s@, c) is None,
        r.1 matches Some(t) ==> after(s@, c) == Some(t@),
{
    let mut i: usize = 0;
    let mut head: Vec<char> = Vec::new();
    assert(s@.subrange(0, s@.len() as int) =~= s@);
    assert(head@ + before(s@, c) =~= before(s@, c));
    while i < s.len()
        invariant
            i <= s@.len(),
            head@ == s@.subrange(0, i as int),
            forall|j: int| 0 <= j < i ==> s@[j] != c,
            before(s@, c) == head@ + before(s@.subrange(i as int, s@.len() as int), c),
            after(s@, c) == after(s@.subrange(i as int, s@.len() as int), c),
        decreases s@.len() - i,
    {
        let ghost rest = s@.subrange(i as int, s@.len() as int);
        assert(rest.drop_first() =~= s@.subrange(i + 1, s@.len() as int));
        if s[i] == c {
            let mut tail: Vec<char> = Vec::new();
            let mut j: usize = i + 1;
            while j < s.len()
                invariant
                    i < j <= s@.len(),
                    tail@ == s@.subrange(i + 1, j as int),
                decreases s@.len() - j,
            {
                tail.push(s[j]);
                j = j + 1;
            }
            assert(head@ + Seq::<char>::empty() =~= head@);
            return (head, Some(tail));
        }
        assert(head@ + before(rest, c) =~= head@.push(s[i as int]) + before(rest.drop_first(), c));
        head.push(s[i]);
        i = i + 1;
    }
    assert(head@ + Seq::<char>::empty() =~= head@);
    (head, None)
}

/// The pieces of `s` between occurrences of `sep`.
pub fn split_all(s: &[char], sep: char) -> (r: Vec<Vec<char>>)
    ensures
        r@.map_values(|v: Vec<char>| v@) == split_on(s@, sep),
{
    let mut done: Vec<Vec<char>> = Vec::new();
    let mut cur: Vec<char> = Vec::new();
    let mut i: usize = 0;
    while i < s.len()
        invariant
            i <= s@.len(),
            split_on(s@.take(i as int), sep) == done@.map_values(|v: Vec<char>| v@).push(cur@),
        decreases s@.len() - i,
    {
        let ghost pre = split_on(s@.take(i as int), sep);
        assert(s@.take(i + 1).drop_last() =~= s@.take(i as int));
        if s[i] == sep {
            done.push(cur);
            cur = Vec::new();
            assert(done@.map_values(|v: Vec<char>| v@).push(cur@) =~= pre.push(Seq::empty()));
        } else {
            cur.push(s[i]);
            assert(done@.map_values(|v: Vec<char>| v@).push(cur@) =~= pre.update(
                pre.len() - 1,
                pre.last().push(s@[i as int]),
            ));
        }
        i = i + 1;
    }
    assert(s@.take(s@.len() as int) =~= s@);
    done.push(cur);
    assert(done@.map_values(|v: Vec<char>| v@) =~= split_on(s@, sep));
    done
}

/// The whitespace-separated words of `s`.
pub fn split_words(s: &[char]) -> (r: Vec<Vec<char>>)
    ensures
        r@.map_values(|v: Vec<char>| v@) == words(s@),
{
    let mut done: Vec<Vec<char>> = Vec::new();
    let mut cur: Vec<char> = Vec::new();
    let mut i: usize = 0;
    while i < s.len()
        invariant
            i <= s@.len(),
            words_acc(s@.take(i as int)) == (done@.map_values(|v: Vec<char>| v@), cur@),
        decreases s@.len() - i,
    {
        assert(s@.take(i + 1).drop_last() =~= s@.take(i as int));
        if is_space_exec(s[i]) {
            if cur.len() > 0 {
                done.push(cur);
                cur = Vec::new();
            }
        } else {
            cur.push(s[i]);
        }
        assert(words_acc(s@.take(i + 1)).0 =~= done@.map_values(|v: Vec<char>| v@));
        assert(words_acc(s@.take(i + 1)).1 =~= cur@);
        i = i + 1;
    }
    assert(s@.take(s@.len() as int) =~= s@);
    if cur.len() > 0 {
        done.push(cur);
    }
    assert(done@.map_values(|v: Vec<char>| v@) =~= words(s@));
    done
}

/// The method and target named on the first line of `request`.
pub fn parse_request_line(request: &str) -> (r: (String, String))
    ensures
        (r.0@, r.1@) == request_line_parts(request@),
{
    let all = chars_of(request);
    let (line, _rest) = split_once(all.as_slice(), '\n');
    let w = split_words(line.as_slice());
    if w.len() >= 2 {
        assert(w@.map_values(|v: Vec<char>| v@)[0] == w@[0]@);
        assert(w@.map_values(|v: Vec<char>| v@)[1] == w@[1]@);
        (string_of(w[0].as_slice()), string_of(w[1].as_slice()))
    } else {
        (String::new(), String::new())
    }
}

/// The pairs of a query string: each `&`-separated piece that holds an `=`
/// gives the key before its first `=` and the value after it.
pub open spec fn query_pairs(query: Seq<char>) -> Seq<(Seq<char>, Seq<char>)> {
    kv_pairs(split_on(query, '&'))
}

pub open spec fn kv_pairs(pieces: Seq<Seq<char>>) -> Seq<(Seq<char>, Seq<char>)>
    decreases pieces.len(),
{
    if pieces.len() == 0 {
        Seq::empty()
    } else {
        let rest = kv_pairs(pieces.drop_last());
        match after(pieces.last(), '=') {
            Some(v) => rest.push((before(pieces.last(), '='), v)),
            None => rest,
        }
    }
}

/// The route of a request target: everything before its first `?`.
pub open spec fn route_of(target: Seq<char>) -> Seq<char> {
    before(target, '?')
}

/// The parameters of a request target, read from what follows its first `?`.
pub open spec fn params_of(target: Seq<char>) -> Map<Seq<char>, Seq<char>> {
    match after(target, '?') {
        Some(q) => pairs_map(query_pairs(q)),
        None => Map::empty(),
    }
}

/// Splits a request target into its route and its query parameters; a
/// repeated key keeps its last value.
pub fn parse_query(path_query: &str) -> (r: (String, QueryParams))
    ensures
        r.0@ == route_of(path_query@),
        r.1@ == params_of(path_query@),
{
    let all = chars_of(path_query);
    let (route, query) = split_once(all.as_slice(), '?');
    let mut pairs: Vec<(String, String)> = Vec::new();
    match query {
        None => {
            assert(pairs@.map_values(|p: (String, String)| pair_view(p)) =~= Seq::empty());
        },
        Some(q) => {
            let pieces = split_all(q.as_slice(), '&');
            let ghost pv = pieces@.map_values(|v: Vec<char>| v@);
            let mut i: usize = 0;
            while i < pieces.len()
                invariant
                    i <= pieces@.len(),
                    pv == pieces@.map_values(|v: Vec<char>| v@),
                    pairs@.map_values(|p: (String, String)| pair_view(p)) == kv_pairs(pv.take(i as int)),
                decreases pieces@.len() - i,
            {
                assert(pv.take(i + 1).drop_last() =~= pv.take(i as int));
                let (k, v) = split_once(pieces[i].as_slice(), '=');
                match v {
                    Some(v) => {
                        pairs.push((string_of(k.as_slice()), string_of(v.as_slice())));
                    },
                    None => {},
                }
                assert(pairs@.map_values(|p: (String, String)| pair_view(p)) =~= kv_pairs(pv.take(i + 1)));
                i = i + 1;
            }
            assert(pv.take(pv.len() as int) =~= pv);
        },
    }
    (string_of(route.as_slice()), QueryParams { pairs })
}

} // verus!
