//! From the text of a request to what the server does with it: the request
//! line, the query string, the route, and the exchange with the workers.

use crate::error_responses::{
    http_resonse_400, http_resonse_404, http_response_500_json, response_400, response_404,
    response_500,
};
use crate::responses::{http_response_200, response_200};
use crate::task_queue::{Operation, Task, TaskType};
use crate::text::{
    chars_of, concat, decimal, enclose, failure_message, is_whitespace, parse_i32, parse_u64,
    parse_usize, push_decimal, same_text, signed_value, text_of_range, unsigned_value,
    whitespace,
};
use std::sync::mpsc::{channel, RecvError, Sender};
use vstd::prelude::*;
use vstd::string::StringExecFns;

verus! {

/// The index of the first `sep` in `s`, or the length of `s` where it holds
/// none.
pub open spec fn first_index_of(s: Seq<char>, sep: char) -> int
    decreases s.len(),
{
    if s.len() == 0 || s[0] == sep {
        0
    } else {
        1 + first_index_of(s.drop_first(), sep)
    }
}

/// The pieces of `s` between occurrences of `sep`. There is always at least
/// one piece, and a piece may be empty.
pub open spec fn split(s: Seq<char>, sep: char) -> Seq<Seq<char>>
    decreases s.len(),
{
    let i = first_index_of(s, sep);
    if 0 <= i < s.len() {
        seq![s.take(i)] + split(s.skip(i + 1), sep)
    } else {
        seq![s]
    }
}

proof fn lemma_first_index_of(s: Seq<char>, sep: char, i: int)
    requires
        0 <= i <= s.len(),
        forall|j: int| 0 <= j < i ==> s[j] != sep,
        i < s.len() ==> s[i] == sep,
    ensures
        first_index_of(s, sep) == i,
    decreases s.len(),
{
    if i > 0 {
        lemma_first_index_of(s.drop_first(), sep, i - 1);
    }
}

/// The index in `v[from..to]` of the first `sep`, counted from the start of
/// `v`; `to` where there is none.
fn find_char(v: &Vec<char>, from: usize, to: usize, sep: char) -> (i: usize)
    requires
        from <= to <= v.len(),
    ensures
        from <= i <= to,
        i - from == first_index_of(v@.subrange(from as int, to as int), sep),
{
    let ghost s = v@.subrange(from as int, to as int);
    let mut i: usize = from;
    while i < to && v[i] != sep
        invariant
            from <= i <= to <= v.len(),
            s == v@.subrange(from as int, to as int),
            forall|j: int| 0 <= j < i - from ==> s[j] != sep,
        decreases to - i,
    {
        i += 1;
    }
    proof {
        lemma_first_index_of(s, sep, i - from);
    }
    i
}

/// The bounds in `v` of each piece of `v[from..to]` between occurrences of
/// `sep`.
fn split_ranges(v: &Vec<char>, from: usize, to: usize, sep: char) -> (r: Vec<(usize, usize)>)
    requires
        from <= to <= v.len(),
    ensures
        r.len() == split(v@.subrange(from as int, to as int), sep).len(),
        r.len() >= 1,
        forall|k: int|
            0 <= k < r.len() ==> from <= (#[trigger] r[k]).0 <= r[k].1 <= to && v@.subrange(
                r[k].0 as int,
                r[k].1 as int,
            ) == split(v@.subrange(from as int, to as int), sep)[k],
{
    let ghost s = v@.subrange(from as int, to as int);
    let mut r: Vec<(usize, usize)> = Vec::new();
    let mut start: usize = from;
    assert(s.skip(0) == s);
    loop
        invariant_except_break
            split(s, sep).len() == r.len() + split(s.skip(start - from), sep).len(),
            forall|k: int|
                0 <= k < split(s.skip(start - from), sep).len() ==> split(s, sep)[r.len() + k]
                    == #[trigger] split(s.skip(start - from), sep)[k],
        invariant
            from <= start <= to <= v.len(),
            s == v@.subrange(from as int, to as int),
            forall|k: int|
                0 <= k < r.len() ==> from <= (#[trigger] r[k]).0 <= r[k].1 <= to && v@.subrange(
                    r[k].0 as int,
                    r[k].1 as int,
                ) == split(s, sep)[k],
        ensures
            r.len() == split(s, sep).len(),
            r.len() >= 1,
            forall|k: int|
                0 <= k < r.len() ==> from <= (#[trigger] r[k]).0 <= r[k].1 <= to && v@.subrange(
                    r[k].0 as int,
                    r[k].1 as int,
                ) == split(s, sep)[k],
        decreases to - start,
    {
        let ghost rest = s.skip(start - from);
        assert(rest == v@.subrange(start as int, to as int));
        let end = find_char(v, start, to, sep);
        let ghost old_len = r.len();
        r.push((start, end));
        if end < to {
            assert(rest.skip(end - start + 1) == s.skip(end + 1 - from));
            assert(split(s, sep)[old_len as int] == split(rest, sep)[0]);
            assert forall|k: int|
                0 <= k < split(s.skip(end + 1 - from), sep).len() implies split(s, sep)[r.len()
                + k] == #[trigger] split(s.skip(end + 1 - from), sep)[k] by {
                assert(split(rest, sep)[k + 1] == split(s.skip(end + 1 - from), sep)[k]);
            }
            start = end + 1;
        } else {
            assert(split(s, sep)[old_len as int] == split(rest, sep)[0]);
            break ;
        }
    }
    r
}

/// The parameters of a query string: each key with its value, and no key
/// twice.
#[derive(Debug)]
pub struct QueryParams {
    entries: Vec<(String, String)>,
}

/// The map that a list of pairs stands for: a later pair replaces an earlier
/// one with the same key.
pub open spec fn pairs_map(pairs: Seq<(Seq<char>, Seq<char>)>) -> Map<Seq<char>, Seq<char>>
    decreases pairs.len(),
{
    if pairs.len() == 0 {
        Map::empty()
    } else {
        pairs_map(pairs.drop_last()).insert(pairs.last().0, pairs.last().1)
    }
}

/// The characters of each key and value.
pub open spec fn pair_views(entries: Seq<(String, String)>) -> Seq<(Seq<char>, Seq<char>)> {
    entries.map_values(|e: (String, String)| (e.0@, e.1@))
}

/// Whether no two pairs have the same key.
pub open spec fn distinct_keys(pairs: Seq<(Seq<char>, Seq<char>)>) -> bool {
    forall|i: int, j: int| 0 <= i < j < pairs.len() ==> (#[trigger] pairs[i]).0 != (#[trigger] pairs[j]).0
}

/// A key that no pair has is not in the map.
proof fn lemma_absent_key(pairs: Seq<(Seq<char>, Seq<char>)>, key: Seq<char>)
    requires
        forall|j: int| 0 <= j < pairs.len() ==> (#[trigger] pairs[j]).0 != key,
    ensures
        !pairs_map(pairs).contains_key(key),
    decreases pairs.len(),
{
    if pairs.len() > 0 {
        lemma_absent_key(pairs.drop_last(), key);
    }
}

/// Where no key occurs twice, the pair of a key holds its value in the map.
proof fn lemma_present_key(pairs: Seq<(Seq<char>, Seq<char>)>, i: int)
    requires
        0 <= i < pairs.len(),
        distinct_keys(pairs),
    ensures
        pairs_map(pairs).contains_key(pairs[i].0),
        pairs_map(pairs)[pairs[i].0] == pairs[i].1,
    decreases pairs.len(),
{
    if i < pairs.len() - 1 {
        lemma_present_key(pairs.drop_last(), i);
    }
}

/// Where no key occurs twice, a new value in the pair of a key is a new value
/// for that key in the map.
proof fn lemma_replaced_value(pairs: Seq<(Seq<char>, Seq<char>)>, i: int, value: Seq<char>)
    requires
        0 <= i < pairs.len(),
        distinct_keys(pairs),
    ensures
        pairs_map(pairs.update(i, (pairs[i].0, value))) == pairs_map(pairs).insert(
            pairs[i].0,
            value,
        ),
    decreases pairs.len(),
{
    let key = pairs[i].0;
    let changed = pairs.update(i, (key, value));
    let rest = pairs.drop_last();
    if i == pairs.len() - 1 {
        assert(changed.drop_last() == rest);
    } else {
        lemma_replaced_value(rest, i, value);
        assert(changed.drop_last() == rest.update(i, (key, value)));
    }
}

/// Where no key occurs twice, the map has as many keys as there are pairs.
proof fn lemma_distinct_keys_count(pairs: Seq<(Seq<char>, Seq<char>)>)
    requires
        distinct_keys(pairs),
    ensures
        pairs_map(pairs).dom().finite(),
        pairs_map(pairs).dom().len() == pairs.len(),
    decreases pairs.len(),
{
    if pairs.len() > 0 {
        let rest = pairs.drop_last();
        lemma_distinct_keys_count(rest);
        lemma_absent_key(rest, pairs.last().0);
    }
}

impl View for QueryParams {
    type V = Map<Seq<char>, Seq<char>>;

    closed spec fn view(&self) -> Map<Seq<char>, Seq<char>> {
        pairs_map(pair_views(self.entries@))
    }
}

impl QueryParams {
    /// What holds of every set of parameters: no key occurs twice.
    pub closed spec fn wf(&self) -> bool {
        distinct_keys(pair_views(self.entries@))
    }

    /// No parameters.
    pub fn new() -> (p: Self)
        ensures
            p.wf(),
            p@ == Map::<Seq<char>, Seq<char>>::empty(),
    {
        let p = QueryParams { entries: Vec::new() };
        p
    }

    /// Where the pair of `key` stands, if there is one.
    fn position(&self, key: &str) -> (r: Option<usize>)
        ensures
            match r {
                Some(i) => i < self.entries.len() && self.entries@[i as int].0@ == key@,
                None => forall|j: int|
                    0 <= j < self.entries.len() ==> (#[trigger] self.entries@[j]).0@ != key@,
            },
    {
        let mut i: usize = 0;
        while i < self.entries.len()
            invariant
                i <= self.entries.len(),
                forall|j: int| 0 <= j < i ==> (#[trigger] self.entries@[j]).0@ != key@,
            decreases self.entries.len() - i,
        {
            if same_text(self.entries[i].0.as_str(), key) {
                return Some(i);
            }
            i += 1;
        }
        None
    }

    /// Sets the value of `key`, replacing the one it had.
    pub fn insert(&mut self, key: String, value: String)
        requires
            old(self).wf(),
        ensures
            final(self).wf(),
            final(self)@ == old(self)@.insert(key@, value@),
    {
        let ghost before = pair_views(self.entries@);
        match self.position(key.as_str()) {
            Some(i) => {
                proof {
                    lemma_replaced_value(before, i as int, value@);
                }
                self.entries.set(i, (key, value));
                assert(pair_views(self.entries@) =~= before.update(i as int, (key@, value@)));
            },
            None => {
                self.entries.push((key, value));
                assert(pair_views(self.entries@) =~= before.push((key@, value@)));
                assert(pair_views(self.entries@).drop_last() == before);
            },
        }
    }

    /// The value of `key`, where it has one.
    pub fn get(&self, key: &str) -> (r: Option<&String>)
        requires
            self.wf(),
        ensures
            match r {
                Some(v) => self@.contains_key(key@) && v@ == self@[key@],
                None => !self@.contains_key(key@),
            },
    {
        let ghost pairs = pair_views(self.entries@);
        match self.position(key) {
            Some(i) => {
                proof {
                    lemma_present_key(pairs, i as int);
                }
                Some(&self.entries[i].1)
            },
            None => {
                proof {
                    lemma_absent_key(pairs, key@);
                }
                None
            },
        }
    }

    /// Whether `key` has a value.
    pub fn contains_key(&self, key: &str) -> (r: bool)
        requires
            self.wf(),
        ensures
            r == self@.contains_key(key@),
    {
        self.get(key).is_some()
    }

    /// How many keys have a value.
    pub fn len(&self) -> (n: usize)
        requires
            self.wf(),
        ensures
            self@.dom().finite(),
            n == self@.dom().len(),
    {
        proof {
            lemma_distinct_keys_count(pair_views(self.entries@));
        }
        self.entries.len()
    }
}

/// The key and the value of one parameter: what stands before its first `=`,
/// and what stands between its first and its second `=`.
pub open spec fn param_pair(param: Seq<char>) -> (Seq<char>, Seq<char>) {
    let kv = split(param, '=');
    (
        kv[0],
        if kv.len() >= 2 {
            kv[1]
        } else {
            Seq::empty()
        },
    )
}

/// The pairs of a query string, one for each piece between `&`.
pub open spec fn query_pairs(query: Seq<char>) -> Seq<(Seq<char>, Seq<char>)> {
    split(query, '&').map_values(|p: Seq<char>| param_pair(p))
}

/// The route of a path: what stands before its first `?`.
pub open spec fn route_part(path: Seq<char>) -> Seq<char> {
    split(path, '?')[0]
}

/// The parameters of a path: those of the text between its first and its
/// second `?`; none where the path holds no `?`.
pub open spec fn query_params(path: Seq<char>) -> Map<Seq<char>, Seq<char>> {
    let parts = split(path, '?');
    if parts.len() >= 2 {
        pairs_map(query_pairs(parts[1]))
    } else {
        Map::empty()
    }
}

/// Splits a path into its route and its parameters.
pub fn parse_query(path: &str) -> (r: (String, QueryParams))
    ensures
        r.0@ == route_part(path@),
        r.1.wf(),
        r.1@ == query_params(path@),
{
    let v = chars_of(path);
    assert(v@.subrange(0, v.len() as int) == v@);
    let parts = split_ranges(&v, 0, v.len(), '?');
    let route = text_of_range(&v, parts[0].0, parts[0].1);
    let mut params = QueryParams::new();
    if parts.len() >= 2 {
        let (qa, qb) = parts[1];
        let ghost query = v@.subrange(qa as int, qb as int);
        let pieces = split_ranges(&v, qa, qb, '&');
        let mut k: usize = 0;
        while k < pieces.len()
            invariant
                k <= pieces.len(),
                qa <= qb <= v.len(),
                query == v@.subrange(qa as int, qb as int),
                pieces.len() == split(query, '&').len(),
                forall|n: int|
                    0 <= n < pieces.len() ==> qa <= (#[trigger] pieces[n]).0 <= pieces[n].1 <= qb
                        && v@.subrange(pieces[n].0 as int, pieces[n].1 as int) == split(
                        query,
                        '&',
                    )[n],
                params.wf(),
                params@ == pairs_map(query_pairs(query).take(k as int)),
            decreases pieces.len() - k,
        {
            let (pa, pb) = pieces[k];
            let kv = split_ranges(&v, pa, pb, '=');
            let key = text_of_range(&v, kv[0].0, kv[0].1);
            let value = if kv.len() >= 2 {
                text_of_range(&v, kv[1].0, kv[1].1)
            } else {
                String::new()
            };
            params.insert(key, value);
            assert(query_pairs(query).take(k + 1).drop_last() == query_pairs(query).take(
                k as int,
            ));
            k += 1;
        }
        assert(query_pairs(query).take(k as int) == query_pairs(query));
    }
    (route, params)
}

/// The first line of `s`: what stands before its first line feed.
pub open spec fn first_line(s: Seq<char>) -> Seq<char> {
    s.take(first_index_of(s, '\n'))
}

/// The first index from `i` on at which `s` holds no white space; the length
/// of `s` where it holds nothing else from there on.
pub open spec fn skip_spaces(s: Seq<char>, i: int) -> int
    decreases s.len() - i,
{
    if 0 <= i < s.len() && is_whitespace(s[i]) {
        skip_spaces(s, i + 1)
    } else {
        i
    }
}

/// The first index from `i` on at which `s` holds white space; the length of
/// `s` where it holds none from there on.
pub open spec fn skip_word(s: Seq<char>, i: int) -> int
    decreases s.len() - i,
{
    if 0 <= i < s.len() && !is_whitespace(s[i]) {
        skip_word(s, i + 1)
    } else {
        i
    }
}

/// The first two words of the first line of a request, which are its method
/// and its path; two empty texts where that line holds fewer than two words.
pub open spec fn request_line(request: Seq<char>) -> (Seq<char>, Seq<char>) {
    let line = first_line(request);
    let a = skip_spaces(line, 0);
    let b = skip_word(line, a);
    let c = skip_spaces(line, b);
    let d = skip_word(line, c);
    if c < line.len() {
        (line.subrange(a, b), line.subrange(c, d))
    } else {
        (Seq::empty(), Seq::empty())
    }
}

fn after_spaces(v: &Vec<char>, end: usize, from: usize) -> (i: usize)
    requires
        from <= end <= v.len(),
    ensures
        from <= i <= end,
        i == skip_spaces(v@.take(end as int), from as int),
{
    let ghost line = v@.take(end as int);
    let mut i: usize = from;
    while i < end && whitespace(v[i])
        invariant
            from <= i <= end <= v.len(),
            line == v@.take(end as int),
            skip_spaces(line, from as int) == skip_spaces(line, i as int),
        decreases end - i,
    {
        i += 1;
    }
    i
}

fn after_word(v: &Vec<char>, end: usize, from: usize) -> (i: usize)
    requires
        from <= end <= v.len(),
    ensures
        from <= i <= end,
        i == skip_word(v@.take(end as int), from as int),
{
    let ghost line = v@.take(end as int);
    let mut i: usize = from;
    while i < end && !whitespace(v[i])
        invariant
            from <= i <= end <= v.len(),
            line == v@.take(end as int),
            skip_word(line, from as int) == skip_word(line, i as int),
        decreases end - i,
    {
        i += 1;
    }
    i
}

/// Reads the method and the path from the first line of a request.
pub fn parse_request(request: &str) -> (r: (String, String))
    ensures
        (r.0@, r.1@) == request_line(request@),
{
    let v = chars_of(request);
    assert(v@.subrange(0, v.len() as int) == v@);
    let end = find_char(&v, 0, v.len(), '\n');
    let a = after_spaces(&v, end, 0);
    let b = after_word(&v, end, a);
    let c = after_spaces(&v, end, b);
    let d = after_word(&v, end, c);
    if c < end {
        (text_of_range(&v, a, b), text_of_range(&v, c, d))
    } else {
        (String::new(), String::new())
    }
}

/// What the server does with a request once its path is read.
#[derive(Debug)]
pub enum Route {
    /// Answer at once with this text.
    Reply(String),
    /// Hand the task to the workers and answer with its result.
    Dispatch { task_type: TaskType, description: String },
    /// Hand `count` copies of `template` to the workers and report on them.
    LoadTest { task_name: String, template: TaskType, count: usize },
    /// Report the state of the server.
    Status,
}

/// A `Route` with its texts as sequences of characters.
pub enum RouteView {
    Reply(Seq<char>),
    Dispatch { task: Operation, description: Seq<char> },
    LoadTest { task_name: Seq<char>, template: Operation, count: usize },
    Status,
}

impl View for Route {
    type V = RouteView;

    open spec fn view(&self) -> RouteView {
        match self {
            Route::Reply(text) => RouteView::Reply(text@),
            Route::Dispatch { task_type, description } => RouteView::Dispatch {
                task: task_type@,
                description: description@,
            },
            Route::LoadTest { task_name, template, count } => RouteView::LoadTest {
                task_name: task_name@,
                template: template@,
                count: *count,
            },
            Route::Status => RouteView::Status,
        }
    }
}

/// The parameters of a request.
pub type Params = Map<Seq<char>, Seq<char>>;

/// The answer to a request whose parameters are missing or malformed.
pub open spec fn bad_request(msg: Seq<char>) -> RouteView {
    RouteView::Reply(response_400(msg))
}

/// The value of `key` as a `usize`, where it has one and it reads as one.
pub open spec fn usize_param(params: Params, key: Seq<char>) -> Option<usize> {
    if params.contains_key(key) {
        match unsigned_value(params[key], usize::MAX as nat) {
            Ok(n) => Some(n as usize),
            Err(_) => None,
        }
    } else {
        None
    }
}

/// The value of `key` as an `i32`, where it has one and it reads as one.
pub open spec fn i32_param(params: Params, key: Seq<char>) -> Option<i32> {
    if params.contains_key(key) {
        match signed_value(params[key], i32::MAX as nat) {
            Ok(n) => Some(n as i32),
            Err(_) => None,
        }
    } else {
        None
    }
}

/// `/fibonacci`: the number comes in `num`.
pub open spec fn fibonacci_route(params: Params) -> RouteView {
    if !params.contains_key("num"@) {
        bad_request("Falta el paràmetro 'num'"@)
    } else {
        match unsigned_value(params["num"@], u64::MAX as nat) {
            Ok(n) => RouteView::Dispatch {
                task: Operation::Fibonacci(n as u64),
                description: "Fibonacci para "@ + decimal(n),
            },
            Err(e) => bad_request(failure_message(e)),
        }
    }
}

/// `/reverse`: the text comes in `text`.
pub open spec fn reverse_route(params: Params) -> RouteView {
    if params.contains_key("text"@) {
        RouteView::Dispatch {
            task: Operation::Reverse(params["text"@]),
            description: "Reverse de "@ + params["text"@],
        }
    } else {
        bad_request("Falta el paràmetro 'text'"@)
    }
}

/// `/toupper`: the text comes in `text`.
pub open spec fn toupper_route(params: Params) -> RouteView {
    if params.contains_key("text"@) {
        RouteView::Dispatch {
            task: Operation::Toupper(params["text"@]),
            description: "Touper de "@ + params["text"@],
        }
    } else {
        bad_request("Falta el paràmetro 'text'"@)
    }
}

/// `/hash`: the text comes in `text`.
pub open spec fn hash_route(params: Params) -> RouteView {
    if params.contains_key("text"@) {
        RouteView::Dispatch {
            task: Operation::Sha256(params["text"@]),
            description: "Sha256_hash de "@ + params["text"@],
        }
    } else {
        bad_request("Falta el paràmetro 'text'"@)
    }
}

/// `/sleep`: the duration comes in `seconds`, and the description repeats it
/// as it was written.
pub open spec fn sleep_route(params: Params) -> RouteView {
    if !params.contains_key("seconds"@) {
        bad_request("Falta el paràmetro 'seconds'"@)
    } else {
        match unsigned_value(params["seconds"@], u64::MAX as nat) {
            Ok(n) => RouteView::Dispatch {
                task: Operation::Sleep(n as u64),
                description: "Simulaciòn por "@ + params["seconds"@] + " segundos"@,
            },
            Err(_) => bad_request("El parametro 'seconds' debe de ser un nùmero positivo"@),
        }
    }
}

/// `/timestamp` takes no parameter.
pub open spec fn timestamp_route() -> RouteView {
    RouteView::Dispatch {
        task: Operation::TimeStamp,
        description: "TimeStamp actual en formato Iso"@,
    }
}

/// `/random`: `count`, `min` and `max` must all be there and read as numbers,
/// and `min` must be below `max`.
pub open spec fn random_route(params: Params) -> RouteView {
    if !params.contains_key("count"@) || !params.contains_key("min"@) || !params.contains_key(
        "max"@,
    ) {
        bad_request(
            "Falta alguno o varios de los 3 paràmetros que se necesitas -> 'count', 'min', 'max'"@,
        )
    } else if usize_param(params, "count"@) is None {
        bad_request("El paràmetro 'count' debe de ser entero positivo"@)
    } else if i32_param(params, "min"@) is None {
        bad_request("El paràmetro 'min' debe de ser entero positivo"@)
    } else if i32_param(params, "max"@) is None {
        bad_request("El paràmetro 'max' debe de ser entero positivo"@)
    } else if i32_param(params, "min"@)->0 >= i32_param(params, "max"@)->0 {
        bad_request("El paràmetro 'min' debe ser menor estrico que el paràmetro 'max'"@)
    } else {
        RouteView::Dispatch {
            task: Operation::Random {
                count: usize_param(params, "count"@)->0,
                min: i32_param(params, "min"@)->0,
                max: i32_param(params, "max"@)->0,
            },
            description: "Generar números aleatorios"@,
        }
    }
}

/// `/createfile`: the file's name comes in `name`, what it holds in
/// `content`.
pub open spec fn createfile_route(params: Params) -> RouteView {
    if params.contains_key("name"@) && params.contains_key("content"@) {
        RouteView::Dispatch {
            task: Operation::CreateFile { name: params["name"@], content: params["content"@] },
            description: "Crear archivo '"@ + params["name"@] + "'"@,
        }
    } else {
        bad_request("Los paràmetros 'name' y 'content' son obligatorios"@)
    }
}

/// `/deletefile`: the file's name comes in `name`.
pub open spec fn deletefile_route(params: Params) -> RouteView {
    if params.contains_key("name"@) {
        RouteView::Dispatch {
            task: Operation::DeleteFile(params["name"@]),
            description: "Eliminar archivo '"@ + params["name"@] + "'"@,
        }
    } else {
        bad_request("El paràmetro 'name' es obligatorio"@)
    }
}

/// The task `inner` after a delay, under a description.
pub open spec fn delayed(delay: u64, inner: Operation, description: Seq<char>) -> RouteView {
    RouteView::Dispatch {
        task: Operation::Simulate { delay, inner: Box::new(inner) },
        description,
    }
}

/// `/simulate` once its delay is known: `task` names the work to delay, and
/// the other parameters are those of that work. A `random` whose numbers are
/// missing or malformed, or whose `min` is not below its `max`, is refused
/// like any other bad request.
pub open spec fn simulated_route(delay: u64, task: Seq<char>, params: Params) -> RouteView {
    if task == "reverse"@ {
        if params.contains_key("text"@) {
            delayed(delay, Operation::Reverse(params["text"@]), "Simular reverse"@)
        } else {
            bad_request("Falta el parametro 'text'"@)
        }
    } else if task == "toupper"@ {
        if params.contains_key("text"@) {
            delayed(delay, Operation::Toupper(params["text"@]), "Simulate toupper"@)
        } else {
            bad_request("Falta el parametro 'text'"@)
        }
    } else if task == "fibonacci"@ {
        if !params.contains_key("num"@) {
            bad_request("Falta el parametro 'num'"@)
        } else {
            match unsigned_value(params["num"@], u64::MAX as nat) {
                Ok(n) => delayed(delay, Operation::Fibonacci(n as u64), "Simulate fibonacci"@),
                Err(_) => bad_request("EL parametro 'num' debe de ser entero positivo"@),
            }
        }
    } else if task == "hash"@ {
        if params.contains_key("text"@) {
            delayed(delay, Operation::Sha256(params["text"@]), "Simulate hash"@)
        } else {
            bad_request("Falta el parametro 'text'"@)
        }
    } else if task == "timestamp"@ {
        delayed(delay, Operation::TimeStamp, "Simulate timestamp"@)
    } else if task == "random"@ {
        match (usize_param(params, "count"@), i32_param(params, "min"@), i32_param(params, "max"@)) {
            (Some(count), Some(min), Some(max)) => if min < max {
                delayed(delay, Operation::Random { count, min, max }, "Simulate random"@)
            } else {
                bad_request("Faltan paramentros"@)
            },
            _ => bad_request("Faltan paramentros"@),
        }
    } else if task == "createfile"@ {
        if params.contains_key("name"@) && params.contains_key("content"@) {
            delayed(
                delay,
                Operation::CreateFile { name: params["name"@], content: params["content"@] },
                "Simulate createfile"@,
            )
        } else {
            bad_request("Falta alguno de los siguiente parametros: 'name' o 'content'"@)
        }
    } else if task == "deletefile"@ {
        if params.contains_key("name"@) {
            delayed(delay, Operation::DeleteFile(params["name"@]), "Simulate deletefile"@)
        } else {
            bad_request("Falta el parametro 'name'"@)
        }
    } else {
        bad_request("Tarea no soportada por simulate"@)
    }
}

/// `/simulate`: the delay comes in `seconds`, the work in `task`.
pub open spec fn simulate_route(params: Params) -> RouteView {
    if !params.contains_key("seconds"@) {
        bad_request("Falta el parametro 'seconds'"@)
    } else {
        match unsigned_value(params["seconds"@], u64::MAX as nat) {
            Err(_) => bad_request("EL parametro 'seconds' debe entero positivo"@),
            Ok(delay) => if params.contains_key("task"@) {
                simulated_route(delay as u64, params["task"@], params)
            } else {
                bad_request("Falta el parametro 'task'"@)
            },
        }
    }
}

/// The value of `key`, or `default` where it has none.
pub open spec fn param_or(params: Params, key: Seq<char>, default: Seq<char>) -> Seq<char> {
    if params.contains_key(key) {
        params[key]
    } else {
        default
    }
}

/// `/loadtest`: `task` names the work, `text` is its argument and `count`
/// says how many copies to run; ten where `count` is missing or malformed.
pub open spec fn loadtest_route(params: Params) -> RouteView {
    let count = match usize_param(params, "count"@) {
        Some(n) => n,
        None => 10usize,
    };
    let task_name = param_or(params, "task"@, "default"@);
    let text = param_or(params, "text"@, "default"@);
    if task_name == "reverse"@ {
        RouteView::LoadTest { task_name, template: Operation::Reverse(text), count }
    } else if task_name == "toupper"@ {
        RouteView::LoadTest { task_name, template: Operation::Toupper(text), count }
    } else if task_name == "sha256"@ {
        RouteView::LoadTest { task_name, template: Operation::Sha256(text), count }
    } else if task_name == "timestamp"@ {
        RouteView::LoadTest { task_name, template: Operation::TimeStamp, count }
    } else {
        bad_request("Tarea no soportada para loadtest"@)
    }
}

/// `/help` takes no parameter.
pub open spec fn help_route() -> RouteView {
    RouteView::Dispatch { task: Operation::Help, description: "Manual para usar los endpoints"@ }
}

/// What the server does with a request for `path`.
pub open spec fn route_of(path: Seq<char>) -> RouteView {
    let route = route_part(path);
    let params = query_params(path);
    if route == "/fibonacci"@ {
        fibonacci_route(params)
    } else if route == "/reverse"@ {
        reverse_route(params)
    } else if route == "/toupper"@ {
        toupper_route(params)
    } else if route == "/hash"@ {
        hash_route(params)
    } else if route == "/sleep"@ {
        sleep_route(params)
    } else if route == "/timestamp"@ {
        timestamp_route()
    } else if route == "/random"@ {
        random_route(params)
    } else if route == "/createfile"@ {
        createfile_route(params)
    } else if route == "/deletefile"@ {
        deletefile_route(params)
    } else if route == "/simulate"@ {
        simulate_route(params)
    } else if route == "/loadtest"@ {
        loadtest_route(params)
    } else if route == "/help"@ {
        help_route()
    } else if route == "/status"@ {
        RouteView::Status
    } else {
        RouteView::Reply(response_404("Ruta no encontrada"@))
    }
}

fn reply_bad_request(msg: &str) -> (r: Route)
    ensures
        r@ == bad_request(msg@),
{
    Route::Reply(http_resonse_400(msg))
}

fn described(task_type: TaskType, description: &str) -> (r: Route)
    ensures
        r@ == (RouteView::Dispatch { task: task_type@, description: description@ }),
{
    Route::Dispatch { task_type, description: String::from_str(description) }
}

fn delay_of(delay: u64, inner: TaskType, description: &str) -> (r: Route)
    ensures
        r@ == delayed(delay, inner@, description@),
{
    described(TaskType::Simulate { delay, inner: Box::new(inner) }, description)
}

fn read_usize_param(params: &QueryParams, key: &str) -> (r: Option<usize>)
    requires
        params.wf(),
    ensures
        r == usize_param(params@, key@),
{
    match params.get(key) {
        Some(text) => match parse_usize(text.as_str()) {
            Ok(n) => Some(n),
            Err(_) => None,
        },
        None => None,
    }
}

fn read_i32_param(params: &QueryParams, key: &str) -> (r: Option<i32>)
    requires
        params.wf(),
    ensures
        r == i32_param(params@, key@),
{
    match params.get(key) {
        Some(text) => match parse_i32(text.as_str()) {
            Ok(n) => Some(n),
            Err(_) => None,
        },
        None => None,
    }
}

fn route_fibonacci(params: &QueryParams) -> (r: Route)
    requires
        params.wf(),
    ensures
        r@ == fibonacci_route(params@),
{
    match params.get("num") {
        None => reply_bad_request("Falta el paràmetro 'num'"),
        Some(text) => match parse_u64(text.as_str()) {
            Ok(n) => {
                let mut description = String::from_str("Fibonacci para ");
                push_decimal(&mut description, n as u128);
                Route::Dispatch { task_type: TaskType::Fibonacci(n), description }
            },
            Err(e) => reply_bad_request(e.message()),
        },
    }
}

fn route_reverse(params: &QueryParams) -> (r: Route)
    requires
        params.wf(),
    ensures
        r@ == reverse_route(params@),
{
    match params.get("text") {
        Some(text) => Route::Dispatch {
            task_type: TaskType::Reverse(text.clone()),
            description: concat("Reverse de ", text.as_str()),
        },
        None => reply_bad_request("Falta el paràmetro 'text'"),
    }
}

fn route_toupper(params: &QueryParams) -> (r: Route)
    requires
        params.wf(),
    ensures
        r@ == toupper_route(params@),
{
    match params.get("text") {
        Some(text) => Route::Dispatch {
            task_type: TaskType::Toupper(text.clone()),
            description: concat("Touper de ", text.as_str()),
        },
        None => reply_bad_request("Falta el paràmetro 'text'"),
    }
}

fn route_hash(params: &QueryParams) -> (r: Route)
    requires
        params.wf(),
    ensures
        r@ == hash_route(params@),
{
    match params.get("text") {
        Some(text) => Route::Dispatch {
            task_type: TaskType::Sha256(text.clone()),
            description: concat("Sha256_hash de ", text.as_str()),
        },
        None => reply_bad_request("Falta el paràmetro 'text'"),
    }
}

fn route_sleep(params: &QueryParams) -> (r: Route)
    requires
        params.wf(),
    ensures
        r@ == sleep_route(params@),
{
    match params.get("seconds") {
        None => reply_bad_request("Falta el paràmetro 'seconds'"),
        Some(text) => match parse_u64(text.as_str()) {
            Ok(n) => Route::Dispatch {
                task_type: TaskType::Sleep(n),
                description: enclose("Simulaciòn por ", text.as_str(), " segundos"),
            },
            Err(_) => reply_bad_request("El parametro 'seconds' debe de ser un nùmero positivo"),
        },
    }
}

fn route_random(params: &QueryParams) -> (r: Route)
    requires
        params.wf(),
    ensures
        r@ == random_route(params@),
{
    if !params.contains_key("count") || !params.contains_key("min") || !params.contains_key("max") {
        return reply_bad_request(
            "Falta alguno o varios de los 3 paràmetros que se necesitas -> 'count', 'min', 'max'",
        );
    }
    let count = match read_usize_param(params, "count") {
        Some(n) => n,
        None => {
            return reply_bad_request("El paràmetro 'count' debe de ser entero positivo");
        },
    };
    let min = match read_i32_param(params, "min") {
        Some(n) => n,
        None => {
            return reply_bad_request("El paràmetro 'min' debe de ser entero positivo");
        },
    };
    let max = match read_i32_param(params, "max") {
        Some(n) => n,
        None => {
            return reply_bad_request("El paràmetro 'max' debe de ser entero positivo");
        },
    };
    if min >= max {
        return reply_bad_request(
            "El paràmetro 'min' debe ser menor estrico que el paràmetro 'max'",
        );
    }
    described(TaskType::Random { count, min, max }, "Generar números aleatorios")
}

fn route_createfile(params: &QueryParams) -> (r: Route)
    requires
        params.wf(),
    ensures
        r@ == createfile_route(params@),
{
    match (params.get("name"), params.get("content")) {
        (Some(name), Some(content)) => Route::Dispatch {
            task_type: TaskType::CreateFile { name: name.clone(), content: content.clone() },
            description: enclose("Crear archivo '", name.as_str(), "'"),
        },
        _ => reply_bad_request("Los paràmetros 'name' y 'content' son obligatorios"),
    }
}

fn route_deletefile(params: &QueryParams) -> (r: Route)
    requires
        params.wf(),
    ensures
        r@ == deletefile_route(params@),
{
    match params.get("name") {
        Some(name) => Route::Dispatch {
            task_type: TaskType::DeleteFile(name.clone()),
            description: enclose("Eliminar archivo '", name.as_str(), "'"),
        },
        None => reply_bad_request("El paràmetro 'name' es obligatorio"),
    }
}

fn route_simulated(delay: u64, task: &str, params: &QueryParams) -> (r: Route)
    requires
        params.wf(),
    ensures
        r@ == simulated_route(delay, task@, params@),
{
    if same_text(task, "reverse") {
        match params.get("text") {
            Some(text) => delay_of(delay, TaskType::Reverse(text.clone()), "Simular reverse"),
            None => reply_bad_request("Falta el parametro 'text'"),
        }
    } else if same_text(task, "toupper") {
        match params.get("text") {
            Some(text) => delay_of(delay, TaskType::Toupper(text.clone()), "Simulate toupper"),
            None => reply_bad_request("Falta el parametro 'text'"),
        }
    } else if same_text(task, "fibonacci") {
        match params.get("num") {
            None => reply_bad_request("Falta el parametro 'num'"),
            Some(text) => match parse_u64(text.as_str()) {
                Ok(n) => delay_of(delay, TaskType::Fibonacci(n), "Simulate fibonacci"),
                Err(_) => reply_bad_request("EL parametro 'num' debe de ser entero positivo"),
            },
        }
    } else if same_text(task, "hash") {
        match params.get("text") {
            Some(text) => delay_of(delay, TaskType::Sha256(text.clone()), "Simulate hash"),
            None => reply_bad_request("Falta el parametro 'text'"),
        }
    } else if same_text(task, "timestamp") {
        delay_of(delay, TaskType::TimeStamp, "Simulate timestamp")
    } else if same_text(task, "random") {
        let count = read_usize_param(params, "count");
        let min = read_i32_param(params, "min");
        let max = read_i32_param(params, "max");
        match (count, min, max) {
            (Some(count), Some(min), Some(max)) => if min < max {
                delay_of(delay, TaskType::Random { count, min, max }, "Simulate random")
            } else {
                reply_bad_request("Faltan paramentros")
            },
            _ => reply_bad_request("Faltan paramentros"),
        }
    } else if same_text(task, "createfile") {
        match (params.get("name"), params.get("content")) {
            (Some(name), Some(content)) => delay_of(
                delay,
                TaskType::CreateFile { name: name.clone(), content: content.clone() },
                "Simulate createfile",
            ),
            _ => reply_bad_request(
                "Falta alguno de los siguiente parametros: 'name' o 'content'",
            ),
        }
    } else if same_text(task, "deletefile") {
        match params.get("name") {
            Some(name) => delay_of(
                delay,
                TaskType::DeleteFile(name.clone()),
                "Simulate deletefile",
            ),
            None => reply_bad_request("Falta el parametro 'name'"),
        }
    } else {
        reply_bad_request("Tarea no soportada por simulate")
    }
}

fn route_simulate(params: &QueryParams) -> (r: Route)
    requires
        params.wf(),
    ensures
        r@ == simulate_route(params@),
{
    let delay = match params.get("seconds") {
        None => {
            return reply_bad_request("Falta el parametro 'seconds'");
        },
        Some(text) => match parse_u64(text.as_str()) {
            Ok(n) => n,
            Err(_) => {
                return reply_bad_request("EL parametro 'seconds' debe entero positivo");
            },
        },
    };
    match params.get("task") {
        Some(task) => route_simulated(delay, task.as_str(), params),
        None => reply_bad_request("Falta el parametro 'task'"),
    }
}

fn read_param_or(params: &QueryParams, key: &str, default: &str) -> (r: String)
    requires
        params.wf(),
    ensures
        r@ == param_or(params@, key@, default@),
{
    match params.get(key) {
        Some(text) => text.clone(),
        None => String::from_str(default),
    }
}

fn route_loadtest(params: &QueryParams) -> (r: Route)
    requires
        params.wf(),
    ensures
        r@ == loadtest_route(params@),
{
    let count = match read_usize_param(params, "count") {
        Some(n) => n,
        None => 10,
    };
    let task_name = read_param_or(params, "task", "default");
    let text = read_param_or(params, "text", "default");
    if same_text(task_name.as_str(), "reverse") {
        Route::LoadTest { task_name, template: TaskType::Reverse(text), count }
    } else if same_text(task_name.as_str(), "toupper") {
        Route::LoadTest { task_name, template: TaskType::Toupper(text), count }
    } else if same_text(task_name.as_str(), "sha256") {
        Route::LoadTest { task_name, template: TaskType::Sha256(text), count }
    } else if same_text(task_name.as_str(), "timestamp") {
        Route::LoadTest { task_name, template: TaskType::TimeStamp, count }
    } else {
        reply_bad_request("Tarea no soportada para loadtest")
    }
}

/// Decides what the server does with a request for `path`: which task it
/// hands to the workers and under what description, or which answer it gives
/// at once.
pub fn route_request(path: &str) -> (r: Route)
    ensures
        r@ == route_of(path@),
{
    let (route, params) = parse_query(path);
    let route = route.as_str();
    if same_text(route, "/fibonacci") {
        route_fibonacci(&params)
    } else if same_text(route, "/reverse") {
        route_reverse(&params)
    } else if same_text(route, "/toupper") {
        route_toupper(&params)
    } else if same_text(route, "/hash") {
        route_hash(&params)
    } else if same_text(route, "/sleep") {
        route_sleep(&params)
    } else if same_text(route, "/timestamp") {
        described(TaskType::TimeStamp, "TimeStamp actual en formato Iso")
    } else if same_text(route, "/random") {
        route_random(&params)
    } else if same_text(route, "/createfile") {
        route_createfile(&params)
    } else if same_text(route, "/deletefile") {
        route_deletefile(&params)
    } else if same_text(route, "/simulate") {
        route_simulate(&params)
    } else if same_text(route, "/loadtest") {
        route_loadtest(&params)
    } else if same_text(route, "/help") {
        described(TaskType::Help, "Manual para usar los endpoints")
    } else if same_text(route, "/status") {
        Route::Status
    } else {
        Route::Reply(http_resonse_404("Ruta no encontrada"))
    }
}

/// How the exchange with the workers ended for one task.
#[derive(Debug)]
pub enum Exchange {
    /// The queue took no task: nobody reads it any more.
    QueueClosed,
    /// The task was taken, and its channel closed without a result.
    ReplyDropped,
    /// The worker sent this result.
    Replied(String),
}

/// An `Exchange` with its text as a sequence of characters.
pub enum ExchangeView {
    QueueClosed,
    ReplyDropped,
    Replied(Seq<char>),
}

impl View for Exchange {
    type V = ExchangeView;

    open spec fn view(&self) -> ExchangeView {
        match self {
            Exchange::QueueClosed => ExchangeView::QueueClosed,
            Exchange::ReplyDropped => ExchangeView::ReplyDropped,
            Exchange::Replied(text) => ExchangeView::Replied(text@),
        }
    }
}

/// The response for each end of the exchange: the result under a success
/// status, or a server error that says which half failed.
pub open spec fn exchange_response(exchange: ExchangeView) -> Seq<char> {
    match exchange {
        ExchangeView::QueueClosed => response_500("No se pudo encolar la tarea"@),
        ExchangeView::ReplyDropped => response_500("Error al recibir resultado de la tarea"@),
        ExchangeView::Replied(text) => response_200(text),
    }
}

/// Renders the response for an exchange with the workers.
pub fn render_exchange(exchange: Exchange) -> (response: String)
    ensures
        response@ == exchange_response(exchange@),
{
    match exchange {
        Exchange::QueueClosed => http_response_500_json("No se pudo encolar la tarea"),
        Exchange::ReplyDropped => http_response_500_json("Error al recibir resultado de la tarea"),
        Exchange::Replied(text) => http_response_200(text.as_str()),
    }
}

/// The task that goes to the queue for a request: the work and the
/// description as given, and the sending half of the channel on which the
/// submitter waits.
pub fn task_for(task_type: TaskType, desc: &str, response_tx: Sender<String>) -> (task: Task)
    ensures
        task.description@ == desc@,
        task.task_type == task_type,
        task.response_tx == response_tx,
{
    Task { description: String::from_str(desc), task_type, response_tx }
}

/// How the exchange ended once the queue had taken the task: with the result
/// that the channel gave, or with a dropped reply where the channel closed
/// without one.
pub fn exchange_of_reply(received: Result<String, RecvError>) -> (exchange: Exchange)
    ensures
        match received {
            Ok(text) => exchange@ == ExchangeView::Replied(text@),
            Err(_) => exchange@ == ExchangeView::ReplyDropped,
        },
{
    match received {
        Ok(text) => Exchange::Replied(text),
        Err(_) => Exchange::ReplyDropped,
    }
}

/// Hands a task to the workers and waits for its result: a fresh channel is
/// made for the result, the task of `task_for` is sent to the queue with the
/// sending half, and the caller blocks on the receiving half. A queue that
/// takes no task ends the exchange at once; else `exchange_of_reply` says how
/// it ended. Which of these happens is for the queue and the workers to
/// decide.
fn submit(sender: &Sender<Task>, task_type: TaskType, desc: &str) -> (exchange: Exchange) {
    let (response_tx, response_rx) = channel::<String>();
    match sender.send(task_for(task_type, desc, response_tx)) {
        Ok(_) => {},
        Err(_) => {
            return Exchange::QueueClosed;
        },
    }
    exchange_of_reply(response_rx.recv())
}

/// Hands a task to the workers, waits for its result and renders the
/// response. What comes back depends on the workers; the response is that of
/// one of the three ends of the exchange.
pub fn enqueue_and_reply(sender: &Sender<Task>, task_type: TaskType, desc: &str) -> (response: String)
    ensures
        exists|exchange: ExchangeView| response@ == exchange_response(exchange),
{
    let exchange = submit(sender, task_type, desc);
    let response = render_exchange(exchange);
    response
}

/// Whether a request is refused as a bad request, with some message.
pub open spec fn is_client_error(route: RouteView) -> bool {
    exists|msg: Seq<char>| route == #[trigger] bad_request(msg)
}

/// Whether the server has a route of this name.
pub open spec fn is_known_route(route: Seq<char>) -> bool {
    ||| route == "/fibonacci"@
    ||| route == "/reverse"@
    ||| route == "/toupper"@
    ||| route == "/hash"@
    ||| route == "/sleep"@
    ||| route == "/timestamp"@
    ||| route == "/random"@
    ||| route == "/createfile"@
    ||| route == "/deletefile"@
    ||| route == "/simulate"@
    ||| route == "/loadtest"@
    ||| route == "/help"@
    ||| route == "/status"@
}

/// A request is answered at once only to be refused: on a known route as a
/// bad request, on any other as not found. So a request whose parameters are
/// missing or malformed hands no task to the workers.
pub proof fn lemma_replies_are_refusals(path: Seq<char>)
    ensures
        is_known_route(route_part(path)) && route_of(path) is Reply ==> is_client_error(
            route_of(path),
        ),
        !is_known_route(route_part(path)) ==> route_of(path) == RouteView::Reply(
            response_404("Ruta no encontrada"@),
        ),
{
    let params = query_params(path);
    lemma_simulate_refusals(params);
}

/// Under `/simulate`, an answer given at once is a bad request.
proof fn lemma_simulate_refusals(params: Params)
    ensures
        simulate_route(params) is Reply ==> is_client_error(simulate_route(params)),
{
    if params.contains_key("seconds"@) && params.contains_key("task"@) {
        if let Ok(delay) = unsigned_value(params["seconds"@], u64::MAX as nat) {
            let routed = simulated_route(delay as u64, params["task"@], params);
            assert(routed is Reply ==> is_client_error(routed));
        }
    }
}

/// A request for random numbers whose `min` is not below its `max` is
/// refused as a bad request and hands no task to the workers, whatever its
/// `count`.
pub proof fn lemma_random_needs_min_below_max(path: Seq<char>)
    requires
        route_part(path) == "/random"@,
        i32_param(query_params(path), "min"@) is Some,
        i32_param(query_params(path), "max"@) is Some,
        i32_param(query_params(path), "min"@)->0 >= i32_param(query_params(path), "max"@)->0,
    ensures
        is_client_error(route_of(path)),
{
    reveal_strlit("/random");
    reveal_strlit("/fibonacci");
    reveal_strlit("/reverse");
    reveal_strlit("/toupper");
    reveal_strlit("/hash");
    reveal_strlit("/sleep");
    reveal_strlit("/timestamp");
    let route = route_part(path);
    assert(route.len() == 7 && route[1] == 'r' && route[2] == 'a');
}

/// A delayed request for random numbers is refused as a bad request, and
/// hands no task to the workers, unless all three numbers are there, read as
/// numbers, and `min` is below `max`.
pub proof fn lemma_delayed_random_needs_min_below_max(path: Seq<char>)
    requires
        route_part(path) == "/simulate"@,
        query_params(path).contains_key("seconds"@),
        unsigned_value(query_params(path)["seconds"@], u64::MAX as nat) is Ok,
        query_params(path).contains_key("task"@),
        query_params(path)["task"@] == "random"@,
        usize_param(query_params(path), "count"@) is None || i32_param(
            query_params(path),
            "min"@,
        ) is None || i32_param(query_params(path), "max"@) is None || i32_param(
            query_params(path),
            "min"@,
        )->0 >= i32_param(query_params(path), "max"@)->0,
    ensures
        route_of(path) == bad_request("Faltan paramentros"@),
{
    reveal_strlit("/simulate");
    reveal_strlit("/fibonacci");
    reveal_strlit("/reverse");
    reveal_strlit("/toupper");
    reveal_strlit("/hash");
    reveal_strlit("/sleep");
    reveal_strlit("/timestamp");
    reveal_strlit("/random");
    reveal_strlit("/createfile");
    reveal_strlit("/deletefile");
    reveal_strlit("random");
    reveal_strlit("reverse");
    reveal_strlit("toupper");
    reveal_strlit("fibonacci");
    reveal_strlit("hash");
    reveal_strlit("timestamp");
    let route = route_part(path);
    assert(route.len() == 9 && route[1] == 's' && route[2] == 'i');
    let params = query_params(path);
    let task = params["task"@];
    assert(task.len() == 6 && task[0] == 'r' && task[1] == 'a');
    assert(route_of(path) == simulate_route(params));
}

/// Whether the bounds of the range that an operation draws from are in
/// order, the lower below the upper: true of every operation that draws
/// nothing.
pub open spec fn draws_between_ordered_bounds(op: Operation) -> bool {
    match op {
        Operation::Random { min, max, .. } => min < max,
        Operation::Simulate { inner, .. } => match *inner {
            Operation::Random { min, max, .. } => min < max,
            _ => true,
        },
        _ => true,
    }
}

/// No request makes the workers draw from a range whose `min` is not below
/// its `max`: whatever the path, a task that is handed over, delayed or not,
/// draws between bounds that are in order.
pub proof fn lemma_routed_ranges_are_ordered(path: Seq<char>)
    ensures
        route_of(path) matches RouteView::Dispatch { task, .. } ==> draws_between_ordered_bounds(
            task,
        ),
        route_of(path) matches RouteView::LoadTest { template, .. }
            ==> draws_between_ordered_bounds(template),
{
}

} // verus!
