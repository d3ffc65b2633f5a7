//! The load test: many copies of one task go to the workers at once, and a
//! report says what came back and how long it took.

use crate::error_responses::{http_response_500_json, response_500};
use crate::responses::{http_response_200, response_200};
use crate::task_queue::{Task, TaskType};
use crate::text::{bracketed, concat, decimal, joined, push_decimal};
use std::sync::mpsc::{channel, Receiver, RecvError, Sender};
use std::time::{Duration, Instant};
use vstd::prelude::*;
use vstd::string::StringExecFns;

verus! {

/// What `{:?}` writes for a text: the text between double quotes, with
/// escapes for quotes, backslashes, line breaks and whatever does not print.
pub uninterp spec fn debug_quoted(s: Seq<char>) -> Seq<char>;

/// The `Debug` form of a `str`, through `format!`: it is a function of the
/// text alone, known here by its name.
#[verifier::external_body]
fn debug_text(s: &str) -> (r: String)
    ensures
        r@ == debug_quoted(s@),
{
    format!("{:?}", s)
}

/// How many results a report shows at most.
pub const SAMPLE_SIZE: usize = 5;

/// The characters of each text.
pub open spec fn texts(v: Seq<String>) -> Seq<Seq<char>> {
    v.map_values(|s: String| s@)
}

/// The first results, `SAMPLE_SIZE` of them at most.
pub open spec fn sample_of(results: Seq<Seq<char>>) -> Seq<Seq<char>> {
    if results.len() <= SAMPLE_SIZE {
        results
    } else {
        results.take(SAMPLE_SIZE as int)
    }
}

/// What a load test found.
#[derive(Debug)]
pub struct LoadTestReport {
    /// The name of the task that was run.
    pub task: String,
    /// How many copies of it were asked for.
    pub total_tasks: usize,
    /// The time from the first submission to the last result, in
    /// milliseconds.
    pub duration_ms: u128,
    /// The first results, in the order of submission.
    pub results_sample: Vec<String>,
}

/// The JSON text of a report.
pub open spec fn report_json(
    task: Seq<char>,
    total_tasks: usize,
    duration_ms: u128,
    sample: Seq<Seq<char>>,
) -> Seq<char> {
    "{\"task\":\""@ + task + "\",\"total_tasks\":\""@ + decimal(total_tasks as nat)
        + "\", \"duration_ms\" : "@ + decimal(duration_ms as nat) + ", \"results_sample\" : "@
        + bracketed(sample.map_values(|s: Seq<char>| debug_quoted(s))) + "}"@
}

impl LoadTestReport {
    /// The report of a load test: the name and the count as given, the time
    /// it took, and the first results.
    pub fn summarize(
        task_name: &str,
        count: usize,
        duration_ms: u128,
        results: &Vec<String>,
    ) -> (report: Self)
        ensures
            report.task@ == task_name@,
            report.total_tasks == count,
            report.duration_ms == duration_ms,
            texts(report.results_sample@) == sample_of(texts(results@)),
            report.results_sample.len() <= SAMPLE_SIZE,
    {
        let mut sample: Vec<String> = Vec::new();
        let mut i: usize = 0;
        while i < results.len() && i < SAMPLE_SIZE
            invariant
                i <= results.len(),
                i <= SAMPLE_SIZE,
                texts(sample@) == texts(results@).take(i as int),
            decreases results.len() - i,
        {
            sample.push(results[i].clone());
            assert(texts(results@).take(i + 1) =~= texts(results@).take(i as int).push(
                results@[i as int]@,
            ));
            i += 1;
        }
        LoadTestReport {
            task: String::from_str(task_name),
            total_tasks: count,
            duration_ms,
            results_sample: sample,
        }
    }

    /// Renders the report as the response to the request.
    pub fn render(&self) -> (response: String)
        ensures
            response@ == response_200(
                report_json(
                    self.task@,
                    self.total_tasks,
                    self.duration_ms,
                    texts(self.results_sample@),
                ),
            ),
    {
        let ghost quoted = texts(self.results_sample@).map_values(|s: Seq<char>| debug_quoted(s));
        let mut json = String::from_str("{\"task\":\"");
        json.append(self.task.as_str());
        json.append("\",\"total_tasks\":\"");
        push_decimal(&mut json, self.total_tasks as u128);
        json.append("\", \"duration_ms\" : ");
        push_decimal(&mut json, self.duration_ms);
        json.append(", \"results_sample\" : ");
        let ghost head = json@;
        json.push('[');
        let mut i: usize = 0;
        while i < self.results_sample.len()
            invariant
                i <= self.results_sample.len(),
                quoted == texts(self.results_sample@).map_values(|s: Seq<char>| debug_quoted(s)),
                json@ == head + seq!['['] + joined(quoted.take(i as int), seq![',', ' ']),
            decreases self.results_sample.len() - i,
        {
            if i > 0 {
                json.push(',');
                json.push(' ');
            }
            let item = debug_text(self.results_sample[i].as_str());
            json.append(item.as_str());
            assert(quoted.take(i + 1).drop_last() == quoted.take(i as int));
            i += 1;
        }
        assert(quoted.take(self.results_sample.len() as int) == quoted);
        json.push(']');
        assert(json@ == head + bracketed(quoted));
        json.append("}");
        http_response_200(json.as_str())
    }
}

/// `std::time::Instant`, a point in time on the monotonic clock.
#[verifier::external_type_specification]
#[verifier::external_body]
pub struct ExInstant(Instant);

/// `Instant::now` reads the monotonic clock.
pub assume_specification[ Instant::now ]() -> (now: Instant)
;

/// `Instant::elapsed` says how much time has passed since the instant.
pub assume_specification[ Instant::elapsed ](start: &Instant) -> (elapsed: Duration)
;

/// `Duration::as_millis` gives the whole milliseconds of a duration.
pub assume_specification[ Duration::as_millis ](duration: &Duration) -> (millis: u128)
;

/// The description of each task of a load test.
pub open spec fn loadtest_description(task_name: Seq<char>) -> Seq<char> {
    "Loadtest para "@ + task_name
}

/// One task of a load test: a copy of the template, under the description of
/// the test, with a channel of its own.
pub fn loadtest_task(
    task_name: &str,
    template: &TaskType,
    response_tx: Sender<String>,
) -> (task: Task)
    ensures
        task.description@ == loadtest_description(task_name@),
        task.task_type == *template,
        task.response_tx == response_tx,
{
    Task {
        description: concat("Loadtest para ", task_name),
        task_type: template.clone(),
        response_tx,
    }
}

/// Sends `count` copies of `template` to the queue, each with a channel of
/// its own, without waiting between them. Gives the receiving halves in the
/// order of submission, or nothing as soon as the queue takes no task. Where
/// no task is asked for, nothing is sent and nothing can fail: the result is
/// the empty list of receiving halves, whatever the state of the queue.
pub fn fan_out(
    sender: &Sender<Task>,
    task_name: &str,
    template: &TaskType,
    count: usize,
) -> (r: Option<Vec<Receiver<String>>>)
    ensures
        r matches Some(receivers) ==> receivers.len() == count,
        count == 0 ==> r is Some,
{
    let mut receivers: Vec<Receiver<String>> = Vec::new();
    let mut i: usize = 0;
    while i < count
        invariant
            i <= count,
            receivers.len() == i,
        decreases count - i,
    {
        let (response_tx, response_rx) = channel::<String>();
        match sender.send(loadtest_task(task_name, template, response_tx)) {
            Ok(_) => {},
            Err(_) => {
                return None;
            },
        }
        receivers.push(response_rx);
        i += 1;
    }
    Some(receivers)
}

/// What stands for a result that never came.
pub open spec fn missing_result() -> Seq<char> {
    "ERROR en respuesta"@
}

/// The result that a channel gave, or the marker of a missing result where
/// the channel closed without one.
pub fn result_or_marker(received: Result<String, RecvError>) -> (text: String)
    ensures
        match received {
            Ok(result) => text == result,
            Err(_) => text@ == missing_result(),
        },
{
    match received {
        Ok(result) => result,
        Err(_) => String::from_str("ERROR en respuesta"),
    }
}

/// Waits for the result of each task, in the order of submission. A channel
/// that closes without a result gives the marker of a missing result, and the
/// others are still waited for.
pub fn fan_in(receivers: &Vec<Receiver<String>>) -> (results: Vec<String>)
    ensures
        results.len() == receivers.len(),
{
    let mut results: Vec<String> = Vec::new();
    let mut i: usize = 0;
    while i < receivers.len()
        invariant
            i <= receivers.len(),
            results.len() == i,
        decreases receivers.len() - i,
    {
        results.push(result_or_marker(receivers[i].recv()));
        i += 1;
    }
    results
}

/// Runs a load test: `count` copies of `template` go to the workers at once,
/// all their results are waited for, and the time this took is measured. The
/// response is a server error where the queue takes no task, and else the
/// report on exactly `count` results. A test of no task sends nothing, so
/// nothing can fail: its response is the report without results, whatever
/// the state of the queue.
pub fn load_test(
    sender: &Sender<Task>,
    task_name: &str,
    template: &TaskType,
    count: usize,
) -> (response: String)
    ensures
        response@ == response_500("Fallo al encolar tarea"@) || exists|
            duration_ms: u128,
            results: Seq<Seq<char>>,
        |
            #![auto]
            results.len() == count && response@ == response_200(
                report_json(task_name@, count, duration_ms, sample_of(results)),
            ),
        count == 0 ==> exists|duration_ms: u128|
            #![auto]
            response@ == response_200(
                report_json(task_name@, count, duration_ms, Seq::<Seq<char>>::empty()),
            ),
{
    let start = Instant::now();
    let receivers = match fan_out(sender, task_name, template, count) {
        Some(receivers) => receivers,
        None => {
            return http_response_500_json("Fallo al encolar tarea");
        },
    };
    let results = fan_in(&receivers);
    let elapsed = start.elapsed();
    let duration_ms = elapsed.as_millis();
    let report = LoadTestReport::summarize(task_name, count, duration_ms, &results);
    let response = report.render();
    proof {
        if count == 0 {
            assert(texts(results@) =~= Seq::<Seq<char>>::empty());
            assert(texts(report.results_sample@) =~= Seq::<Seq<char>>::empty());
        }
    }
    response
}

} // verus!
