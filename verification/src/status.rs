//! The report on the state of the server.

use crate::error_responses::{http_response_500_json, response_500};
use crate::responses::{http_response_200, response_200};
use crate::task_queue::{WorkerStatus, WorkerStatusView};
use crate::text::{decimal, joined, push_decimal};
use vstd::prelude::*;
use vstd::string::StringExecFns;

verus! {

/// The JSON text for one worker.
pub open spec fn worker_json(w: WorkerStatusView) -> Seq<char> {
    "{\"id\" : "@ + decimal(w.id as nat) + ", \"status\" : \""@ + (if w.busy {
        "ocupado"@
    } else {
        "disponible"@
    }) + "\", \"description\" : \""@ + w.description + "\"}"@
}

/// The JSON text of the state of the server.
pub open spec fn status_json(
    pid: u32,
    uptime_secs: u64,
    connections: usize,
    workers: Seq<WorkerStatusView>,
) -> Seq<char> {
    "{\"status\" : 200, \"pid\" : "@ + decimal(pid as nat) + ", \"uptime_secs\": "@ + decimal(
        uptime_secs as nat,
    ) + ", \"conexiones\": "@ + decimal(connections as nat) + ", \"workers\" : ["@ + joined(
        workers.map_values(|w: WorkerStatusView| worker_json(w)),
        seq![','],
    ) + "]}"@
}

/// The response to a request for the state of the server: a server error
/// where the table of workers could not be read.
pub open spec fn status_of(
    pid: u32,
    uptime_secs: u64,
    connections: usize,
    workers: Option<Seq<WorkerStatusView>>,
) -> Seq<char> {
    match workers {
        Some(slots) => response_200(status_json(pid, uptime_secs, connections, slots)),
        None => response_500("No se pudo accerder a los datos de los workers"@),
    }
}

/// The state of each worker.
pub open spec fn statuses(v: Seq<WorkerStatus>) -> Seq<WorkerStatusView> {
    v.map_values(|w: WorkerStatus| w@)
}

fn push_worker_json(out: &mut String, w: &WorkerStatus)
    ensures
        final(out)@ == old(out)@ + worker_json(w@),
{
    out.append("{\"id\" : ");
    push_decimal(out, w.id as u128);
    out.append(", \"status\" : \"");
    if w.busy {
        out.append("ocupado");
    } else {
        out.append("disponible");
    }
    out.append("\", \"description\" : \"");
    out.append(w.description.as_str());
    out.append("\"}");
}

/// Renders the state of the server: the process, how long it has run, how
/// many connections it has taken, and what each worker is doing. `workers`
/// is a snapshot of the table, or nothing where the table could not be read.
pub fn status_response(
    pid: u32,
    uptime_secs: u64,
    connections: usize,
    workers: Option<Vec<WorkerStatus>>,
) -> (response: String)
    ensures
        response@ == status_of(
            pid,
            uptime_secs,
            connections,
            match workers {
                Some(v) => Some(statuses(v@)),
                None => None,
            },
        ),
{
    let workers = match workers {
        Some(v) => v,
        None => {
            return http_response_500_json("No se pudo accerder a los datos de los workers");
        },
    };
    let ghost items = statuses(workers@).map_values(|w: WorkerStatusView| worker_json(w));
    let mut json = String::from_str("{\"status\" : 200, \"pid\" : ");
    push_decimal(&mut json, pid as u128);
    json.append(", \"uptime_secs\": ");
    push_decimal(&mut json, uptime_secs as u128);
    json.append(", \"conexiones\": ");
    push_decimal(&mut json, connections as u128);
    json.append(", \"workers\" : [");
    let ghost head = json@;
    let mut i: usize = 0;
    while i < workers.len()
        invariant
            i <= workers.len(),
            items == statuses(workers@).map_values(|w: WorkerStatusView| worker_json(w)),
            json@ == head + joined(items.take(i as int), seq![',']),
        decreases workers.len() - i,
    {
        if i > 0 {
            json.push(',');
        }
        push_worker_json(&mut json, &workers[i]);
        assert(items.take(i + 1).drop_last() == items.take(i as int));
        i += 1;
    }
    assert(items.take(workers.len() as int) == items);
    json.append("]}");
    http_response_200(json.as_str())
}

} // verus!
