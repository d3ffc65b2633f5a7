use so_server_rust::error_responses::http_response_500_json;
use so_server_rust::handle_connection::{render_exchange, Exchange};
use so_server_rust::load_test::{
    fan_in, fan_out, load_test, loadtest_task, result_or_marker, LoadTestReport, SAMPLE_SIZE,
};
use so_server_rust::status::status_response;
use so_server_rust::responses::http_response_200;
use so_server_rust::task_queue::{process_task, Task, TaskType, WorkerStatus};
use std::sync::mpsc::channel;

fn texts(items: &[&str]) -> Vec<String> {
    items.iter().map(|s| s.to_string()).collect()
}

fn report_by_format(task_name: &str, count: usize, millis: u128, results: &Vec<String>) -> String {
    let sample = results.iter().take(5).cloned().collect::<Vec<_>>();
    let json = format!(
        "{{\"task\":\"{}\",\"total_tasks\":\"{}\", \"duration_ms\" : {}, \"results_sample\" : {:?}}}",
        task_name, count, millis, sample
    );
    http_response_200(&json)
}

fn status_by_format(pid: u32, uptime: u64, connections: usize, workers: &Vec<WorkerStatus>) -> String {
    let workers_json: Vec<String> = workers
        .iter()
        .map(|w| {
            format!(
                "{{\"id\" : {}, \"status\" : \"{}\", \"description\" : \"{}\"}}",
                w.id,
                if w.busy { "ocupado" } else { "disponible" },
                w.description
            )
        })
        .collect();
    let response = format!(
        "{{\"status\" : 200, \"pid\" : {}, \"uptime_secs\": {}, \"conexiones\": {}, \"workers\" : [{}]}}",
        pid,
        uptime,
        connections,
        workers_json.join(",")
    );
    http_response_200(&response)
}

#[test]
fn each_end_of_an_exchange_has_its_response() {
    assert_eq!(
        render_exchange(Exchange::QueueClosed),
        http_response_500_json("No se pudo encolar la tarea")
    );
    assert_eq!(
        render_exchange(Exchange::ReplyDropped),
        http_response_500_json("Error al recibir resultado de la tarea")
    );
    assert_eq!(render_exchange(Exchange::Replied("cba".to_string())), http_response_200("cba"));
}

#[test]
fn a_report_of_five_tasks_counts_five_and_shows_five_at_most() {
    let results = texts(&["aloh", "aloh", "aloh", "aloh", "aloh"]);
    for name in ["reverse", "toupper", "sha256", "timestamp"] {
        let report = LoadTestReport::summarize(name, 5, 12, &results);
        assert_eq!(report.task, name);
        assert_eq!(report.total_tasks, 5);
        assert_eq!(report.duration_ms, 12);
        assert!(report.results_sample.len() <= 5);
        assert_eq!(report.results_sample, results);
    }
}

#[test]
fn a_report_shows_the_first_results_in_order() {
    assert_eq!(SAMPLE_SIZE, 5);
    let results = texts(&["1", "2", "3", "4", "5", "6", "7"]);
    let report = LoadTestReport::summarize("reverse", 7, 0, &results);
    assert_eq!(report.total_tasks, 7);
    assert_eq!(report.results_sample, texts(&["1", "2", "3", "4", "5"]));
    let few = texts(&["a", "b"]);
    assert_eq!(LoadTestReport::summarize("reverse", 2, 0, &few).results_sample, few);
    let none: Vec<String> = vec![];
    assert!(LoadTestReport::summarize("reverse", 0, 0, &none).results_sample.is_empty());
}

#[test]
fn a_report_is_rendered_as_json() {
    let results = texts(&["aloh", "ERROR en respuesta"]);
    let report = LoadTestReport::summarize("reverse", 2, 15, &results);
    assert_eq!(
        report.render(),
        http_response_200(
            "{\"task\":\"reverse\",\"total_tasks\":\"2\", \"duration_ms\" : 15, \"results_sample\" : [\"aloh\", \"ERROR en respuesta\"]}"
        )
    );
}

#[test]
fn a_report_agrees_with_the_standard_formatting() {
    let cases: Vec<(&str, usize, u128, Vec<String>)> = vec![
        ("reverse", 0, 0, texts(&[])),
        ("toupper", 1, 1, texts(&["HOLA"])),
        ("sha256", 3, 250, texts(&["a\"b", "c\\d", "e\nf"])),
        ("timestamp", 9, u128::MAX, texts(&["1", "2", "3", "4", "5", "6", "7", "8", "9"])),
        ("reverse", 4, 7, texts(&["añó", "\t", "\u{7f}", "🙂'"])),
    ];
    for (name, count, millis, results) in cases {
        let report = LoadTestReport::summarize(name, count, millis, &results);
        assert_eq!(report.render(), report_by_format(name, count, millis, &results));
    }
}

#[test]
fn a_load_test_of_no_tasks_reports_no_results() {
    let (queue, _workers) = channel::<Task>();
    let response = load_test(&queue, "reverse", &TaskType::Reverse("hola".into()), 0);
    assert!(response.starts_with("HTTP/1.0 202 Accepted\r\n"));
    assert!(response.contains("{\"task\":\"reverse\",\"total_tasks\":\"0\", \"duration_ms\" : "));
    assert!(response.ends_with(", \"results_sample\" : []}\"}"));
}

#[test]
fn a_load_test_on_a_closed_queue_is_a_server_error() {
    let (queue, workers) = channel::<Task>();
    drop(workers);
    assert_eq!(
        load_test(&queue, "reverse", &TaskType::Reverse("hola".into()), 5),
        http_response_500_json("Fallo al encolar tarea")
    );
}

#[test]
fn status_lists_each_worker() {
    let workers = vec![
        WorkerStatus { id: 0, busy: false, description: "idle".to_string() },
        WorkerStatus { id: 1, busy: true, description: "Reverse de abc".to_string() },
    ];
    assert_eq!(
        status_response(77, 3, 12, Some(workers)),
        http_response_200(
            "{\"status\" : 200, \"pid\" : 77, \"uptime_secs\": 3, \"conexiones\": 12, \"workers\" : [{\"id\" : 0, \"status\" : \"disponible\", \"description\" : \"idle\"},{\"id\" : 1, \"status\" : \"ocupado\", \"description\" : \"Reverse de abc\"}]}"
        )
    );
}

#[test]
fn status_agrees_with_the_standard_formatting() {
    let none: Vec<WorkerStatus> = vec![];
    assert_eq!(status_response(0, 0, 0, Some(none.clone())), status_by_format(0, 0, 0, &none));
    let pool: Vec<WorkerStatus> = (0..4usize)
        .map(|id| WorkerStatus {
            id,
            busy: id % 2 == 1,
            description: if id % 2 == 1 { format!("Crear archivo 'a{}'", id) } else { "idle".into() },
        })
        .collect();
    assert_eq!(
        status_response(u32::MAX, u64::MAX, usize::MAX, Some(pool.clone())),
        status_by_format(u32::MAX, u64::MAX, usize::MAX, &pool)
    );
}

#[test]
fn status_without_the_table_is_a_server_error() {
    assert_eq!(
        status_response(1, 2, 3, None),
        http_response_500_json("No se pudo accerder a los datos de los workers")
    );
}

#[test]
fn a_load_test_task_copies_its_template() {
    let template = TaskType::Reverse("hola".into());
    let (response_tx, response_rx) = channel();
    let task = loadtest_task("reverse", &template, response_tx);
    assert_eq!(task.description, "Loadtest para reverse");
    assert_eq!(format!("{:?}", task.task_type), format!("{:?}", template));
    assert!(process_task(task).is_none());
    assert_eq!(response_rx.recv(), Ok("aloh".to_string()));
}

#[test]
fn fan_out_sends_every_task_before_any_result() {
    let (queue, workers) = channel::<Task>();
    let receivers = fan_out(&queue, "toupper", &TaskType::Toupper("hola".into()), 5)
        .expect("the queue is open");
    assert_eq!(receivers.len(), 5);
    let mut taken = 0;
    while let Ok(task) = workers.try_recv() {
        assert_eq!(task.description, "Loadtest para toupper");
        assert!(matches!(&task.task_type, TaskType::Toupper(text) if text == "hola"));
        taken += 1;
    }
    assert_eq!(taken, 5);
}

#[test]
fn fan_out_gives_up_on_a_closed_queue() {
    let (queue, workers) = channel::<Task>();
    drop(workers);
    assert!(fan_out(&queue, "reverse", &TaskType::Reverse("a".into()), 3).is_none());
    assert!(fan_out(&queue, "reverse", &TaskType::Reverse("a".into()), 0).is_some());
}

#[test]
fn fan_out_of_no_task_gives_no_receiver_on_any_queue() {
    let (open_queue, _workers) = channel::<Task>();
    let (closed_queue, gone) = channel::<Task>();
    drop(gone);
    for queue in [&open_queue, &closed_queue] {
        let receivers = fan_out(queue, "timestamp", &TaskType::TimeStamp, 0);
        assert_eq!(receivers.map(|r| r.len()), Some(0));
    }
}

#[test]
fn each_result_goes_to_the_task_it_belongs_to() {
    let (queue, workers) = channel::<Task>();
    let receivers =
        fan_out(&queue, "reverse", &TaskType::Reverse("hola".into()), 5).expect("open queue");
    let mut tasks: Vec<(usize, Task)> = Vec::new();
    for i in 0..5 {
        tasks.push((i, workers.recv().unwrap()));
    }
    tasks.reverse();
    for (i, task) in tasks {
        task.response_tx.send(format!("resultado {}", i)).unwrap();
    }
    assert_eq!(
        fan_in(&receivers),
        vec!["resultado 0", "resultado 1", "resultado 2", "resultado 3", "resultado 4"]
    );
}

#[test]
fn a_task_without_a_result_gets_the_marker_and_the_others_their_result() {
    let (queue, workers) = channel::<Task>();
    let receivers =
        fan_out(&queue, "reverse", &TaskType::Reverse("hola".into()), 5).expect("open queue");
    for i in 0..5 {
        let task = workers.recv().unwrap();
        if i == 2 {
            drop(task);
        } else {
            assert!(process_task(task).is_none());
        }
    }
    let results = fan_in(&receivers);
    assert_eq!(results, vec!["aloh", "aloh", "ERROR en respuesta", "aloh", "aloh"]);
    let report = LoadTestReport::summarize("reverse", 5, 3, &results);
    assert_eq!(report.total_tasks, 5);
    assert_eq!(report.results_sample.len(), 5);
}

#[test]
fn a_load_test_of_five_reports_five_whatever_the_template() {
    let templates = vec![
        ("reverse", TaskType::Reverse("hola".into())),
        ("toupper", TaskType::Toupper("hola".into())),
        ("sha256", TaskType::Sha256("hola".into())),
        ("timestamp", TaskType::TimeStamp),
    ];
    for (name, template) in templates {
        let (queue, workers) = channel::<Task>();
        let receivers = fan_out(&queue, name, &template, 5).expect("open queue");
        for _ in 0..5 {
            assert!(process_task(workers.recv().unwrap()).is_none());
        }
        let results = fan_in(&receivers);
        assert_eq!(results.len(), 5);
        let report = LoadTestReport::summarize(name, 5, 0, &results);
        assert_eq!(report.total_tasks, 5);
        assert!(report.results_sample.len() <= 5);
        assert!(report.render().contains("\"total_tasks\":\"5\""));
    }
}

#[test]
fn the_marker_stands_for_a_closed_channel() {
    let (response_tx, response_rx) = channel::<String>();
    response_tx.send("listo".to_string()).unwrap();
    drop(response_tx);
    assert_eq!(result_or_marker(response_rx.recv()), "listo");
    assert_eq!(result_or_marker(response_rx.recv()), "ERROR en respuesta");
}
