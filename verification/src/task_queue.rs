//! The task model, the steps a worker takes for a task, and the table of
//! worker states.

use crate::endpoints::{
    checked_fibonacci, create_file_reply, create_reply, delete_file_reply, delete_reply, fib,
    file_path, generate_random_numbers, hex_lower, invalid_name_message, is_utc_stamp,
    is_valid_name, number_texts, render_numbers, rerverse_text, sha256, sha256_hash,
    storage_path, timestamp_iso, to_uppercase, uppercase, CreateOutcome, DeleteOutcome,
    FIB_MAX_INDEX,
};
use crate::text::{bracketed, decimal, push_decimal};
use std::sync::mpsc::{channel, Receiver, RecvError, SendError, Sender};
use vstd::prelude::*;
use vstd::string::StringExecFns;
use vstd::utf8::encode_utf8;

verus! {

/// `std::sync::mpsc::Sender`, the sending half of a channel.
#[verifier::external_type_specification]
#[verifier::external_body]
#[verifier::reject_recursive_types(T)]
pub struct ExSender<T>(Sender<T>);

/// `std::sync::mpsc::Receiver`, the receiving half of a channel.
#[verifier::external_type_specification]
#[verifier::external_body]
#[verifier::reject_recursive_types(T)]
pub struct ExReceiver<T>(Receiver<T>);

/// `std::sync::mpsc::SendError`: the value that could not be sent.
#[verifier::external_type_specification]
#[verifier::external_body]
#[verifier::reject_recursive_types(T)]
pub struct ExSendError<T>(SendError<T>);

/// `std::sync::mpsc::RecvError`: nothing will ever arrive.
#[verifier::external_type_specification]
#[verifier::external_body]
pub struct ExRecvError(RecvError);

/// `std::sync::mpsc::channel` makes a new channel and returns its two halves.
pub assume_specification<T>[ channel::<T> ]() -> (r: (Sender<T>, Receiver<T>))
;

/// `Sender::send` hands a value to the channel. Whether it succeeds depends
/// on whether the receiving half is still there.
pub assume_specification<T>[ Sender::<T>::send ](sender: &Sender<T>, t: T) -> (r: Result<
    (),
    SendError<T>,
>)
;

/// `Receiver::recv` waits for the next value of the channel. What arrives,
/// if anything, depends on what the senders do.
pub assume_specification<T>[ Receiver::<T>::recv ](receiver: &Receiver<T>) -> (r: Result<
    T,
    RecvError,
>)
;

/// The work that a task asks for, with its arguments.
#[derive(Debug)]
pub enum TaskType {
    /// Reverse a text.
    Reverse(String),
    /// Turn a text into upper case.
    Toupper(String),
    /// Hash a text with SHA-256.
    Sha256(String),
    /// Compute a Fibonacci number.
    Fibonacci(u64),
    /// Block for a number of seconds.
    Sleep(u64),
    /// Report the current time.
    TimeStamp,
    /// Draw `count` integers between `min` and `max`, both included.
    Random { count: usize, min: i32, max: i32 },
    /// Create a file with a content.
    CreateFile { name: String, content: String },
    /// Delete a file.
    DeleteFile(String),
    /// Block for `delay` seconds, then do `inner`.
    Simulate { delay: u64, inner: Box<TaskType> },
    /// List what the server offers.
    Help,
}

/// A `TaskType` with its texts as sequences of characters.
pub enum Operation {
    Reverse(Seq<char>),
    Toupper(Seq<char>),
    Sha256(Seq<char>),
    Fibonacci(u64),
    Sleep(u64),
    TimeStamp,
    Random { count: usize, min: i32, max: i32 },
    CreateFile { name: Seq<char>, content: Seq<char> },
    DeleteFile(Seq<char>),
    Simulate { delay: u64, inner: Box<Operation> },
    Help,
}

/// The operation that a task type stands for.
pub open spec fn operation_of(task_type: TaskType) -> Operation
    decreases task_type,
{
    match task_type {
        TaskType::Reverse(s) => Operation::Reverse(s@),
        TaskType::Toupper(s) => Operation::Toupper(s@),
        TaskType::Sha256(s) => Operation::Sha256(s@),
        TaskType::Fibonacci(n) => Operation::Fibonacci(n),
        TaskType::Sleep(n) => Operation::Sleep(n),
        TaskType::TimeStamp => Operation::TimeStamp,
        TaskType::Random { count, min, max } => Operation::Random { count, min, max },
        TaskType::CreateFile { name, content } => Operation::CreateFile {
            name: name@,
            content: content@,
        },
        TaskType::DeleteFile(s) => Operation::DeleteFile(s@),
        TaskType::Simulate { delay, inner } => Operation::Simulate {
            delay,
            inner: Box::new(operation_of(*inner)),
        },
        TaskType::Help => Operation::Help,
    }
}

impl View for TaskType {
    type V = Operation;

    open spec fn view(&self) -> Operation {
        operation_of(*self)
    }
}

impl Clone for TaskType {
    fn clone(&self) -> (r: Self)
        ensures
            r == *self,
        decreases *self,
    {
        match self {
            TaskType::Reverse(s) => TaskType::Reverse(s.clone()),
            TaskType::Toupper(s) => TaskType::Toupper(s.clone()),
            TaskType::Sha256(s) => TaskType::Sha256(s.clone()),
            TaskType::Fibonacci(n) => TaskType::Fibonacci(*n),
            TaskType::Sleep(n) => TaskType::Sleep(*n),
            TaskType::TimeStamp => TaskType::TimeStamp,
            TaskType::Random { count, min, max } => TaskType::Random {
                count: *count,
                min: *min,
                max: *max,
            },
            TaskType::CreateFile { name, content } => TaskType::CreateFile {
                name: name.clone(),
                content: content.clone(),
            },
            TaskType::DeleteFile(s) => TaskType::DeleteFile(s.clone()),
            TaskType::Simulate { delay, inner } => {
                let copy = (**inner).clone();
                TaskType::Simulate { delay: *delay, inner: Box::new(copy) }
            },
            TaskType::Help => TaskType::Help,
        }
    }
}

/// A unit of work on its way to a worker: what to do, a label for the status
/// report, and the channel that takes the result back to who asked.
#[derive(Debug)]
pub struct Task {
    pub description: String,
    pub task_type: TaskType,
    pub response_tx: Sender<String>,
}

/// What one worker is doing.
#[derive(Debug)]
pub struct WorkerStatus {
    pub id: usize,
    pub busy: bool,
    pub description: String,
}

impl Clone for WorkerStatus {
    fn clone(&self) -> (copy: Self)
        ensures
            copy == *self,
    {
        WorkerStatus { id: self.id, busy: self.busy, description: self.description.clone() }
    }
}

/// The list of what the server offers, as sent in answer to `Help`.
pub const HELP_CATALOG: &'static str = "\"endpoints\" : [
            {\"path\" : \"reverse\", 
            \"description\" : \"Invierte el texto recibido\", 
            \"params\" : [\"text: texto que se desea invertir\"], 
            \"example\" : \"/reverse?text=abc\"},
            {\"path\" : \"toupper\", \"description\" : \"Convierte el texto a mayúsculas\", \"params\" : [\"text: texto a convertir\"], \"example\" : \"/toupper?text=hola\"},
            {\"path\" : \"sha256\", \"description\" : \"Devuelve el hash SHA-256 del texto\", \"params\" : [\"text: texto a hashear\"], \"example\" : \"/sha256?text=hola\"},
            {\"path\" : \"fibonacci\", \"description\" : \"Calcula el n-ésimo número de Fibonacci (recursivo)\", \"params\" : [\"num: número a calcular\"], \"example\" : \"/fibonacci?num=10\"},
            {\"path\" : \"random\", \"description\" : \"Genera una lista de números aleatorios\", \"params\" : [\"count: cantidad\", \"min: mínimo\", \"max: máximo\"], \"example\" : \"/random?count=5&min=10&max=100\"},
            {\"path\" : \"timestamp\", \"description\" : \"Devuelve la hora actual en formato ISO\", \"params\" : [], \"example\" : \"/timestamp\"},
            {\"path\" : \"sleep\", \"description\" : \"Simula una espera bloqueante de N segundos\", \"params\" : [\"seconds: segundos a esperar\"], \"example\" : \"/sleep?seconds=3\"},
            {\"path\" : \"createfile\", \"description\" : \"Crea un archivo con el contenido indicado\", \"params\" : [\"name: nombre del archivo\", \"content: contenido\"], \"example\" : \"/createfile?name=miarchivo&content=hola\"},
            {\"path\" : \"deletefile\", \"description\" : \"Elimina un archivo existente\", \"params\" : [\"name: nombre del archivo\"], \"example\" : \"/deletefile?name=miarchivo\"},
            {\"path\" : \"simulate\", \"description\" : \"Simula un endpoint como reverse, toupper, etc., con retardo\", \"params\" : [\"seconds: retardo\", \"task: nombre del endpoint interno\", \"otros: según la tarea\"], \"example\" : \"/simulate?seconds=2&task=reverse&text=hola\"},
            {\"path\" : \"loadtest\", \"description\" : \"Encola múltiples tareas para medir carga del sistema\", \"params\" : [\"task: tipo de tarea\", \"count: cuántas tareas\", \"text: valor base si aplica\"], \"example\" : \"/loadtest?task=reverse&count=5&text=hola\"},
            {\"path\" : \"help\", \"description\" : \"Devuelve este manual de uso de endpoints\", \"params\" : [], \"example\" : \"/help\"},
            ]";

/// What a worker does next for a task.
#[derive(Debug)]
pub enum Step {
    /// The result is there: send it.
    Reply(String),
    /// Block for `seconds`, then send `text`.
    SleepThenReply { seconds: u64, text: String },
    /// Block for `seconds`, then take the step of `inner`.
    SleepThenRun { seconds: u64, inner: TaskType },
    /// Create the file at `path` with `content`, then send what
    /// `create_file_reply` says of the outcome.
    CreateFile { path: String, content: String },
    /// Remove the file at `path`, then send what `delete_file_reply` says of
    /// the outcome.
    DeleteFile { path: String },
}

/// A `Step` with its texts as sequences of characters.
pub enum StepView {
    Reply(Seq<char>),
    SleepThenReply { seconds: u64, text: Seq<char> },
    SleepThenRun { seconds: u64, inner: Operation },
    CreateFile { path: Seq<char>, content: Seq<char> },
    DeleteFile { path: Seq<char> },
}

impl View for Step {
    type V = StepView;

    open spec fn view(&self) -> StepView {
        match self {
            Step::Reply(text) => StepView::Reply(text@),
            Step::SleepThenReply { seconds, text } => StepView::SleepThenReply {
                seconds: *seconds,
                text: text@,
            },
            Step::SleepThenRun { seconds, inner } => StepView::SleepThenRun {
                seconds: *seconds,
                inner: inner@,
            },
            Step::CreateFile { path, content } => StepView::CreateFile {
                path: path@,
                content: content@,
            },
            Step::DeleteFile { path } => StepView::DeleteFile { path: path@ },
        }
    }
}

/// The result of `Fibonacci(n)`: the number in decimal, or a sentence where
/// the number does not fit in 64 bits.
pub open spec fn fibonacci_reply(n: u64) -> Seq<char> {
    if n <= FIB_MAX_INDEX {
        decimal(fib(n as nat))
    } else {
        "El resultado de Fibonacci para "@ + decimal(n as nat) + " no cabe en 64 bits"@
    }
}

/// The confirmation sent after `Sleep(n)`.
pub open spec fn sleep_reply(n: u64) -> Seq<char> {
    "Simulado por "@ + decimal(n as nat) + " segundos"@
}

/// Whether `text` is a possible result of `Random { count, min, max }`: a
/// list of `count` numbers of the range, or a sentence where the range is
/// empty.
pub open spec fn is_random_reply(count: usize, min: i32, max: i32, text: Seq<char>) -> bool {
    if min <= max {
        exists|values: Seq<i32>|
            {
                &&& values.len() == count
                &&& forall|i: int| 0 <= i < values.len() ==> min <= #[trigger] values[i] <= max
                &&& text == bracketed(number_texts(values))
            }
    } else {
        text == "El paràmetro 'min' no puede ser mayor que el paràmetro 'max'"@
    }
}

/// Whether `step` is what a worker does next for `op`. All operations but
/// two have exactly one such step; `TimeStamp` depends on the clock and
/// `Random` on chance.
pub open spec fn is_step_of(op: Operation, step: StepView) -> bool {
    match op {
        Operation::Reverse(s) => step == StepView::Reply(s.reverse()),
        Operation::Toupper(s) => step == StepView::Reply(uppercase(s)),
        Operation::Sha256(s) => step == StepView::Reply(hex_lower(sha256(encode_utf8(s)))),
        Operation::Fibonacci(n) => step == StepView::Reply(fibonacci_reply(n)),
        Operation::Sleep(n) => step == (StepView::SleepThenReply {
            seconds: n,
            text: sleep_reply(n),
        }),
        Operation::TimeStamp => step matches StepView::Reply(text) && is_utc_stamp(text),
        Operation::Random { count, min, max } => step matches StepView::Reply(text)
            && is_random_reply(count, min, max, text),
        Operation::CreateFile { name, content } => if is_valid_name(name) {
            step == (StepView::CreateFile { path: storage_path(name), content })
        } else {
            step == StepView::Reply(invalid_name_message())
        },
        Operation::DeleteFile(name) => if is_valid_name(name) {
            step == (StepView::DeleteFile { path: storage_path(name) })
        } else {
            step == StepView::Reply(invalid_name_message())
        },
        Operation::Simulate { delay, inner } => step == (StepView::SleepThenRun {
            seconds: delay,
            inner: *inner,
        }),
        Operation::Help => step == StepView::Reply(HELP_CATALOG@),
    }
}

/// Decides what a worker does next for a task: the result where nothing
/// outside is needed for it, else the outside work and what follows it.
/// Failures of the work itself come back as the text of the result.
pub fn next_step(task_type: TaskType) -> (step: Step)
    ensures
        is_step_of(task_type@, step@),
{
    match task_type {
        TaskType::Reverse(s) => Step::Reply(rerverse_text(s.as_str())),
        TaskType::Toupper(s) => Step::Reply(to_uppercase(s.as_str())),
        TaskType::Sha256(s) => Step::Reply(sha256_hash(s.as_str())),
        TaskType::Fibonacci(n) => {
            let mut text = String::new();
            match checked_fibonacci(n) {
                Some(value) => push_decimal(&mut text, value as u128),
                None => {
                    text.append("El resultado de Fibonacci para ");
                    push_decimal(&mut text, n as u128);
                    text.append(" no cabe en 64 bits");
                },
            }
            Step::Reply(text)
        },
        TaskType::Sleep(n) => {
            let mut text = String::from_str("Simulado por ");
            push_decimal(&mut text, n as u128);
            text.append(" segundos");
            Step::SleepThenReply { seconds: n, text }
        },
        TaskType::TimeStamp => Step::Reply(timestamp_iso()),
        TaskType::Random { count, min, max } => {
            if min <= max {
                let values = generate_random_numbers(count, min, max);
                Step::Reply(render_numbers(&values))
            } else {
                Step::Reply(
                    String::from_str("El paràmetro 'min' no puede ser mayor que el paràmetro 'max'"),
                )
            }
        },
        TaskType::CreateFile { name, content } => match file_path(name.as_str()) {
            Ok(path) => Step::CreateFile { path, content },
            Err(msg) => Step::Reply(msg),
        },
        TaskType::DeleteFile(name) => match file_path(name.as_str()) {
            Ok(path) => Step::DeleteFile { path },
            Err(msg) => Step::Reply(msg),
        },
        TaskType::Simulate { delay, inner } => Step::SleepThenRun { seconds: delay, inner: *inner },
        TaskType::Help => Step::Reply(String::from_str(HELP_CATALOG)),
    }
}

/// The text of a result, be it a success or a failure: both go back to the
/// submitter as text.
pub open spec fn either_text(r: Result<Seq<char>, Seq<char>>) -> Seq<char> {
    match r {
        Ok(text) => text,
        Err(text) => text,
    }
}

/// What came of the outside work that a task waited for.
#[derive(Debug, Clone, Copy, PartialEq, Eq, Structural)]
pub enum Event {
    /// The time to sleep is over.
    Woke,
    /// The creation of the file ended so.
    Created(CreateOutcome),
    /// The removal of the file ended so.
    Deleted(DeleteOutcome),
}

/// How a task goes on after an event.
#[derive(Debug)]
pub enum Next {
    /// The task ends with this result: send it.
    Reply(String),
    /// The task goes on as this one.
    Run(TaskType),
    /// The event was not the end of the outside work: the step stands.
    Wait(Step),
}

/// A `Next` with its texts as sequences of characters.
pub enum NextView {
    Reply(Seq<char>),
    Run(Operation),
    Wait(StepView),
}

impl View for Next {
    type V = NextView;

    open spec fn view(&self) -> NextView {
        match self {
            Next::Reply(text) => NextView::Reply(text@),
            Next::Run(inner) => NextView::Run(inner@),
            Next::Wait(step) => NextView::Wait(step@),
        }
    }
}

/// How a task on `step` goes on after `event`. A result that is there is
/// sent whatever the event. Once the sleep is over, the confirmation is sent,
/// or the wrapped task is taken up. Once the file work is over, what is said
/// of its outcome is sent, success and failure alike. Any other event leaves
/// the step as it is.
pub open spec fn next_of(step: StepView, event: Event) -> NextView {
    match (step, event) {
        (StepView::Reply(text), _) => NextView::Reply(text),
        (StepView::SleepThenReply { text, .. }, Event::Woke) => NextView::Reply(text),
        (StepView::SleepThenRun { inner, .. }, Event::Woke) => NextView::Run(inner),
        (StepView::CreateFile { path, .. }, Event::Created(outcome)) => NextView::Reply(
            either_text(create_reply(path, outcome)),
        ),
        (StepView::DeleteFile { path }, Event::Deleted(outcome)) => NextView::Reply(
            either_text(delete_reply(path, outcome)),
        ),
        _ => NextView::Wait(step),
    }
}

/// Decides how a task on `step` goes on after `event`.
pub fn step_after(step: Step, event: Event) -> (next: Next)
    ensures
        next@ == next_of(step@, event),
{
    match (step, event) {
        (Step::Reply(text), _) => Next::Reply(text),
        (Step::SleepThenReply { seconds, text }, Event::Woke) => Next::Reply(text),
        (Step::SleepThenRun { seconds, inner }, Event::Woke) => Next::Run(inner),
        (Step::CreateFile { path, content }, Event::Created(outcome)) => Next::Reply(
            text_of_result(create_file_reply(path.as_str(), outcome)),
        ),
        (Step::DeleteFile { path }, Event::Deleted(outcome)) => Next::Reply(
            text_of_result(delete_file_reply(path.as_str(), outcome)),
        ),
        (step, _) => Next::Wait(step),
    }
}

/// A task whose worker has outside work to do before it can go on: `step`
/// says which.
#[derive(Debug)]
pub struct Suspended {
    pub description: String,
    pub step: Step,
    pub response_tx: Sender<String>,
}

/// Sends the result of a task to who asked for it. A submitter that has gone
/// away is no failure: the result is dropped.
fn send_reply(response_tx: &Sender<String>, text: String) {
    let _ = response_tx.send(text);
}

/// Takes a task as far as it goes without outside work. Where the result is
/// there, it is sent through the task's channel and nothing is left to do.
/// Otherwise the task comes back suspended, under the same description and
/// with the same channel, on the step that its worker must take.
pub fn process_task(task: Task) -> (r: Option<Suspended>)
    ensures
        match r {
            None => exists|text: Seq<char>| is_step_of(task.task_type@, StepView::Reply(text)),
            Some(suspended) => {
                &&& suspended.description == task.description
                &&& suspended.response_tx == task.response_tx
                &&& !(suspended.step is Reply)
                &&& is_step_of(task.task_type@, suspended.step@)
            },
        },
{
    let Task { description, task_type, response_tx } = task;
    let step = next_step(task_type);
    match step {
        Step::Reply(text) => {
            send_reply(&response_tx, text);
            None
        },
        _ => Some(Suspended { description, step, response_tx }),
    }
}

/// Goes on with a suspended task after `event`, as `step_after` decides: the
/// result is sent and nothing is left to do; or the wrapped task is taken up
/// in place, under the same description and with the same channel; or the
/// task stays as it is.
pub fn resume(suspended: Suspended, event: Event) -> (r: Option<Suspended>)
    ensures
        match next_of(suspended.step@, event) {
            NextView::Reply(_) => r is None,
            NextView::Run(inner) => match r {
                None => exists|text: Seq<char>| is_step_of(inner, StepView::Reply(text)),
                Some(next) => {
                    &&& next.description == suspended.description
                    &&& next.response_tx == suspended.response_tx
                    &&& !(next.step is Reply)
                    &&& is_step_of(inner, next.step@)
                },
            },
            NextView::Wait(step) => r matches Some(same) && same.description
                == suspended.description && same.response_tx == suspended.response_tx
                && same.step@ == step,
        },
{
    let Suspended { description, step, response_tx } = suspended;
    match step_after(step, event) {
        Next::Reply(text) => {
            send_reply(&response_tx, text);
            None
        },
        Next::Run(inner) => process_task(Task { description, task_type: inner, response_tx }),
        Next::Wait(step) => Some(Suspended { description, step, response_tx }),
    }
}

/// The text of a result, be it a success or a failure.
pub fn text_of_result(r: Result<String, String>) -> (text: String)
    ensures
        text@ == either_text(crate::endpoints::result_view(r)),
{
    match r {
        Ok(text) => text,
        Err(text) => text,
    }
}

/// How many workers serve the queue.
pub const WORKER_COUNT: usize = 4;

/// A `WorkerStatus` with its description as a sequence of characters.
pub struct WorkerStatusView {
    pub id: usize,
    pub busy: bool,
    pub description: Seq<char>,
}

impl View for WorkerStatus {
    type V = WorkerStatusView;

    open spec fn view(&self) -> WorkerStatusView {
        WorkerStatusView { id: self.id, busy: self.busy, description: self.description@ }
    }
}

/// The description of a worker that has no task.
pub open spec fn idle_label() -> Seq<char> {
    "idle"@
}

/// The state of worker `id` while it has no task.
pub open spec fn idle_status(id: usize) -> WorkerStatusView {
    WorkerStatusView { id, busy: false, description: idle_label() }
}

/// The state of worker `id` while it works on a task with this description.
pub open spec fn busy_status(id: usize, description: Seq<char>) -> WorkerStatusView {
    WorkerStatusView { id, busy: true, description }
}

/// Whether some slot belongs to worker `id`.
pub open spec fn has_worker(slots: Seq<WorkerStatusView>, id: usize) -> bool {
    exists|i: int| 0 <= i < slots.len() && (#[trigger] slots[i]).id == id
}

/// Whether no two slots belong to the same worker.
pub open spec fn distinct_workers(slots: Seq<WorkerStatusView>) -> bool {
    forall|i: int, j: int|
        0 <= i < j < slots.len() ==> (#[trigger] slots[i]).id != (#[trigger] slots[j]).id
}

/// The slots once the slot of worker `id` is set to `status`; the same slots
/// where the worker has none.
pub open spec fn with_status(
    slots: Seq<WorkerStatusView>,
    id: usize,
    status: WorkerStatusView,
) -> Seq<WorkerStatusView> {
    Seq::new(
        slots.len(),
        |i: int|
            if slots[i].id == id {
                status
            } else {
                slots[i]
            },
    )
}

/// How many workers are marked busy.
pub open spec fn busy_count(slots: Seq<WorkerStatusView>) -> nat
    decreases slots.len(),
{
    if slots.len() == 0 {
        0
    } else {
        busy_count(slots.drop_last()) + if slots.last().busy {
            1nat
        } else {
            0nat
        }
    }
}

/// The table of worker states: one slot for each worker that has registered,
/// at most `WORKER_COUNT` of them, no two for the same worker.
#[derive(Debug)]
pub struct WorkerTable {
    slots: Vec<WorkerStatus>,
}

impl View for WorkerTable {
    type V = Seq<WorkerStatusView>;

    closed spec fn view(&self) -> Seq<WorkerStatusView> {
        self.slots@.map_values(|w: WorkerStatus| w@)
    }
}

impl WorkerTable {
    /// What holds of every table: it has room for the pool and no more, and
    /// each worker has one slot at most.
    pub open spec fn wf(&self) -> bool {
        &&& self@.len() <= WORKER_COUNT
        &&& distinct_workers(self@)
    }

    /// A table without workers.
    pub fn new() -> (table: Self)
        ensures
            table.wf(),
            table@.len() == 0,
    {
        WorkerTable { slots: Vec::new() }
    }

    /// How many workers have registered.
    pub fn len(&self) -> (n: usize)
        ensures
            n == self@.len(),
    {
        self.slots.len()
    }

    fn position(&self, id: usize) -> (r: Option<usize>)
        ensures
            match r {
                Some(i) => i < self@.len() && self@[i as int].id == id,
                None => !has_worker(self@, id),
            },
    {
        let mut i: usize = 0;
        while i < self.slots.len()
            invariant
                i <= self.slots.len(),
                forall|j: int| 0 <= j < i ==> (#[trigger] self@[j]).id != id,
            decreases self.slots.len() - i,
        {
            if self.slots[i].id == id {
                return Some(i);
            }
            i += 1;
        }
        None
    }

    /// Gives worker `id` a slot, idle. Nothing changes where the table is full
    /// or the worker has a slot already; the result says whether a slot was
    /// added.
    pub fn register(&mut self, id: usize) -> (added: bool)
        requires
            old(self).wf(),
        ensures
            final(self).wf(),
            added == (old(self)@.len() < WORKER_COUNT && !has_worker(old(self)@, id)),
            added ==> final(self)@ == old(self)@.push(idle_status(id)),
            !added ==> final(self)@ == old(self)@,
    {
        if self.slots.len() >= WORKER_COUNT || self.position(id).is_some() {
            return false;
        }
        self.slots.push(WorkerStatus { id, busy: false, description: String::from_str("idle") });
        assert(self@ =~= old(self)@.push(idle_status(id)));
        true
    }

    fn set_status(&mut self, id: usize, busy: bool, description: &str)
        requires
            old(self).wf(),
        ensures
            final(self).wf(),
            final(self)@ == with_status(
                old(self)@,
                id,
                WorkerStatusView { id, busy, description: description@ },
            ),
    {
        if let Some(i) = self.position(id) {
            self.slots.set(i, WorkerStatus { id, busy, description: String::from_str(description) });
            assert(self@ =~= with_status(
                old(self)@,
                id,
                WorkerStatusView { id, busy, description: description@ },
            ));
        }
    }

    /// Marks worker `id` busy with a task of this description. The other
    /// slots stay as they are, and so does the table where the worker has no
    /// slot.
    pub fn begin(&mut self, id: usize, description: &str)
        requires
            old(self).wf(),
        ensures
            final(self).wf(),
            final(self)@ == with_status(old(self)@, id, busy_status(id, description@)),
    {
        self.set_status(id, true, description);
    }

    /// Marks worker `id` idle again. The other slots stay as they are, and so
    /// does the table where the worker has no slot.
    pub fn finish(&mut self, id: usize)
        requires
            old(self).wf(),
        ensures
            final(self).wf(),
            final(self)@ == with_status(old(self)@, id, idle_status(id)),
    {
        self.set_status(id, false, "idle");
    }

    /// A copy of every slot, in the order in which the workers registered.
    pub fn snapshot(&self) -> (copy: Vec<WorkerStatus>)
        ensures
            copy@.map_values(|w: WorkerStatus| w@) == self@,
    {
        let mut copy: Vec<WorkerStatus> = Vec::new();
        let mut i: usize = 0;
        while i < self.slots.len()
            invariant
                i <= self.slots.len(),
                copy@.map_values(|w: WorkerStatus| w@) == self@.take(i as int),
            decreases self.slots.len() - i,
        {
            copy.push(self.slots[i].clone());
            assert(self@.take(i + 1) =~= self@.take(i as int).push(self@[i as int]));
            i += 1;
        }
        copy
    }

    /// How many workers are marked busy.
    pub fn busy_workers(&self) -> (n: usize)
        requires
            self.wf(),
        ensures
            n == busy_count(self@),
            n <= WORKER_COUNT,
    {
        let mut n: usize = 0;
        let mut i: usize = 0;
        while i < self.slots.len()
            invariant
                i <= self.slots.len(),
                n == busy_count(self@.take(i as int)),
                n <= i,
            decreases self.slots.len() - i,
        {
            assert(self@.take(i + 1).drop_last() == self@.take(i as int));
            if self.slots[i].busy {
                n += 1;
            }
            i += 1;
        }
        assert(self@.take(self.slots.len() as int) == self@);
        n
    }
}

/// No more workers are busy than there are slots.
pub proof fn lemma_busy_count_bounded(slots: Seq<WorkerStatusView>)
    ensures
        busy_count(slots) <= slots.len(),
    decreases slots.len(),
{
    if slots.len() > 0 {
        lemma_busy_count_bounded(slots.drop_last());
    }
}

/// In every table, the number of busy workers never exceeds the size of the
/// pool.
pub proof fn lemma_busy_within_pool(table: WorkerTable)
    requires
        table.wf(),
    ensures
        busy_count(table@) <= WORKER_COUNT,
{
    lemma_busy_count_bounded(table@);
}

/// Once a worker has finished, its slot is idle under the idle label, and it
/// is so whatever the worker was doing before.
pub proof fn lemma_finished_worker_is_idle(
    slots: Seq<WorkerStatusView>,
    id: usize,
    description: Seq<char>,
)
    ensures
        forall|i: int|
            0 <= i < slots.len() && slots[i].id == id ==> #[trigger] with_status(
                with_status(slots, id, busy_status(id, description)),
                id,
                idle_status(id),
            )[i] == idle_status(id),
        with_status(with_status(slots, id, busy_status(id, description)), id, idle_status(id))
            == with_status(slots, id, idle_status(id)),
{
}

/// A task that begins and ends leaves the other workers as they were, and
/// takes the number of busy workers back to what it was where the worker was
/// idle before.
pub proof fn lemma_begin_then_finish(slots: Seq<WorkerStatusView>, id: usize, description: Seq<char>)
    requires
        forall|i: int| 0 <= i < slots.len() && slots[i].id == id ==> slots[i] == idle_status(id),
    ensures
        with_status(with_status(slots, id, busy_status(id, description)), id, idle_status(id))
            == slots,
{
}

/// A delayed task asks for a sleep of exactly its delay and sends nothing
/// before; once the sleep is over it goes on as the task it wraps.
pub proof fn lemma_delayed_task(delay: u64, inner: Operation, step: StepView)
    requires
        is_step_of(Operation::Simulate { delay, inner: Box::new(inner) }, step),
    ensures
        step == (StepView::SleepThenRun { seconds: delay, inner }),
        next_of(step, Event::Woke) == NextView::Run(inner),
{
}

/// A delayed reversal of a text gives, after its delay, the reversed text:
/// what the reversal gives when it is run alone.
pub proof fn lemma_delayed_reverse(delay: u64, text: Seq<char>, first: StepView, second: StepView)
    requires
        is_step_of(
            Operation::Simulate { delay, inner: Box::new(Operation::Reverse(text)) },
            first,
        ),
        next_of(first, Event::Woke) matches NextView::Run(inner) && is_step_of(inner, second),
    ensures
        first == (StepView::SleepThenRun { seconds: delay, inner: Operation::Reverse(text) }),
        second == StepView::Reply(text.reverse()),
{
}

} // verus!
