//! What a worker reports for one task.

use crate::error::{error_text, CompileError, ErrorKind, FetchError};
use crate::interface::{descriptor_ts, get_interface_ts_string, InterfaceData, InterfaceModel};
use crate::queue::{Step, StepModel};
use vstd::prelude::*;

verus! {

/// The mathematical value of an event.
pub enum EventModel {
    TaskStarted { task_id: u64 },
    TaskSucceeded { task_id: u64, interface: InterfaceModel, ts_string: Seq<char> },
    TaskFailed { task_id: u64, error_kind: ErrorKind, message: Seq<char> },
    Drained { total_completed: nat },
}

/// A descriptor together with the declaration text compiled from it.
#[derive(Debug, PartialEq)]
pub struct ResolvedInterface {
    pub interface: InterfaceData,
    pub ts_string: String,
}

/// What the queue tells its listener.
#[derive(Debug, PartialEq)]
pub enum QueueEvent {
    TaskStarted { task_id: u64 },
    TaskSucceeded { task_id: u64, resolved_interface: ResolvedInterface },
    TaskFailed { task_id: u64, error_kind: ErrorKind, message: String },
    Drained { total_completed: usize },
}

impl View for QueueEvent {
    type V = EventModel;

    open spec fn view(&self) -> EventModel {
        match self {
            QueueEvent::TaskStarted { task_id } => EventModel::TaskStarted { task_id: *task_id },
            QueueEvent::TaskSucceeded { task_id, resolved_interface } => EventModel::TaskSucceeded {
                task_id: *task_id,
                interface: resolved_interface.interface@,
                ts_string: resolved_interface.ts_string@,
            },
            QueueEvent::TaskFailed { task_id, error_kind, message } => EventModel::TaskFailed {
                task_id: *task_id,
                error_kind: *error_kind,
                message: message@,
            },
            QueueEvent::Drained { total_completed } => EventModel::Drained {
                total_completed: *total_completed as nat,
            },
        }
    }
}

/// The event for a fetched descriptor and the result of compiling it: success
/// with the text, or failure with the error's kind and words.
pub open spec fn compiled_event(
    task_id: u64,
    interface: InterfaceModel,
    compiled: Result<Seq<char>, CompileError>,
) -> EventModel {
    match compiled {
        Ok(ts_string) => EventModel::TaskSucceeded { task_id, interface, ts_string },
        Err(e) => EventModel::TaskFailed {
            task_id,
            error_kind: e.spec_kind(),
            message: error_text(e),
        },
    }
}

/// The event that ends a task: a failed fetch is a network error with the
/// fetch's message, a fetched descriptor is compiled.
pub open spec fn outcome(task_id: u64, fetched: Result<InterfaceModel, Seq<char>>) -> EventModel {
    match fetched {
        Ok(interface) => compiled_event(task_id, interface, descriptor_ts(interface)),
        Err(message) => EventModel::TaskFailed {
            task_id,
            error_kind: ErrorKind::NetworkError,
            message,
        },
    }
}

/// A descriptor without a response schema is never compiled: its task fails
/// with a schema error that says so.
pub proof fn lemma_missing_response_fails(task_id: u64, interface: InterfaceModel)
    requires
        interface.res_body is None,
    ensures
        outcome(task_id, Ok(interface)) == (EventModel::TaskFailed {
            task_id,
            error_kind: ErrorKind::SchemaError,
            message: "response json is none"@,
        }),
{
}

/// What the listener is told of a turn of the driver: that a task has
/// started, that the batch is done, or nothing.
pub open spec fn step_told(step: StepModel) -> Option<EventModel> {
    match step {
        StepModel::Dispatch(task) => Some(EventModel::TaskStarted { task_id: task.task_id }),
        StepModel::Drained { total_completed } => Some(EventModel::Drained { total_completed }),
        _ => None,
    }
}

/// The mathematical value of a message for the log.
pub struct MessageModel {
    pub msg: Seq<char>,
    pub is_success: bool,
    pub resolved_interface: Option<(InterfaceModel, Seq<char>)>,
}

/// A line for the window's log: what happened to a task, and the descriptor
/// with its declaration text where the task succeeded.
#[derive(Debug, PartialEq)]
pub struct EmitMessage {
    pub msg: String,
    pub is_success: bool,
    pub resolved_interface: Option<ResolvedInterface>,
}

impl View for EmitMessage {
    type V = MessageModel;

    open spec fn view(&self) -> MessageModel {
        MessageModel {
            msg: self.msg@,
            is_success: self.is_success,
            resolved_interface: match self.resolved_interface {
                Some(resolved) => Some((resolved.interface@, resolved.ts_string@)),
                None => None,
            },
        }
    }
}

/// What the log shows for an event: the end of a task, with the interface's
/// title where it succeeded and with the error's words where it failed. The
/// start of a task and the end of a batch are not logged.
pub open spec fn logged(event: EventModel) -> Option<MessageModel> {
    match event {
        EventModel::TaskSucceeded { interface, ts_string, .. } => Some(
            MessageModel {
                msg: "接口 "@ + interface.title + " 已完成！"@,
                is_success: true,
                resolved_interface: Some((interface, ts_string)),
            },
        ),
        EventModel::TaskFailed { error_kind, message, .. } => Some(
            MessageModel {
                msg: if error_kind == ErrorKind::NetworkError {
                    "接口请求失败："@ + message
                } else {
                    "接口转换失败: "@ + message
                },
                is_success: false,
                resolved_interface: None,
            },
        ),
        _ => None,
    }
}

/// What a fetch's result stands for.
pub open spec fn fetched_model(fetched: Result<InterfaceData, FetchError>) -> Result<
    InterfaceModel,
    Seq<char>,
> {
    match fetched {
        Ok(interface) => Ok(interface@),
        Err(e) => Err(e.message@),
    }
}

/// What a compilation's result stands for.
pub open spec fn compiled_model(compiled: Result<String, CompileError>) -> Result<
    Seq<char>,
    CompileError,
> {
    match compiled {
        Ok(text) => Ok(text@),
        Err(e) => Err(e),
    }
}

/// The event for a fetched descriptor and the result of compiling it.
pub fn task_event(task_id: u64, interface: InterfaceData, compiled: Result<String, CompileError>) -> (r:
    QueueEvent)
    ensures
        r@ == compiled_event(task_id, interface@, compiled_model(compiled)),
{
    match compiled {
        Ok(ts_string) => QueueEvent::TaskSucceeded {
            task_id,
            resolved_interface: ResolvedInterface { interface, ts_string },
        },
        Err(e) => QueueEvent::TaskFailed { task_id, error_kind: e.kind(), message: e.message() },
    }
}

/// What the listener is told of a turn of the driver.
pub fn step_event(step: &Step) -> (r: Option<QueueEvent>)
    ensures
        match r {
            Some(event) => step_told(step@) == Some(event@),
            None => step_told(step@) is None,
        },
{
    match step {
        Step::Dispatch(task) => Some(QueueEvent::TaskStarted { task_id: task.task_id }),
        Step::Drained { total_completed } => Some(
            QueueEvent::Drained { total_completed: *total_completed },
        ),
        _ => None,
    }
}

/// The line of the log for an event, where it has one.
pub fn queue_log(event: QueueEvent) -> (r: Option<EmitMessage>)
    ensures
        match r {
            Some(message) => logged(event@) == Some(message@),
            None => logged(event@) is None,
        },
{
    match event {
        QueueEvent::TaskSucceeded { resolved_interface, .. } => {
            let mut msg = String::from_str("接口 ");
            msg.append(resolved_interface.interface.title.as_str());
            msg.append(" 已完成！");
            Some(EmitMessage { msg, is_success: true, resolved_interface: Some(resolved_interface) })
        },
        QueueEvent::TaskFailed { error_kind, message, .. } => {
            let mut msg = match error_kind {
                ErrorKind::NetworkError => String::from_str("接口请求失败："),
                _ => String::from_str("接口转换失败: "),
            };
            msg.append(message.as_str());
            Some(EmitMessage { msg, is_success: false, resolved_interface: None })
        },
        _ => None,
    }
}

/// The event that ends a task, given what the fetch came back with.
pub fn resolve_task(task_id: u64, fetched: Result<InterfaceData, FetchError>) -> (r: QueueEvent)
    ensures
        r@ == outcome(task_id, fetched_model(fetched)),
{
    match fetched {
        Ok(interface) => {
            let compiled = get_interface_ts_string(&interface);
            task_event(task_id, interface, compiled)
        },
        Err(e) => QueueEvent::TaskFailed {
            task_id,
            error_kind: ErrorKind::NetworkError,
            message: e.message,
        },
    }
}

} // verus!
