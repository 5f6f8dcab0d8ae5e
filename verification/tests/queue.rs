use yapi_ts::error::{
    CompileError, ConfigError, DecodeError, ErrorKind, FetchError, SchemaError,
};
use yapi_ts::interface::{InterfaceData, InterfaceFetchParams};
use yapi_ts::queue::{Queue, QueueSnapshot, Step};
use yapi_ts::worker::{queue_log, resolve_task, step_event, EmitMessage, QueueEvent};

fn task(id: u64) -> InterfaceFetchParams {
    InterfaceFetchParams {
        task_id: id,
        interface_id: id as u32,
        token: "t".to_string(),
        source_path: "/src".to_string(),
    }
}

fn descriptor(res: Option<&str>) -> InterfaceData {
    InterfaceData {
        _id: 1,
        path: "/a/foo".to_string(),
        project_id: 1,
        title: "foo".to_string(),
        catid: 1,
        req_body_other: None,
        req_query: None,
        req_params: None,
        req_body_form: None,
        req_body_type: None,
        res_body: res.map(|s| s.to_string()),
        method: "GET".to_string(),
    }
}

#[test]
fn rate_limit_of_zero_is_refused() {
    let mut queue = Queue::new();
    queue.add_task(task(1));
    assert_eq!(queue.start_task(0, 3), Err(ConfigError));
    assert!(!queue.snapshot().running);
    assert_eq!(queue.next_step(), Step::Stopped);
    assert_eq!(queue.snapshot().waiting, 1);
}

#[test]
fn start_while_running_changes_nothing() {
    let mut queue = Queue::new();
    for id in 0..3 {
        queue.add_task(task(id));
    }
    assert_eq!(queue.start_task(1, 7), Ok(()));
    assert_eq!(queue.start_task(3, 9), Ok(()));
    assert_eq!(queue.break_seconds(), 7);
    assert_eq!(queue.next_step(), Step::Dispatch(task(0)));
    assert_eq!(queue.next_step(), Step::AwaitPermit);
}

#[test]
fn tasks_start_in_the_order_of_submission_and_the_batch_drains() {
    let mut queue = Queue::new();
    for id in 0..3 {
        queue.add_task(task(id));
    }
    queue.start_task(2, 0).unwrap();
    assert_eq!(queue.next_step(), Step::Dispatch(task(0)));
    assert_eq!(queue.next_step(), Step::Dispatch(task(1)));
    assert_eq!(queue.next_step(), Step::AwaitPermit);
    assert_eq!(queue.snapshot().in_flight, 2);
    assert!(queue.finish_task());
    assert_eq!(queue.next_step(), Step::AwaitPermit);
    assert!(queue.release_permit());
    assert_eq!(queue.next_step(), Step::Dispatch(task(2)));
    assert_eq!(queue.next_step(), Step::AwaitPermit);
    assert!(queue.finish_task());
    assert!(queue.release_permit());
    assert_eq!(queue.next_step(), Step::AwaitWorkers);
    assert!(queue.finish_task());
    assert!(!queue.finish_task());
    assert_eq!(
        queue.snapshot(),
        QueueSnapshot { waiting: 0, in_flight: 0, completed: 3, total: 3, running: true }
    );
    assert_eq!(queue.next_step(), Step::Drained { total_completed: 3 });
    assert_eq!(
        queue.snapshot(),
        QueueSnapshot { waiting: 0, in_flight: 0, completed: 0, total: 0, running: false }
    );
    assert_eq!(queue.next_step(), Step::Stopped);
    assert!(queue.release_permit());
    assert!(!queue.release_permit());
}

#[test]
fn in_flight_never_exceeds_the_rate_limit() {
    for limit in 1..5usize {
        let mut queue = Queue::new();
        for id in 0..20 {
            queue.add_task(task(id));
        }
        queue.start_task(limit, 0).unwrap();
        let mut turns = 0;
        loop {
            turns += 1;
            assert!(turns < 1000);
            assert!(queue.snapshot().in_flight <= limit);
            match queue.next_step() {
                Step::Dispatch(_) => {}
                Step::AwaitPermit | Step::AwaitWorkers => {
                    assert!(queue.finish_task());
                    assert!(queue.release_permit());
                }
                Step::Drained { total_completed } => {
                    assert_eq!(total_completed, 20);
                    break;
                }
                Step::Stopped => panic!("stopped before the batch was done"),
            }
        }
    }
}

#[test]
fn cancel_lets_in_flight_tasks_finish_and_keeps_the_rest() {
    let mut queue = Queue::new();
    for id in 0..10 {
        queue.add_task(task(id));
    }
    queue.start_task(2, 0).unwrap();
    assert_eq!(queue.next_step(), Step::Dispatch(task(0)));
    assert_eq!(queue.next_step(), Step::Dispatch(task(1)));
    queue.cancel_execute();
    assert_eq!(queue.next_step(), Step::Stopped);
    assert!(queue.finish_task());
    assert!(queue.release_permit());
    assert!(queue.finish_task());
    assert!(queue.release_permit());
    assert_eq!(queue.next_step(), Step::Stopped);
    assert_eq!(
        queue.snapshot(),
        QueueSnapshot { waiting: 8, in_flight: 0, completed: 2, total: 10, running: false }
    );
    queue.start_task(2, 0).unwrap();
    assert_eq!(queue.next_step(), Step::Dispatch(task(2)));
}

#[test]
fn failed_fetch_is_a_network_error() {
    let event = resolve_task(4, Err(FetchError { message: "timed out".to_string() }));
    assert_eq!(
        event,
        QueueEvent::TaskFailed {
            task_id: 4,
            error_kind: ErrorKind::NetworkError,
            message: "timed out".to_string(),
        }
    );
}

#[test]
fn descriptor_without_response_fails_the_task_and_still_counts() {
    let mut queue = Queue::new();
    queue.add_task(task(9));
    queue.start_task(1, 0).unwrap();
    assert_eq!(queue.next_step(), Step::Dispatch(task(9)));
    let event = resolve_task(9, Ok(descriptor(None)));
    assert_eq!(
        event,
        QueueEvent::TaskFailed {
            task_id: 9,
            error_kind: ErrorKind::SchemaError,
            message: "response json is none".to_string(),
        }
    );
    assert!(queue.finish_task());
    assert_eq!(queue.snapshot().completed, 1);
}

#[test]
fn malformed_schema_fails_the_task_with_its_kind() {
    let event = resolve_task(2, Ok(descriptor(Some(r#"{"type":"object","properties":7}"#))));
    assert_eq!(
        event,
        QueueEvent::TaskFailed {
            task_id: 2,
            error_kind: ErrorKind::DecodeError,
            message: "properties is not an object".to_string(),
        }
    );
}

#[test]
fn fetched_descriptor_succeeds_with_its_text() {
    let event = resolve_task(3, Ok(descriptor(Some(r#"{"type":"object","properties":{}}"#))));
    match event {
        QueueEvent::TaskSucceeded { task_id, resolved_interface } => {
            assert_eq!(task_id, 3);
            assert_eq!(resolved_interface.interface, descriptor(Some(r#"{"type":"object","properties":{}}"#)));
            assert_eq!(
                resolved_interface.ts_string,
                "// foo\nexport interface fooRequest {\n}\n\n// foo\nexport interface fooResponse {\n}\n"
            );
        }
        other => panic!("{:?}", other),
    }
}

#[test]
fn every_error_has_its_kind_and_its_words() {
    let cases = [
        (CompileError::Schema(SchemaError::NoResponse), ErrorKind::SchemaError, "response json is none"),
        (CompileError::Schema(SchemaError::NoProperties), ErrorKind::SchemaError, "object schema has no properties"),
        (CompileError::Schema(SchemaError::NoItems), ErrorKind::SchemaError, "array schema has no items object"),
        (CompileError::Decode(DecodeError::PropertiesNotObject), ErrorKind::DecodeError, "properties is not an object"),
        (CompileError::Decode(DecodeError::RequiredNotList), ErrorKind::DecodeError, "required is not a list"),
    ];
    for (error, kind, words) in cases {
        assert_eq!(error.kind(), kind);
        assert_eq!(error.message(), words);
    }
}

#[test]
fn listener_hears_of_starts_and_of_the_end() {
    assert_eq!(step_event(&Step::Dispatch(task(5))), Some(QueueEvent::TaskStarted { task_id: 5 }));
    assert_eq!(
        step_event(&Step::Drained { total_completed: 3 }),
        Some(QueueEvent::Drained { total_completed: 3 })
    );
    assert_eq!(step_event(&Step::Stopped), None);
    assert_eq!(step_event(&Step::AwaitPermit), None);
    assert_eq!(step_event(&Step::AwaitWorkers), None);
}

#[test]
fn cancel_while_nothing_is_in_flight_stops_at_once() {
    let mut queue = Queue::new();
    queue.add_task(task(1));
    queue.start_task(1, 0).unwrap();
    queue.cancel_execute();
    assert_eq!(queue.next_step(), Step::Stopped);
    assert!(!queue.finish_task());
    assert!(!queue.release_permit());
    assert_eq!(
        queue.snapshot(),
        QueueSnapshot { waiting: 1, in_flight: 0, completed: 0, total: 1, running: false }
    );
}

#[test]
fn empty_queue_drains_at_the_first_turn() {
    let mut queue = Queue::new();
    queue.start_task(3, 0).unwrap();
    assert_eq!(queue.next_step(), Step::Drained { total_completed: 0 });
    assert_eq!(queue.next_step(), Step::Stopped);
}

#[test]
fn log_shows_the_end_of_each_task() {
    let done = resolve_task(3, Ok(descriptor(Some(r#"{"type":"object","properties":{}}"#))));
    let message = queue_log(done).unwrap();
    assert_eq!(message.msg, "接口 foo 已完成！");
    assert!(message.is_success);
    assert_eq!(
        message.resolved_interface.unwrap().ts_string,
        "// foo\nexport interface fooRequest {\n}\n\n// foo\nexport interface fooResponse {\n}\n"
    );
    let failed = resolve_task(4, Err(FetchError { message: "timed out".to_string() }));
    assert_eq!(
        queue_log(failed),
        Some(EmitMessage {
            msg: "接口请求失败：timed out".to_string(),
            is_success: false,
            resolved_interface: None,
        })
    );
    let broken = resolve_task(5, Ok(descriptor(None)));
    assert_eq!(queue_log(broken).unwrap().msg, "接口转换失败: response json is none");
    assert_eq!(queue_log(QueueEvent::TaskStarted { task_id: 1 }), None);
    assert_eq!(queue_log(QueueEvent::Drained { total_completed: 1 }), None);
}
