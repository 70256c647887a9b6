use serde_json::Value;
use specmesh_server::reply::{Reply, ReplyBody, RpcError, RpcMessage};
use specmesh_server::state::{HttpState, MAX_IN_FLIGHT};

fn state() -> HttpState {
    HttpState::new(1, [b'A'; 43])
}

fn error_of(reply: Reply) -> RpcError {
    match reply.body {
        ReplyBody::Message(RpcMessage::Error(error)) => error,
        _ => panic!("the response carries no error"),
    }
}

fn start(state: &mut HttpState, request_id: u64) -> u64 {
    match state.admit_call(&Value::from(request_id)) {
        Ok(call) => call.call_id,
        Err(_) => panic!("call {request_id} was rejected"),
    }
}

#[test]
fn admission_is_exactly_32_and_overload_does_not_disturb_admitted_calls() {
    let mut state = HttpState::new(1, [b'A'; 43]);
    let mut admitted = 0;
    for request_id in 1..=MAX_IN_FLIGHT {
        match state.try_acquire_capacity(&Value::from(request_id)) {
            Ok(()) => admitted += 1,
            Err(_) => panic!("call {request_id} was rejected below the fixed capacity"),
        }
    }
    assert_eq!(admitted, 32);
    assert_eq!(state.available_permits(), 0);

    let overload = match state.try_acquire_capacity(&Value::from(33)) {
        Ok(_) => panic!("the 33rd active call exceeded the fixed capacity"),
        Err(rejection) => rejection.into_response(),
    };
    assert_eq!(overload.status, 200);
    assert!(overload
        .fields
        .iter()
        .any(|field| field.name == "content-type" && field.value.starts_with("application/json")));
    let error = error_of(overload);
    assert_eq!(error.id, Some(Value::from(33)));
    assert_eq!(error.code, -32000);
    assert_eq!(error.message, "too many MCP tool calls are active");
    assert_eq!(state.available_permits(), 0);

    state.release_capacity();
    admitted -= 1;
    match state.try_acquire_capacity(&Value::from(34)) {
        Ok(()) => {}
        Err(_) => panic!("one completed call did not admit one replacement"),
    }
    assert_eq!(state.available_permits(), 0);
    assert!(state.try_acquire_capacity(&Value::from(35)).is_err());
    state.release_capacity();
    assert_eq!(state.available_permits(), 1);
    for _ in 0..admitted {
        state.release_capacity();
    }
    assert_eq!(state.available_permits(), MAX_IN_FLIGHT);
}

#[test]
fn calls_get_ids_in_order_from_one() {
    let mut state = state();
    assert_eq!(start(&mut state, 7), 1);
    assert_eq!(start(&mut state, 7), 2);
    state.complete_call(1);
    assert_eq!(start(&mut state, 7), 3);
    assert_eq!(state.available_permits(), 30);
}

#[test]
fn call_that_is_turned_away_leaves_no_trace() {
    let mut state = state();
    for request_id in 0..32 {
        start(&mut state, request_id);
    }
    let error = match state.admit_call(&Value::Null) {
        Ok(_) => panic!("a call was admitted above the limit"),
        Err(rejection) => error_of(rejection.into_response()),
    };
    assert_eq!(error.id, Some(Value::Null));
    assert_eq!(error.code, -32000);
    assert!(state.try_acquire_capacity(&Value::Null).is_err());
    for call_id in 1..=32 {
        assert!(state.is_active(call_id));
    }
    assert!(!state.is_active(33));
    state.complete_call(5);
    assert_eq!(start(&mut state, 33), 33);
}

#[test]
fn completion_of_an_unknown_call_frees_nothing() {
    let mut state = state();
    state.complete_call(9);
    assert_eq!(state.available_permits(), 32);
    let call_id = start(&mut state, 1);
    state.complete_call(9);
    assert_eq!(state.available_permits(), 31);
    state.complete_call(call_id);
    state.complete_call(call_id);
    assert_eq!(state.available_permits(), 32);
}

#[test]
fn disconnect_cancels_one_call_and_keeps_its_permit() {
    let mut state = state();
    let first = start(&mut state, 1);
    let second = start(&mut state, 2);
    assert!(state.disconnect_call(first));
    assert!(state.is_active(first));
    assert!(state.is_active(second));
    assert_eq!(state.available_permits(), 30);
    state.complete_call(first);
    assert!(!state.disconnect_call(first));
    assert!(!state.is_active(first));
    assert_eq!(state.available_permits(), 31);
}

#[test]
fn shutdown_returns_every_active_call_and_lets_no_request_in() {
    let mut state = state();
    for request_id in 0..3 {
        start(&mut state, request_id);
    }
    state.complete_call(2);
    assert!(!state.is_shutting_down());
    let mut cancelled = state.begin_shutdown();
    cancelled.sort();
    assert_eq!(cancelled, vec![1, 3]);
    assert!(state.is_shutting_down());
    let mut again = state.begin_shutdown();
    again.sort();
    assert_eq!(again, vec![1, 3]);
    assert!(state.is_shutting_down());
}

#[test]
fn call_admitted_during_shutdown_is_cancelled_at_once() {
    let mut state = state();
    assert!(!state.admit_call(&Value::from(1)).is_ok_and(|call| call.cancelled));
    assert_eq!(state.begin_shutdown(), vec![1]);
    assert!(state.admit_call(&Value::from(2)).is_ok_and(|call| call.cancelled));
}

#[test]
fn server_is_idle_once_every_call_completed() {
    let mut state = state();
    assert!(state.is_idle());
    let first = start(&mut state, 1);
    let second = start(&mut state, 2);
    state.begin_shutdown();
    assert!(!state.is_idle());
    state.complete_call(second);
    assert!(!state.is_idle());
    state.complete_call(first);
    assert!(state.is_idle());
    assert!(state.begin_shutdown().is_empty());
}

#[test]
fn permit_alone_makes_no_call_active() {
    let mut state = state();
    assert!(state.try_acquire_capacity(&Value::from(1)).is_ok());
    assert_eq!(state.available_permits(), 31);
    assert!(state.is_idle());
    assert!(!state.is_active(1));
    assert!(!state.is_shutting_down());

    let call = state.register_call();
    assert_eq!(call.call_id, 1);
    assert!(!call.cancelled);
    assert!(state.is_active(1));
    assert_eq!(state.available_permits(), 31);

    assert_eq!(start(&mut state, 2), 2);
    state.complete_call(1);
    assert_eq!(state.available_permits(), 31);
}

#[test]
fn only_permits_that_no_call_holds_are_released() {
    let mut state = state();
    state.release_capacity();
    assert_eq!(state.available_permits(), 32);
    start(&mut state, 1);
    state.release_capacity();
    assert_eq!(state.available_permits(), 31);
    assert!(state.try_acquire_capacity(&Value::from(2)).is_ok());
    assert_eq!(state.available_permits(), 30);
    state.release_capacity();
    state.release_capacity();
    assert_eq!(state.available_permits(), 31);
    assert!(state.is_active(1));
}

#[test]
fn call_registered_during_shutdown_is_cancelled_at_once() {
    let mut state = state();
    assert!(state.try_acquire_capacity(&Value::from(1)).is_ok());
    assert!(state.begin_shutdown().is_empty());
    assert!(state.register_call().cancelled);
    assert!(!state.is_idle());
}
