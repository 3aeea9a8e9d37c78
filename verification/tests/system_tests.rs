//! Tests for the top-level registry: handle routing, the full foreign-call
//! protocol, the module loader protocol, and the interpreter lifecycle.

use deno_in_deno::isolate::EngineCreation;
use deno_in_deno::isolate::EnginePoll;
use deno_in_deno::isolate::PollStatus;
use deno_in_deno::modules::into_module_source;
use deno_in_deno::modules::LoadAnswer;
use deno_in_deno::modules::LoadRequest;
use deno_in_deno::modules::ResolveAnswer;
use deno_in_deno::modules::ResolveRequest;
use deno_in_deno::system::CallRequest;
use deno_in_deno::system::OpError;
use deno_in_deno::system::System;

fn request(data: &[u8]) -> CallRequest {
    CallRequest { data: data.to_vec(), zero_copy: None }
}

#[test]
fn relay_ops_on_unknown_handle_fail_with_not_found() {
    let mut sys = System::new();
    assert_eq!(sys.call_dispatch(1, request(b"x")), Err(OpError::NotFound));
    assert_eq!(sys.call_wait_for_next(1), Err(OpError::NotFound));
    assert_eq!(sys.call_respond(1, 0, Some(b"x".to_vec())), Err(OpError::NotFound));
    assert_eq!(sys.call_take_response(1, 0), Err(OpError::NotFound));
    assert_eq!(sys.resolve_wait_for_next(1), Err(OpError::NotFound));
    assert_eq!(sys.load_wait_for_next(1), Err(OpError::NotFound));
    assert_eq!(sys.snapshot_read(1), Err(OpError::NotFound));
}

#[test]
fn two_dispatches_answered_in_either_order_stay_separate() {
    // The concurrency scenario, serialized: two callers dispatch "A" and
    // "B"; the consumer observes two distinct correlation ids, answers in
    // reverse order, and each caller receives its own bytes.
    let mut sys = System::new();
    let rid = sys.new_call_relay();
    let id_a = sys.call_dispatch(rid, request(b"A")).expect("relay exists");
    let id_b = sys.call_dispatch(rid, request(b"B")).expect("relay exists");
    assert_ne!(id_a, id_b);

    let (got_a, req_a) = sys.call_wait_for_next(rid).expect("relay exists").expect("A queued");
    let (got_b, req_b) = sys.call_wait_for_next(rid).expect("relay exists").expect("B queued");
    assert_eq!(got_a, id_a);
    assert_eq!(req_a.data, b"A".to_vec());
    assert_eq!(got_b, id_b);
    assert_eq!(req_b.data, b"B".to_vec());

    sys.call_respond(rid, id_b, Some(b"B-done".to_vec())).expect("B waiting");
    sys.call_respond(rid, id_a, Some(b"A-done".to_vec())).expect("A waiting");
    assert_eq!(sys.call_take_response(rid, id_a), Ok(Some(b"A-done".to_vec())));
    assert_eq!(sys.call_take_response(rid, id_b), Ok(Some(b"B-done".to_vec())));
}

#[test]
fn call_respond_demands_the_response_bytes() {
    let mut sys = System::new();
    let rid = sys.new_call_relay();
    let id = sys.call_dispatch(rid, request(b"call")).expect("relay exists");
    assert_eq!(sys.call_respond(rid, id, None), Err(OpError::MissingPayload));
    // The failure consumed nothing: the slot still accepts the real answer.
    sys.call_respond(rid, id, Some(b"ok".to_vec())).expect("slot still waiting");
    assert_eq!(sys.call_take_response(rid, id), Ok(Some(b"ok".to_vec())));
}

#[test]
fn call_respond_with_unknown_correlation_id_fails() {
    let mut sys = System::new();
    let rid = sys.new_call_relay();
    let id = sys.call_dispatch(rid, request(b"call")).expect("relay exists");
    assert_eq!(
        sys.call_respond(rid, id + 1, Some(b"stray".to_vec())),
        Err(OpError::UnknownCorrelationId)
    );
    // The pending call is untouched.
    assert_eq!(sys.call_take_response(rid, id), Ok(None));
    sys.call_respond(rid, id, Some(b"real".to_vec())).expect("slot untouched");
    assert_eq!(sys.call_take_response(rid, id), Ok(Some(b"real".to_vec())));
}

#[test]
fn side_channel_bytes_travel_with_the_request() {
    let mut sys = System::new();
    let rid = sys.new_call_relay();
    let req = CallRequest { data: b"body".to_vec(), zero_copy: Some(b"raw".to_vec()) };
    let id = sys.call_dispatch(rid, req).expect("relay exists");
    let (got, delivered) = sys.call_wait_for_next(rid).expect("relay exists").expect("queued");
    assert_eq!(got, id);
    assert_eq!(delivered.data, b"body".to_vec());
    assert_eq!(delivered.zero_copy, Some(b"raw".to_vec()));
}

#[test]
fn independent_relays_have_independent_id_spaces() {
    let mut sys = System::new();
    let rid1 = sys.new_call_relay();
    let rid2 = sys.new_call_relay();
    assert_ne!(rid1, rid2);
    let a = sys.call_dispatch(rid1, request(b"a")).expect("relay exists");
    let b = sys.call_dispatch(rid2, request(b"b")).expect("relay exists");
    assert_eq!(a, b, "both relays start their id counters at zero");
    assert_eq!(
        sys.call_wait_for_next(rid2).expect("relay exists").expect("queued").1.data,
        b"b".to_vec()
    );
    assert_eq!(
        sys.call_wait_for_next(rid1).expect("relay exists").expect("queued").1.data,
        b"a".to_vec()
    );
}

#[test]
fn module_graph_walk_resolves_and_loads_through_the_loader() {
    // The module scenario: the engine asks to resolve "entry"; the consumer
    // answers "entry.mod"; the engine then asks to load it and receives the
    // source text without error.
    let mut sys = System::new();
    let rid = sys.new_loader();

    let resolve_id = sys
        .resolve_dispatch(
            rid,
            ResolveRequest {
                specifier: "entry".to_string(),
                referrer: ".".to_string(),
                is_main: true,
                is_dyn_import: false,
            },
        )
        .expect("loader exists");
    let (cmd_id, req) = sys.resolve_wait_for_next(rid).expect("loader exists").expect("queued");
    assert_eq!(cmd_id, resolve_id);
    assert_eq!(req.specifier, "entry");
    assert!(req.is_main);
    sys.resolve_respond(rid, cmd_id, ResolveAnswer::Resolved("entry.mod".to_string()))
        .expect("slot waiting");
    let answer = sys
        .resolve_take_response(rid, resolve_id)
        .expect("loader exists")
        .expect("answered");
    assert_eq!(answer, ResolveAnswer::Resolved("entry.mod".to_string()));

    let load_id = sys
        .load_dispatch(
            rid,
            LoadRequest { specifier: "entry.mod".to_string(), maybe_referrer: None },
        )
        .expect("loader exists");
    let (cmd_id, req) = sys.load_wait_for_next(rid).expect("loader exists").expect("queued");
    assert_eq!(cmd_id, load_id);
    assert_eq!(req.specifier, "entry.mod");
    sys.load_respond(
        rid,
        cmd_id,
        LoadAnswer::Loaded {
            url_found: "entry.mod".to_string(),
            code: "export const x = 1;".to_string(),
        },
    )
    .expect("slot waiting");
    let answer = sys.load_take_response(rid, load_id).expect("loader exists").expect("answered");
    let source = into_module_source("entry.mod".to_string(), answer).expect("load succeeded");
    assert_eq!(source.module_url_specified, "entry.mod");
    assert_eq!(source.module_url_found, "entry.mod");
    assert_eq!(source.code, "export const x = 1;");
}

#[test]
fn resolve_failure_reaches_the_engine_side() {
    let mut sys = System::new();
    let rid = sys.new_loader();
    let id = sys
        .resolve_dispatch(
            rid,
            ResolveRequest {
                specifier: "missing".to_string(),
                referrer: "entry.mod".to_string(),
                is_main: false,
                is_dyn_import: false,
            },
        )
        .expect("loader exists");
    let (cmd_id, _) = sys.resolve_wait_for_next(rid).expect("loader exists").expect("queued");
    sys.resolve_respond(
        rid,
        cmd_id,
        ResolveAnswer::ResolveFailed("relative import outside root".to_string()),
    )
    .expect("slot waiting");
    assert_eq!(
        sys.resolve_take_response(rid, id).expect("loader exists"),
        Some(ResolveAnswer::ResolveFailed("relative import outside root".to_string()))
    );
}

#[test]
fn load_failure_becomes_an_error_record() {
    let answer = LoadAnswer::LoadFailed("file not found".to_string());
    assert_eq!(
        into_module_source("gone.mod".to_string(), answer),
        Err("file not found".to_string())
    );
}

#[test]
fn loader_relays_are_independent_of_each_other() {
    let mut sys = System::new();
    let rid = sys.new_loader();
    let resolve_id = sys
        .resolve_dispatch(
            rid,
            ResolveRequest {
                specifier: "a".to_string(),
                referrer: "".to_string(),
                is_main: false,
                is_dyn_import: false,
            },
        )
        .expect("loader exists");
    // Nothing is pending on the load relay, and answering a load id that
    // only the resolve relay issued fails.
    assert_eq!(sys.load_wait_for_next(rid), Ok(None));
    assert_eq!(
        sys.load_respond(
            rid,
            resolve_id,
            LoadAnswer::Loaded { url_found: "a".to_string(), code: "".to_string() },
        ),
        Err(OpError::UnknownCorrelationId)
    );
}

#[test]
fn execute_then_poll_reports_completion() {
    // The script scenario: create an interpreter with no snapshot, run one
    // script, and the completion poll eventually resolves successfully.
    let mut sys = System::new();
    let loader = sys.new_loader();
    let interp = sys
        .new_interpreter(loader, None, false, EngineCreation::Accepted)
        .expect("loader exists and engine accepted");
    sys.begin_execute(interp).expect("instance exists");
    assert_eq!(
        sys.record_poll(interp, EnginePoll::Pending),
        Ok(PollStatus::Pending),
        "work in flight"
    );
    sys.finish_execute(interp).expect("one execution in flight");
    assert_eq!(sys.record_poll(interp, EnginePoll::Complete), Ok(PollStatus::Complete));
}

#[test]
fn new_interpreter_rejects_unknown_handles_and_bad_snapshots() {
    let mut sys = System::new();
    assert_eq!(
        sys.new_interpreter(1, None, false, EngineCreation::Accepted),
        Err(OpError::NotFound),
        "no loader issued yet"
    );
    let loader = sys.new_loader();
    assert_eq!(
        sys.new_interpreter(loader, Some(9), false, EngineCreation::Accepted),
        Err(OpError::NotFound),
        "no snapshot blob under that handle"
    );
    let blob = sys.new_snapshot(Some(vec![1, 2, 3])).expect("buffer given");
    assert_eq!(
        sys.new_interpreter(loader, Some(blob), false, EngineCreation::RejectedSnapshot),
        Err(OpError::InvalidSnapshot)
    );
    sys.new_interpreter(loader, Some(blob), false, EngineCreation::Accepted)
        .expect("well-formed blob accepted");
}

#[test]
fn call_sink_binds_exactly_once() {
    let mut sys = System::new();
    let loader = sys.new_loader();
    let relay = sys.new_call_relay();
    let interp = sys
        .new_interpreter(loader, None, false, EngineCreation::Accepted)
        .expect("loader exists");
    assert_eq!(sys.set_call_sink(interp, 99), Err(OpError::NotFound), "unknown relay");
    sys.set_call_sink(interp, relay).expect("first binding");
    assert_eq!(sys.set_call_sink(interp, relay), Err(OpError::CallSinkAlreadyBound));
}

#[test]
fn snapshot_demands_the_capability_and_an_idle_instance() {
    let mut sys = System::new();
    let loader = sys.new_loader();
    let plain = sys
        .new_interpreter(loader, None, false, EngineCreation::Accepted)
        .expect("loader exists");
    assert_eq!(sys.store_snapshot(plain, vec![7]), Err(OpError::SnapshotDisabled));

    let snapshotting = sys
        .new_interpreter(loader, None, true, EngineCreation::Accepted)
        .expect("loader exists");
    sys.begin_execute(snapshotting).expect("instance exists");
    assert_eq!(sys.store_snapshot(snapshotting, vec![7]), Err(OpError::Busy));
    sys.finish_execute(snapshotting).expect("in flight");
    let blob = sys.store_snapshot(snapshotting, vec![7, 8]).expect("idle and capable");
    assert_eq!(sys.snapshot_read(blob), Ok(&vec![7, 8]));
    assert_eq!(
        sys.begin_execute(snapshotting),
        Err(OpError::AlreadySnapshotted),
        "a snapshotted instance mutates no further"
    );
}

#[test]
fn new_snapshot_demands_the_blob_buffer() {
    let mut sys = System::new();
    assert_eq!(sys.new_snapshot(None), Err(OpError::MissingPayload));
    let h = sys.new_snapshot(Some(vec![42])).expect("buffer given");
    assert_eq!(sys.snapshot_read(h), Ok(&vec![42]));
}

#[test]
fn finish_execute_without_begin_fails() {
    let mut sys = System::new();
    let loader = sys.new_loader();
    let interp = sys
        .new_interpreter(loader, None, false, EngineCreation::Accepted)
        .expect("loader exists");
    assert_eq!(sys.finish_execute(interp), Err(OpError::NotRunning));
}

#[test]
fn engine_failure_surfaces_with_its_message() {
    let mut sys = System::new();
    let loader = sys.new_loader();
    let interp = sys
        .new_interpreter(loader, None, false, EngineCreation::Accepted)
        .expect("loader exists");
    let report = EnginePoll::Failed("heap limit exceeded".to_string());
    assert_eq!(
        sys.record_poll(interp, report),
        Err(OpError::EngineFailure("heap limit exceeded".to_string()))
    );
}

#[test]
fn overlapping_executions_queue_on_the_instance() {
    let mut sys = System::new();
    let loader = sys.new_loader();
    let interp = sys
        .new_interpreter(loader, None, false, EngineCreation::Accepted)
        .expect("loader exists");
    sys.begin_execute(interp).expect("instance exists");
    sys.begin_execute(interp).expect("overlapping executions allowed");
    sys.finish_execute(interp).expect("two in flight");
    assert_eq!(
        sys.record_poll(interp, EnginePoll::Pending),
        Ok(PollStatus::Pending),
        "one still in flight"
    );
    sys.finish_execute(interp).expect("one in flight");
    assert_eq!(sys.record_poll(interp, EnginePoll::Complete), Ok(PollStatus::Complete));
}
