use reactive_engine::action::Action;
use reactive_engine::resource::FetchState;
use reactive_engine::resource::Resource;
use reactive_engine::runtime::Runtime;
use reactive_engine::sched::FlushStep;
use reactive_engine::suspense::SuspenseScope;
use reactive_engine::value::Value;

fn txt(s: &str) -> Value {
    Value::Text(String::from(s))
}

#[test]
fn stale_fetch_result_is_discarded() {
    let mut rt = Runtime::new();
    let mut r = Resource::new(&mut rt);
    // fetch for input A is issued, then the input changes to B before A
    // resolves
    let v1 = r.begin_fetch(&mut rt);
    let v2 = r.begin_fetch(&mut rt);
    assert_eq!(v1, 1);
    assert_eq!(v2, 2);
    // B resolves first and settles the resource
    r.complete(&mut rt, v2, Ok(txt("B")));
    match &r.state {
        FetchState::Ready { value: Value::Text(s), version } => {
            assert_eq!(s, "B");
            assert_eq!(*version, v2);
        }
        other => panic!("expected Ready, got {:?}", other),
    }
    let notify_version_after_b = rt.version(r.notify);
    // the slow A result arrives afterwards and must be dropped silently
    r.complete(&mut rt, v1, Ok(txt("A")));
    match &r.state {
        FetchState::Ready { value: Value::Text(s), version } => {
            assert_eq!(s, "B");
            assert_eq!(*version, v2);
        }
        other => panic!("state regressed to {:?}", other),
    }
    assert_eq!(rt.version(r.notify), notify_version_after_b, "no notification for a dropped result");
}

#[test]
fn failed_fetch_is_captured_not_thrown() {
    let mut rt = Runtime::new();
    let mut r = Resource::new(&mut rt);
    let v = r.begin_fetch(&mut rt);
    r.complete(&mut rt, v, Err(String::from("connection refused")));
    match &r.state {
        FetchState::Failed { error, version } => {
            assert_eq!(error, "connection refused");
            assert_eq!(*version, v);
        }
        other => panic!("expected Failed, got {:?}", other),
    }
    assert!(r.settled_after(v));
    assert!(!r.settled_after(v + 1));
}

#[test]
fn completion_after_disposal_is_dropped() {
    let mut rt = Runtime::new();
    let mut r = Resource::new(&mut rt);
    let v = r.begin_fetch(&mut rt);
    r.dispose(&mut rt);
    r.complete(&mut rt, v, Ok(txt("late")));
    match &r.state {
        FetchState::Loading { .. } => {}
        other => panic!("a disposed resource must not settle, got {:?}", other),
    }
}

#[test]
fn resource_notifies_its_subscribers() {
    let mut rt = Runtime::new();
    let mut r = Resource::new(&mut rt);
    let e = rt.new_effect(false);
    rt.begin_run(e);
    let _ = r.snapshot(&mut rt);
    rt.end_effect_run(e);
    let v = r.begin_fetch(&mut rt);
    r.complete(&mut rt, v, Ok(txt("data")));
    rt.flush_start();
    let mut runs = 0;
    loop {
        match rt.flush_next().unwrap() {
            FlushStep::RunEffect(e2) => {
                assert_eq!(e2, e);
                rt.begin_run(e2);
                let s = r.snapshot(&mut rt);
                rt.end_effect_run(e2);
                assert!(matches!(s, FetchState::Ready { .. }));
                runs += 1;
            }
            FlushStep::RunMemo(_) => panic!("no memo exists"),
            FlushStep::Done => break,
        }
    }
    // begin_fetch and the completion both notified before one flush: the
    // subscriber still runs exactly once
    assert_eq!(runs, 1);
}

#[test]
fn action_watcher_reacts_exactly_once_per_dispatch() {
    let mut rt = Runtime::new();
    let mut a = Action::new(&mut rt);
    let mut last_seen = 0u64;
    let mut reactions = 0;

    let v1 = a.dispatch(&mut rt, txt("save")) ;
    assert_eq!(v1, 1);
    assert!(a.pending);
    assert_eq!(a.last_input, Some(txt("save")));
    // unrelated flushes observe the action while it is pending
    for _ in 0..3 {
        if a.newly_settled(&mut rt, last_seen) {
            reactions += 1;
            last_seen = a.dispatch_version;
        }
    }
    assert_eq!(reactions, 0);
    a.settle(&mut rt, Ok(txt("saved")));
    assert!(!a.pending);
    // however often the watcher re-runs now, it reacts exactly once
    for _ in 0..3 {
        if a.newly_settled(&mut rt, last_seen) {
            reactions += 1;
            last_seen = a.dispatch_version;
        }
    }
    assert_eq!(reactions, 1);

    // the next dispatch is detected exactly once again
    let v2 = a.dispatch(&mut rt, txt("save again"));
    assert_eq!(v2, 2);
    a.settle(&mut rt, Err(String::from("boom")));
    assert!(!a.pending, "pending clears on failure too");
    assert_eq!(a.last_result, Some(Err(String::from("boom"))));
    for _ in 0..3 {
        if a.newly_settled(&mut rt, last_seen) {
            reactions += 1;
            last_seen = a.dispatch_version;
        }
    }
    assert_eq!(reactions, 2);
}

#[test]
fn overlapping_dispatches_keep_the_last_settlement() {
    let mut rt = Runtime::new();
    let mut a = Action::new(&mut rt);
    let v1 = a.dispatch(&mut rt, Value::Int(1));
    let v2 = a.dispatch(&mut rt, Value::Int(2));
    assert_eq!((v1, v2), (1, 2));
    // both mutations run concurrently; results apply in completion order
    a.settle(&mut rt, Ok(txt("first done")));
    a.settle(&mut rt, Ok(txt("second done")));
    assert_eq!(a.last_result, Some(Ok(txt("second done"))));
    assert_eq!(a.last_input, Some(Value::Int(2)));
}

#[test]
fn suspense_scope_tracks_any_pending() {
    let mut rt = Runtime::new();
    let mut resources = Vec::new();
    resources.push(Resource::new(&mut rt));
    resources.push(Resource::new(&mut rt));
    let mut scope = SuspenseScope::new();
    scope.register(0);
    scope.register(1);
    assert!(!scope.any_pending(&resources, &mut rt));

    let v0 = resources[0].begin_fetch(&mut rt);
    assert!(scope.any_pending(&resources, &mut rt));
    let v1 = resources[1].begin_fetch(&mut rt);
    resources[0].complete(&mut rt, v0, Ok(txt("a")));
    assert!(scope.any_pending(&resources, &mut rt), "one resource is still loading");
    resources[1].complete(&mut rt, v1, Ok(txt("b")));
    assert!(!scope.any_pending(&resources, &mut rt));
}

#[test]
fn boundary_effect_rerenders_through_the_scope() {
    let mut rt = Runtime::new();
    let mut resources = Vec::new();
    resources.push(Resource::new(&mut rt));
    let mut scope = SuspenseScope::new();
    scope.register(0);
    let e = rt.new_effect(false);
    // the boundary's effect reads the aggregate and thereby subscribes to
    // the resource
    rt.begin_run(e);
    let pending = scope.any_pending(&resources, &mut rt);
    rt.end_effect_run(e);
    assert!(!pending);

    let v = resources[0].begin_fetch(&mut rt);
    resources[0].complete(&mut rt, v, Ok(txt("content")));
    rt.flush_start();
    let mut reran = false;
    loop {
        match rt.flush_next().unwrap() {
            FlushStep::RunEffect(e2) => {
                assert_eq!(e2, e);
                rt.begin_run(e2);
                let pending = scope.any_pending(&resources, &mut rt);
                rt.end_effect_run(e2);
                assert!(!pending, "the fetch has settled");
                reran = true;
            }
            FlushStep::RunMemo(_) => panic!("no memo exists"),
            FlushStep::Done => break,
        }
    }
    assert!(reran, "the boundary re-evaluates when the resource changes state");
}
