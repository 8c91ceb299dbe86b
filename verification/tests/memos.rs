use reactive_engine::runtime::Runtime;
use reactive_engine::sched::FlushStep;
use reactive_engine::value::Value;
use reactive_engine::EngineError;

fn int_value(v: Value) -> i64 {
    match v {
        Value::Int(i) => i,
        _ => panic!("expected an integer value"),
    }
}

/// Runs the derivation of a memo computing `source + offset`.
fn run_plus_memo(rt: &mut Runtime, m: usize, source: usize, offset: i64) {
    rt.begin_run(m);
    let v = int_value(rt.read(source));
    rt.end_memo_run(m, Value::Int(v + offset));
}

/// Runs the derivation of a memo computing `source * factor`.
fn run_times_memo(rt: &mut Runtime, m: usize, source: usize, factor: i64) {
    rt.begin_run(m);
    let v = int_value(rt.read(source));
    rt.end_memo_run(m, Value::Int(v * factor));
}

#[test]
fn memo_is_cached_until_a_dependency_changes() {
    let mut rt = Runtime::new();
    let s = rt.new_cell(Value::Int(3));
    let m = rt.new_memo(Value::Unit);
    assert!(rt.memo_value(m).is_none(), "a memo is stale before its first run");
    run_plus_memo(&mut rt, m, s, 1);
    assert_eq!(int_value(rt.memo_value(m).unwrap()), 4);
    // no dependency changed: still cached
    assert_eq!(int_value(rt.memo_value(m).unwrap()), 4);
    rt.write(s, Value::Int(10));
    assert!(rt.memo_value(m).is_none(), "a queued memo is stale");
    run_plus_memo(&mut rt, m, s, 1);
    assert_eq!(int_value(rt.memo_value(m).unwrap()), 11);
}

#[test]
fn diamond_recomputes_each_memo_and_the_effect_once() {
    let mut rt = Runtime::new();
    let s = rt.new_cell(Value::Int(1));
    let m1 = rt.new_memo(Value::Unit);
    let m2 = rt.new_memo(Value::Unit);
    let e = rt.new_effect(false);
    run_plus_memo(&mut rt, m1, s, 1);
    run_times_memo(&mut rt, m2, s, 2);
    rt.begin_run(e);
    assert_eq!(int_value(rt.memo_value(m1).unwrap()), 2);
    assert_eq!(int_value(rt.memo_value(m2).unwrap()), 2);
    rt.end_effect_run(e);

    rt.write(s, Value::Int(5));
    rt.flush_start();
    let mut m1_runs = 0;
    let mut m2_runs = 0;
    let mut e_runs = 0;
    loop {
        match rt.flush_next().unwrap() {
            FlushStep::RunMemo(m) => {
                if m == m1 {
                    m1_runs += 1;
                    run_plus_memo(&mut rt, m1, s, 1);
                } else {
                    assert_eq!(m, m2);
                    m2_runs += 1;
                    run_times_memo(&mut rt, m2, s, 2);
                }
            }
            FlushStep::RunEffect(e2) => {
                assert_eq!(e2, e);
                e_runs += 1;
                rt.begin_run(e2);
                // glitch-free: the effect sees both memos fully settled
                assert_eq!(int_value(rt.memo_value(m1).unwrap()), 6);
                assert_eq!(int_value(rt.memo_value(m2).unwrap()), 10);
                rt.end_effect_run(e2);
            }
            FlushStep::Done => break,
        }
    }
    assert_eq!(m1_runs, 1);
    assert_eq!(m2_runs, 1);
    assert_eq!(e_runs, 1);
}

#[test]
fn unchanged_memo_value_does_not_wake_subscribers() {
    let mut rt = Runtime::new();
    let s = rt.new_cell(Value::Int(5));
    let m = rt.new_memo(Value::Unit);
    let e = rt.new_effect(false);
    // the memo computes the sign of s
    rt.begin_run(m);
    let v = int_value(rt.read(s));
    rt.end_memo_run(m, Value::Bool(v > 0));
    rt.begin_run(e);
    let _ = rt.memo_value(m).unwrap();
    rt.end_effect_run(e);

    // a write that leaves the sign unchanged
    rt.write(s, Value::Int(9));
    rt.flush_start();
    let mut e_ran = false;
    loop {
        match rt.flush_next().unwrap() {
            FlushStep::RunMemo(m2) => {
                assert_eq!(m2, m);
                rt.begin_run(m2);
                let v = int_value(rt.read(s));
                rt.end_memo_run(m2, Value::Bool(v > 0));
            }
            FlushStep::RunEffect(_) => {
                e_ran = true;
            }
            FlushStep::Done => break,
        }
    }
    assert!(!e_ran, "the memo's value did not change, so the effect must not run");
}

#[test]
fn chained_memos_settle_in_dependency_order() {
    let mut rt = Runtime::new();
    let s = rt.new_cell(Value::Int(1));
    let m1 = rt.new_memo(Value::Unit);
    let m2 = rt.new_memo(Value::Unit);
    // m1 = s + 1
    run_plus_memo(&mut rt, m1, s, 1);
    // m2 = m1 * 10 (reads m1's output through memo_value)
    rt.begin_run(m2);
    let v = int_value(rt.memo_value(m1).unwrap());
    rt.end_memo_run(m2, Value::Int(v * 10));

    rt.write(s, Value::Int(4));
    rt.flush_start();
    let mut order = Vec::new();
    loop {
        match rt.flush_next().unwrap() {
            FlushStep::RunMemo(m) => {
                order.push(m);
                if m == m1 {
                    run_plus_memo(&mut rt, m1, s, 1);
                } else {
                    assert_eq!(m, m2);
                    rt.begin_run(m2);
                    let v = int_value(rt.memo_value(m1).unwrap());
                    rt.end_memo_run(m2, Value::Int(v * 10));
                }
            }
            FlushStep::RunEffect(_) => panic!("no effect exists"),
            FlushStep::Done => break,
        }
    }
    // the producer memo must settle before its consumer
    assert_eq!(order, vec![m1, m2]);
    assert_eq!(int_value(rt.memo_value(m2).unwrap()), 50);
}

#[test]
fn mutually_dependent_memos_are_reported_as_cycle() {
    let mut rt = Runtime::new();
    let s = rt.new_cell(Value::Int(1));
    let m1 = rt.new_memo(Value::Int(0));
    let m2 = rt.new_memo(Value::Int(0));
    // each memo reads the source and the other memo's cache
    rt.begin_run(m1);
    let v = int_value(rt.read(s));
    let _ = rt.memo_value(m2);
    rt.end_memo_run(m1, Value::Int(v));
    rt.begin_run(m2);
    let v = int_value(rt.read(s));
    let _ = rt.memo_value(m1);
    rt.end_memo_run(m2, Value::Int(v));

    rt.write(s, Value::Int(2));
    rt.flush_start();
    // both memos are queued and each blocks on the other
    match rt.flush_next() {
        Err(err) => assert_eq!(err, EngineError::CycleDetected),
        Ok(step) => panic!("expected a cycle, got {:?}", step),
    }
}

#[test]
fn disposed_memo_leaves_the_graph() {
    let mut rt = Runtime::new();
    let s = rt.new_cell(Value::Int(1));
    let m = rt.new_memo(Value::Unit);
    run_plus_memo(&mut rt, m, s, 1);
    rt.dispose_memo(m);
    rt.write(s, Value::Int(2));
    rt.flush_start();
    match rt.flush_next().unwrap() {
        FlushStep::Done => {}
        _ => panic!("a disposed memo must not be scheduled"),
    }
}
