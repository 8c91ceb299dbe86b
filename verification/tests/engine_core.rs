use reactive_engine::runtime::Runtime;
use reactive_engine::sched::FlushStep;
use reactive_engine::value::Value;
use reactive_engine::EngineError;

fn as_int(v: Value) -> i64 {
    match v {
        Value::Int(i) => i,
        _ => panic!("expected an integer value"),
    }
}

#[test]
fn read_outside_any_run_does_not_subscribe() {
    let mut rt = Runtime::new();
    let s = rt.new_cell(Value::Int(7));
    let e = rt.new_effect(false);
    // a read with no computation running must not subscribe anything
    let v = rt.read(s);
    assert_eq!(as_int(v), 7);
    rt.write(s, Value::Int(8));
    rt.flush_start();
    match rt.flush_next().unwrap() {
        FlushStep::Done => {}
        _ => panic!("nothing should have been queued"),
    }
    // e exists but never read s
    let _ = e;
}

#[test]
fn write_bumps_version_every_time() {
    let mut rt = Runtime::new();
    let s = rt.new_cell(Value::Int(0));
    assert_eq!(rt.version(s), 0);
    rt.write(s, Value::Int(1));
    assert_eq!(rt.version(s), 1);
    // writing an equal value is still a write: no equality short-circuit on cells
    rt.write(s, Value::Int(1));
    assert_eq!(rt.version(s), 2);
    assert_eq!(as_int(rt.peek(s)), 1);
}

#[test]
fn effect_runs_exactly_once_after_batched_writes() {
    let mut rt = Runtime::new();
    let s = rt.new_cell(Value::Int(0));
    let e = rt.new_effect(false);
    rt.begin_run(e);
    let _ = rt.read(s);
    rt.end_effect_run(e);
    // several writes before one flush
    rt.write(s, Value::Int(1));
    rt.write(s, Value::Int(2));
    rt.write(s, Value::Int(3));
    rt.flush_start();
    let mut runs = 0;
    loop {
        match rt.flush_next().unwrap() {
            FlushStep::RunEffect(e2) => {
                assert_eq!(e2, e);
                rt.begin_run(e2);
                let v = rt.read(s);
                rt.end_effect_run(e2);
                assert_eq!(as_int(v), 3);
                runs += 1;
            }
            FlushStep::RunMemo(_) => panic!("no memo exists"),
            FlushStep::Done => break,
        }
    }
    assert_eq!(runs, 1);
}

#[test]
fn dependencies_are_rebuilt_each_run() {
    let mut rt = Runtime::new();
    let a = rt.new_cell(Value::Bool(true));
    let b = rt.new_cell(Value::Int(10));
    let c = rt.new_cell(Value::Int(20));
    let e = rt.new_effect(false);
    // first run reads a and b
    rt.begin_run(e);
    let _ = rt.read(a);
    let _ = rt.read(b);
    rt.end_effect_run(e);
    // second run reads a and c: the subscription to b must be gone
    rt.begin_run(e);
    let _ = rt.read(a);
    let _ = rt.read(c);
    rt.end_effect_run(e);
    rt.write(b, Value::Int(11));
    rt.flush_start();
    match rt.flush_next().unwrap() {
        FlushStep::Done => {}
        _ => panic!("the effect no longer depends on b"),
    }
    rt.write(c, Value::Int(21));
    rt.flush_start();
    match rt.flush_next().unwrap() {
        FlushStep::RunEffect(e2) => {
            assert_eq!(e2, e);
            rt.begin_run(e2);
            let _ = rt.read(a);
            let _ = rt.read(c);
            rt.end_effect_run(e2);
        }
        _ => panic!("the effect depends on c now"),
    }
}

#[test]
fn run_immediately_effect_is_queued_at_creation() {
    let mut rt = Runtime::new();
    let s = rt.new_cell(Value::Int(1));
    let e = rt.new_effect(true);
    rt.flush_start();
    match rt.flush_next().unwrap() {
        FlushStep::RunEffect(e2) => {
            assert_eq!(e2, e);
            rt.begin_run(e2);
            let _ = rt.read(s);
            rt.end_effect_run(e2);
        }
        _ => panic!("a run-immediately effect is queued before any write"),
    }
    match rt.flush_next().unwrap() {
        FlushStep::Done => {}
        _ => panic!("only one effect was queued"),
    }
}

#[test]
fn self_requeuing_effect_is_reported_as_cycle() {
    let mut rt = Runtime::new();
    let s = rt.new_cell(Value::Int(0));
    let e = rt.new_effect(false);
    rt.begin_run(e);
    let _ = rt.read(s);
    rt.end_effect_run(e);
    rt.write(s, Value::Int(1));
    rt.flush_start();
    let mut saw_cycle = false;
    let mut guard = 0u32;
    loop {
        match rt.flush_next() {
            Ok(FlushStep::RunEffect(e2)) => {
                // the effect body increments its own dependency
                rt.begin_run(e2);
                let v = as_int(rt.read(s));
                rt.end_effect_run(e2);
                rt.write(s, Value::Int(v + 1));
            }
            Ok(FlushStep::RunMemo(_)) => panic!("no memo exists"),
            Ok(FlushStep::Done) => panic!("this flush can never finish normally"),
            Err(err) => {
                assert_eq!(err, EngineError::CycleDetected);
                saw_cycle = true;
                break;
            }
        }
        guard += 1;
        assert!(guard < 100_000, "the iteration cap should have fired");
    }
    assert!(saw_cycle);
}

#[test]
fn opt_in_equality_write_skips_equal_values() {
    let mut rt = Runtime::new();
    let s = rt.new_cell(Value::Int(1));
    assert!(!rt.write_if_changed(s, Value::Int(1)));
    assert_eq!(rt.version(s), 0);
    assert!(rt.write_if_changed(s, Value::Int(2)));
    assert_eq!(rt.version(s), 1);
    assert_eq!(as_int(rt.peek(s)), 2);
}

#[test]
fn disposed_effect_is_never_queued_again() {
    let mut rt = Runtime::new();
    let s = rt.new_cell(Value::Int(0));
    let e = rt.new_effect(false);
    rt.begin_run(e);
    let _ = rt.read(s);
    rt.end_effect_run(e);
    rt.dispose_effect(e);
    rt.write(s, Value::Int(1));
    rt.flush_start();
    match rt.flush_next().unwrap() {
        FlushStep::Done => {}
        _ => panic!("a disposed effect must not run"),
    }
}
