use sha3::Digest;
use snsx::runtime::{
    ActorId, ActorSystem, DeterministicClock, HandleId, HybridHeap, RuntimeContext, SandboxError,
    SandboxPolicy, TaskScheduler, TaskState, ValueShape, size_estimate,
};

#[test]
fn scheduler_hands_out_ids_in_order() {
    let mut s: TaskScheduler<i64> = TaskScheduler::new(false);
    let a = s.spawn("first".to_string());
    let b = s.spawn("second".to_string());
    assert_eq!(a.0, 0);
    assert_eq!(b.0, 1);
    assert_eq!(s.take_next().map(|t| t.0), Some(0));
    assert_eq!(s.take_next().map(|t| t.0), Some(1));
    assert_eq!(s.take_next().map(|t| t.0), None);
}

#[test]
fn scheduler_records_task_states() {
    let mut s: TaskScheduler<i64> = TaskScheduler::new(true);
    let a = s.spawn("job".to_string());
    assert!(matches!(s.get(a).unwrap().state, TaskState::Ready));
    s.start(a);
    assert!(matches!(s.get(a).unwrap().state, TaskState::Running));
    s.complete(a, 42);
    assert!(matches!(s.get(a).unwrap().state, TaskState::Completed(42)));
    let b = s.spawn("other".to_string());
    s.fail(b, "boom".to_string());
    match &s.get(b).unwrap().state {
        TaskState::Failed(m) => assert_eq!(m, "boom"),
        other => panic!("{:?}", other),
    }
    assert_eq!(s.get(b).unwrap().label, "other");
    assert!(s.get(snsx::runtime::TaskId(7)).is_none());
}

#[test]
fn deterministic_scheduler_takes_lowest_id() {
    let mut s: TaskScheduler<u8> = TaskScheduler::new(true);
    for i in 0..4 {
        s.spawn(format!("t{i}"));
    }
    let mut order = Vec::new();
    while let Some(id) = s.take_next() {
        order.push(id.0);
    }
    assert_eq!(order, vec![0, 1, 2, 3]);
}

#[test]
fn actors_deliver_messages_in_order() {
    let mut sys: ActorSystem<Vec<u8>> = ActorSystem::default();
    let a = sys.create_actor();
    let b = sys.create_actor();
    assert_eq!(a.0, 0);
    assert_eq!(b.0, 1);
    sys.send(a, vec![1]);
    sys.send(a, vec![2]);
    sys.send(ActorId(9), vec![3]);
    assert_eq!(sys.recv(a), Some(vec![1]));
    assert_eq!(sys.recv(a), Some(vec![2]));
    assert_eq!(sys.recv(a), None);
    assert_eq!(sys.recv(b), None);
    assert_eq!(sys.recv(ActorId(9)), None);
}

#[test]
fn sandbox_checks_follow_the_policy() {
    let p = SandboxPolicy::default();
    assert!(!p.allow_fs && !p.allow_network && p.allow_ai && !p.deterministic);
    assert_eq!(p.max_memory_bytes, 64 * 1024 * 1024);
    assert_eq!(p.check_fs(), Err(SandboxError::FilesystemDenied));
    assert_eq!(p.check_network(), Err(SandboxError::NetworkDenied));
    assert_eq!(p.check_ai(), Ok(()));
    let open = SandboxPolicy { allow_fs: true, allow_network: true, allow_ai: false, ..SandboxPolicy::default() };
    assert_eq!(open.check_fs(), Ok(()));
    assert_eq!(open.check_network(), Ok(()));
    assert_eq!(open.check_ai(), Err(SandboxError::AiDenied));
    assert_eq!(SandboxError::FilesystemDenied.message(), "filesystem access denied");
    assert_eq!(SandboxError::NetworkDenied.message(), "network access denied");
    assert_eq!(SandboxError::AiDenied.message(), "ai execution denied");
    assert_eq!(SandboxError::MemoryExceeded.message(), "memory limit exceeded");
}

#[test]
fn clock_ticks_and_digests() {
    let mut c = DeterministicClock::new(7);
    assert_eq!(c.tick(), 1);
    assert_eq!(c.tick(), 2);
    let mut d1 = DeterministicClock::new(7);
    let mut d2 = DeterministicClock::new(7);
    let x = d1.digest_bytes(b"abc");
    let y = d2.digest_bytes(b"abc");
    assert_eq!(x, y);
    let z = d1.digest_bytes(b"abc");
    assert_ne!(x, z);
    // SHA3-256 of seed 7 (LE), tick 1 (LE) and "abc".
    let mut h = sha3::Sha3_256::new();
    h.update(7u64.to_le_bytes());
    h.update(1u64.to_le_bytes());
    h.update(b"abc");
    let expected: [u8; 32] = h.finalize().into();
    assert_eq!(x, expected);
}

#[test]
fn heap_counts_references() {
    let mut heap: HybridHeap<String> = HybridHeap::new();
    let a = heap.allocate("hello".to_string(), size_estimate(ValueShape::Text(5)));
    let b = heap.allocate("xs".to_string(), size_estimate(ValueShape::Array(3)));
    assert_eq!(a, HandleId(0));
    assert_eq!(b, HandleId(1));
    let s = heap.stats();
    assert_eq!(s.objects, 2);
    assert_eq!(s.bytes_estimate, 5 + 48);
    heap.retain(a);
    heap.release(a);
    assert_eq!(heap.get(a).map(|v| v.as_str()), Some("hello"));
    heap.release(a);
    assert!(heap.get(a).is_none());
    let s = heap.stats();
    assert_eq!(s.objects, 1);
    assert_eq!(s.bytes_estimate, 48);
    heap.release(HandleId(40));
    assert_eq!(heap.stats().objects, 1);
}

#[test]
fn size_estimates_by_shape() {
    assert_eq!(size_estimate(ValueShape::Bytes(10)), 10);
    assert_eq!(size_estimate(ValueShape::Tensor(4)), 32);
    assert_eq!(size_estimate(ValueShape::Scalar), 16);
}

#[test]
fn runtime_context_reads_given_input() {
    let mut ctx: RuntimeContext<i64> = RuntimeContext::new(
        SandboxPolicy { deterministic: true, ..SandboxPolicy::default() },
        "7\r\n3".to_string(),
        false,
    );
    assert_eq!(ctx.clock.seed, 1);
    assert_eq!(ctx.try_read_line().as_deref(), Some("7"));
    assert_eq!(ctx.try_read_line().as_deref(), Some("3"));
    assert_eq!(ctx.try_read_line(), None);
    assert_eq!(ctx.consumed_stdin_lines, 2);
    assert_eq!(ctx.read_all(), "7\r\n3");
    ctx.print_line("10");
    assert_eq!(ctx.stdout, "10\n");
    assert_eq!(ctx.accept_host_line("hello\r\n"), "hello");
    assert_eq!(ctx.consumed_stdin_lines, 3);
    let other: RuntimeContext<i64> = RuntimeContext::new(SandboxPolicy::default(), String::new(), true);
    assert_eq!(other.clock.seed, 0x5EED_C0DE);
}

#[test]
fn reading_input_keeps_the_rest_of_the_context() {
    let mut ctx: RuntimeContext<i64> = RuntimeContext::new(SandboxPolicy::default(), "a\nb\n".to_string(), true);
    let before = ctx.sandbox.clone();
    assert_eq!(ctx.try_read_line().as_deref(), Some("a"));
    assert_eq!(ctx.read_all(), "a\nb\n");
    assert!(ctx.allow_host_stdin);
    assert_eq!(ctx.sandbox.allow_fs, before.allow_fs);
    assert_eq!(ctx.sandbox.deterministic, before.deterministic);
    assert_eq!(ctx.sandbox.max_memory_bytes, before.max_memory_bytes);
    assert_eq!(ctx.stdout, "");
    assert_eq!(ctx.try_read_line().as_deref(), Some("b"));
    assert_eq!(ctx.try_read_line(), None);
    assert_eq!(ctx.consumed_stdin_lines, 2);
    assert_eq!(ctx.accept_host_line("c\r\n"), "c");
    assert_eq!(ctx.consumed_stdin_lines, 3);
    assert_eq!(ctx.read_all(), "a\nb\n");
}

#[test]
fn spawn_ids_count_the_spawns_whatever_runs_between() {
    let mut s: TaskScheduler<i64> = TaskScheduler::new(true);
    let a = s.spawn("a".to_string());
    s.start(a);
    let b = s.spawn("b".to_string());
    s.complete(a, 3);
    assert_eq!(s.take_next().map(|t| t.0), Some(a.0));
    let c = s.spawn("c".to_string());
    assert_eq!((a.0, b.0, c.0), (0, 1, 2));
    let r = s.get(c).unwrap();
    assert_eq!(r.label, "c");
    assert!(matches!(r.state, TaskState::Ready));
    assert_eq!(s.get(b).unwrap().label, "b");
    assert_eq!(s.take_next().map(|t| t.0), Some(1));
    assert_eq!(s.take_next().map(|t| t.0), Some(2));
    assert!(s.take_next().is_none());
}
