use buck_tui::hooks::Hook;
use buck_tui::hooks::Hooks;
use buck_tui::scheduler::CompletionPlan;
use buck_tui::scheduler::ExecOutcome;
use buck_tui::scheduler::Scheduler;
use buck_tui::scheduler::StartPlan;
use buck_tui::task::Continuation;
use buck_tui::task::Priority;
use buck_tui::task::Task;
use buck_tui::task::TaskStage;

fn cont(path: &str) -> Continuation {
    Continuation::DeliverDirectoryTargets {
        path: path.to_string(),
        generation: 0,
    }
}

fn task(priority: Priority, marker: &str) -> Task {
    Task::new(
        priority,
        vec!["tool".to_string(), marker.to_string()],
        "/tmp".to_string(),
        cont(marker),
    )
}

#[test]
fn priority_high_leaves_before_low() {
    let mut s = Scheduler::new();
    s.dispatch_micro(task(Priority::Low, "a"));
    s.dispatch_micro(task(Priority::High, "b"));
    let first = s.next_task(true).unwrap();
    assert_eq!(first.priority, Priority::High);
    assert_eq!(first.cmds[1], "b");
    let second = s.next_task(true).unwrap();
    assert_eq!(second.priority, Priority::Low);
    assert_eq!(second.cmds[1], "a");
    assert!(s.next_task(true).is_none());
}

#[test]
fn equal_priority_is_fifo() {
    let mut s = Scheduler::new();
    s.dispatch_macro(task(Priority::Normal, "first"));
    s.dispatch_macro(task(Priority::Normal, "second"));
    s.dispatch_macro(task(Priority::Normal, "third"));
    assert_eq!(s.next_task(false).unwrap().cmds[1], "first");
    assert_eq!(s.next_task(false).unwrap().cmds[1], "second");
    assert_eq!(s.next_task(false).unwrap().cmds[1], "third");
}

#[test]
fn lanes_are_independent() {
    let mut s = Scheduler::new();
    s.dispatch_micro(task(Priority::Low, "micro"));
    s.dispatch_macro(task(Priority::High, "macro"));
    assert_eq!(s.next_task(false).unwrap().cmds[1], "macro");
    assert_eq!(s.next_task(true).unwrap().cmds[1], "micro");
}

#[test]
fn begin_execution_launches_and_registers() {
    let mut s = Scheduler::new();
    let t = task(Priority::Normal, "arg");
    let id = t.id;
    match s.begin_execution(t, false) {
        StartPlan::Launch {
            id: lid,
            program,
            args,
            current_dir,
            token,
        } => {
            assert_eq!(lid, id);
            assert_eq!(program, "tool");
            assert_eq!(args, vec!["arg".to_string()]);
            assert_eq!(current_dir, "/tmp");
            assert!(!token.is_cancelled());
        }
        _ => panic!("expected a launch"),
    }
    assert!(s.has_task(&id));
    assert_eq!(s.get_ongoing_tasks(), vec![id]);
}

#[test]
fn cancelled_pending_task_is_discarded() {
    let mut s = Scheduler::new();
    let t = task(Priority::Normal, "x");
    let id = t.id;
    assert!(matches!(s.begin_execution(t, true), StartPlan::Discarded));
    assert!(!s.has_task(&id));
}

#[test]
fn task_without_command_runs_nothing() {
    let mut s = Scheduler::new();
    let t = Task::new(Priority::Low, Vec::new(), "/".to_string(), cont("x"));
    assert!(matches!(
        s.begin_execution(t, false),
        StartPlan::NothingToRun
    ));
}

#[test]
fn success_hands_out_continuation_and_hooks_once() {
    let mut s = Scheduler::new();
    let mut t = task(Priority::Normal, "x");
    t.hooks.add_sync("cleanup".to_string());
    let id = t.id;
    s.begin_execution(t, false);
    let plan = s.finish_execution(
        id,
        ExecOutcome::Exited {
            code: 0,
            stdout: "out".to_string(),
        },
    );
    let (c, stdout) = plan.on_success.expect("continuation owed on success");
    assert_eq!(stdout, "out");
    assert!(matches!(c, Continuation::DeliverDirectoryTargets { .. }));
    assert_eq!(plan.hooks, vec![Hook::Immediate("cleanup".to_string())]);
    assert!(!plan.failed);
    // Settling the same task again hands out nothing.
    let again = s.finish_execution(
        id,
        ExecOutcome::Exited {
            code: 0,
            stdout: "out".to_string(),
        },
    );
    assert!(again.on_success.is_none());
    assert!(again.hooks.is_empty());
    assert!(!again.failed);
}

#[test]
fn nonzero_exit_reports_failure_without_hooks() {
    let mut s = Scheduler::new();
    let mut t = task(Priority::Normal, "x");
    t.hooks.add_sync("cleanup".to_string());
    let id = t.id;
    s.begin_execution(t, false);
    let plan = s.finish_execution(
        id,
        ExecOutcome::Exited {
            code: 2,
            stdout: String::new(),
        },
    );
    assert!(plan.on_success.is_none());
    assert!(plan.hooks.is_empty());
    assert!(plan.failed);
    assert!(!s.has_task(&id));
}

#[test]
fn spawn_failure_reports_failure() {
    let mut s = Scheduler::new();
    let t = task(Priority::Normal, "x");
    let id = t.id;
    s.begin_execution(t, false);
    let plan = s.finish_execution(id, ExecOutcome::SpawnFailed);
    assert!(plan.on_success.is_none());
    assert!(plan.failed);
}

#[test]
fn mid_flight_cancellation_runs_nothing() {
    let mut s = Scheduler::new();
    let mut t = task(Priority::Normal, "x");
    t.hooks.add_sync("cleanup".to_string());
    let id = t.id;
    s.begin_execution(t, false);
    let plan: CompletionPlan = s.finish_execution(id, ExecOutcome::Cancelled);
    assert!(plan.on_success.is_none());
    assert!(plan.hooks.is_empty());
    assert!(!plan.failed);
    assert!(!s.has_task(&id));
}

#[test]
fn cancel_runs_hooks_and_removes_task() {
    let mut s = Scheduler::new();
    let mut t = task(Priority::Normal, "x");
    t.hooks.add_async("drain".to_string());
    let id = t.id;
    let launch_token = match s.begin_execution(t, false) {
        StartPlan::Launch { token, .. } => token,
        _ => panic!("expected a launch"),
    };
    let hooks = s.cancel(id).expect("task was registered");
    assert_eq!(hooks, vec![Hook::Awaited("drain".to_string())]);
    assert!(launch_token.is_cancelled());
    assert!(!s.has_task(&id));
    // A second cancel finds nothing: the hooks ran exactly once.
    assert!(s.cancel(id).is_none());
    // A completion racing the cancel also finds nothing.
    let plan = s.finish_execution(
        id,
        ExecOutcome::Exited {
            code: 0,
            stdout: String::new(),
        },
    );
    assert!(plan.on_success.is_none());
    assert!(plan.hooks.is_empty());
}

#[test]
fn cancel_all_fires_every_hook_once() {
    let mut s = Scheduler::new();
    let mut t1 = task(Priority::Normal, "one");
    t1.hooks.add_sync("h1".to_string());
    let mut t2 = task(Priority::High, "two");
    t2.hooks.add_sync("h2".to_string());
    let id1 = t1.id;
    let id2 = t2.id;
    s.begin_execution(t1, false);
    s.begin_execution(t2, false);
    let plans = s.cancel_all();
    assert_eq!(plans.len(), 2);
    assert_eq!(plans[0].0, id1);
    assert_eq!(plans[0].1, vec![Hook::Immediate("h1".to_string())]);
    assert_eq!(plans[1].0, id2);
    assert_eq!(plans[1].1, vec![Hook::Immediate("h2".to_string())]);
    assert!(!s.has_task(&id1));
    assert!(!s.has_task(&id2));
    assert!(s.cancel_all().is_empty());
}

#[test]
fn shutdown_signals_the_loop_token() {
    let mut s = Scheduler::new();
    let signal = s.shutdown_signal();
    assert!(!signal.is_cancelled());
    s.shutdown();
    assert!(signal.is_cancelled());
}

#[test]
fn task_lifecycle_and_token() {
    let mut t = task(Priority::Normal, "x");
    assert_eq!(t.stage, TaskStage::Pending);
    t.dispatch();
    assert_eq!(t.stage, TaskStage::Dispatched);
    t.hook();
    assert_eq!(t.stage, TaskStage::Hooked);
    assert!(!t.is_cancelled());
    t.cancel();
    assert!(t.is_cancelled());
    let other = task(Priority::Normal, "y");
    assert_ne!(t.id, other.id);
}

#[test]
fn hooks_drain_in_order_and_only_once() {
    let mut h = Hooks::new();
    assert_eq!(h.pending_count(), 0);
    h.add_sync("a".to_string());
    h.add_async("b".to_string());
    h.add_sync("c".to_string());
    assert_eq!(h.pending_count(), 3);
    let drained = h.run_all();
    assert_eq!(
        drained,
        vec![
            Hook::Immediate("a".to_string()),
            Hook::Awaited("b".to_string()),
            Hook::Immediate("c".to_string()),
        ]
    );
    assert_eq!(h.pending_count(), 0);
    assert!(h.run_all().is_empty());
    // An action added after a drain lands in the next batch.
    h.add_sync("later".to_string());
    assert_eq!(h.run_all(), vec![Hook::Immediate("later".to_string())]);
}

#[test]
fn default_hooks_are_empty() {
    let h: Hooks = Default::default();
    assert_eq!(h.pending_count(), 0);
}
