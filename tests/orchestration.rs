use sparrow_exec::collect_token::CollectToken;
use sparrow_exec::executor::ComputeExecutor;
use sparrow_exec::fabric::{
    build_fabric, Channel, ChannelCapacities, ChannelConsumer, OperationDescriptor, OperatorKind, PlanError,
};
use sparrow_exec::finish::{
    ComputeResult, ComputeSnapshot, FailureStage, FinishAction, FinishConfig, FinishEvent,
    FinishPhase, Finisher, Terminal,
};
use sparrow_exec::progress::{ProgressMerger, ProgressUpdate};
use sparrow_exec::tasks::{task_plan, JoinStatus, TaskFailure, TaskLabel};
use sparrow_exec::watermark::{aggregate_watermark, max_input_timestamp, merge, Timestamp};

fn op(kind: OperatorKind, inputs: Vec<usize>) -> OperationDescriptor {
    OperationDescriptor { operator: Some(kind), inputs }
}

fn ts(seconds: i64, nanos: i32) -> Timestamp {
    Timestamp { seconds, nanos }
}

fn result_at(t: Timestamp) -> ComputeResult {
    ComputeResult { max_input_timestamp: t, plan_hash: vec![1, 2, 3] }
}

fn is_complete_with(a: &FinishAction, n: usize) -> bool {
    matches!(a, FinishAction::Emit(Terminal::ExecutionComplete { compute_snapshots }) if compute_snapshots.len() == n)
}

#[test]
fn scan_scan_join_scenario() {
    // Two scans feeding a two-input operation whose output is the sink.
    let plan = vec![
        op(OperatorKind::Scan, vec![]),
        op(OperatorKind::Scan, vec![]),
        op(OperatorKind::Merge, vec![0, 1]),
    ];
    let fabric = build_fabric(&plan).unwrap();
    assert_eq!(fabric.channels.len(), 3);
    assert_eq!(fabric.channels[0], Channel { producer: 2, consumer: ChannelConsumer::Output });
    assert_eq!(fabric.consumers, vec![vec![1], vec![2], vec![0]]);
    assert_eq!(fabric.inputs, vec![vec![], vec![], vec![1, 2]]);

    let labels = task_plan(plan.len(), false);
    assert_eq!(labels.len(), 4);
    let mut spawner = sparrow_exec::tasks::ComputeTaskSpawner::new();
    for l in &labels {
        spawner.spawn(*l);
    }
    let mut join = spawner.finish();
    let mut status = JoinStatus::Waiting;
    for _ in 0..labels.len() {
        status = join.record(Ok(()));
    }
    assert!(matches!(status, JoinStatus::Completed));

    let reported = vec![ts(3000, 0), ts(5000, 0)];
    assert_eq!(reported.len(), 2);
    let max = max_input_timestamp(&reported);
    assert_eq!(max, ts(5000, 0));

    let mut fin = Finisher::new(FinishConfig {
        has_store: false,
        snapshot_requested: false,
    });
    let a = fin.step(FinishEvent::Joined(Ok(result_at(max))));
    assert!(is_complete_with(&a, 0));
    assert_eq!(fin.phase, FinishPhase::Done);
}

#[test]
fn fabric_registers_one_channel_per_edge() {
    // Operation 2 reads operation 0 twice; operation 3 reads 1 and 2.
    let plan = vec![
        op(OperatorKind::Scan, vec![]),
        op(OperatorKind::Select, vec![0]),
        op(OperatorKind::Merge, vec![0, 0]),
        op(OperatorKind::Merge, vec![1, 2]),
    ];
    let f = build_fabric(&plan).unwrap();
    assert_eq!(f.channels.len(), 6);
    // Operation 3 is wired first, then 2, then 1.
    assert_eq!(f.inputs, vec![vec![], vec![5], vec![3, 4], vec![1, 2]]);
    assert_eq!(f.consumers, vec![vec![3, 4, 5], vec![1], vec![2], vec![0]]);
    for (i, ins) in f.inputs.iter().enumerate() {
        for (k, c) in ins.iter().enumerate() {
            let ch = f.channels[*c];
            assert_eq!(ch.producer, plan[i].inputs[k]);
            assert_eq!(ch.consumer, ChannelConsumer::Operation { index: i, slot: k });
            assert!(f.consumers[ch.producer].contains(c));
        }
    }
}

#[test]
fn fabric_single_operation_feeds_sink() {
    let plan = vec![op(OperatorKind::Scan, vec![])];
    let f = build_fabric(&plan).unwrap();
    assert_eq!(f.channels, vec![Channel { producer: 0, consumer: ChannelConsumer::Output }]);
    assert_eq!(f.consumers, vec![vec![0]]);
}

#[test]
fn fabric_rejects_empty_plan() {
    assert_eq!(build_fabric(&vec![]).unwrap_err(), PlanError::EmptyPlan);
}

#[test]
fn fabric_rejects_missing_operator() {
    let plan = vec![
        op(OperatorKind::Scan, vec![]),
        OperationDescriptor { operator: None, inputs: vec![0] },
        op(OperatorKind::Select, vec![1]),
    ];
    assert_eq!(build_fabric(&plan).unwrap_err(), PlanError::MissingOperator { index: 1 });
}

#[test]
fn fabric_rejects_forward_or_self_reference() {
    let plan = vec![op(OperatorKind::Scan, vec![]), op(OperatorKind::Merge, vec![0, 1])];
    assert_eq!(
        build_fabric(&plan).unwrap_err(),
        PlanError::InputNotEarlier { index: 1, slot: 1 }
    );
    let plan = vec![op(OperatorKind::Select, vec![3]), op(OperatorKind::Scan, vec![])];
    assert_eq!(
        build_fabric(&plan).unwrap_err(),
        PlanError::InputNotEarlier { index: 0, slot: 0 }
    );
}

#[test]
fn fabric_reports_last_bad_descriptor() {
    let plan = vec![
        OperationDescriptor { operator: None, inputs: vec![] },
        op(OperatorKind::Select, vec![5]),
    ];
    assert_eq!(
        build_fabric(&plan).unwrap_err(),
        PlanError::InputNotEarlier { index: 1, slot: 0 }
    );
}

#[test]
fn watermark_merge_examples() {
    assert_eq!(merge(ts(5, 10), ts(5, 20)), ts(5, 20));
    assert_eq!(merge(ts(5, 99), ts(6, 0)), ts(6, 0));
    assert_eq!(merge(ts(6, 0), ts(5, 99)), ts(6, 0));
    assert_eq!(merge(ts(5, 20), ts(5, 10)), ts(5, 20));
}

#[test]
fn watermark_merge_commutes_and_associates() {
    let xs = [ts(1, 5), ts(1, 7), ts(0, 9), ts(2, 0), ts(-3, 4)];
    for a in xs {
        for b in xs {
            assert_eq!(merge(a, b), merge(b, a));
            for c in xs {
                assert_eq!(merge(merge(a, b), c), merge(a, merge(b, c)));
            }
        }
    }
}

#[test]
fn watermark_empty_is_sentinel() {
    assert_eq!(aggregate_watermark(&vec![]), None);
    assert_eq!(max_input_timestamp(&vec![]), ts(i64::MAX, i32::MAX));
    assert_eq!(Timestamp::max_representable(), ts(i64::MAX, i32::MAX));
}

#[test]
fn watermark_aggregate_picks_latest() {
    let times = vec![ts(4, 1), ts(9, 0), ts(9, 3), ts(2, 999)];
    assert_eq!(aggregate_watermark(&times), Some(ts(9, 3)));
    // Times at or before zero are still times: only an empty list is the sentinel.
    assert_eq!(aggregate_watermark(&vec![ts(0, 0), ts(-5, 3)]), Some(ts(0, 0)));
    assert_eq!(aggregate_watermark(&vec![ts(-5, 3)]), Some(ts(-5, 3)));
    assert_eq!(max_input_timestamp(&vec![ts(-5, 3)]), ts(-5, 3));
    assert_eq!(aggregate_watermark(&vec![ts(-5, 3), ts(-5, 1)]), Some(ts(-5, 3)));
}

#[test]
fn task_plan_counts_units() {
    let labels = task_plan(3, true);
    assert_eq!(
        labels,
        vec![
            TaskLabel::Output,
            TaskLabel::Operation { index: 2 },
            TaskLabel::Operation { index: 1 },
            TaskLabel::Operation { index: 0 },
            TaskLabel::Prefetch,
        ]
    );
    assert_eq!(task_plan(3, false).len(), 4);
    assert_eq!(task_plan(0, false), vec![TaskLabel::Output]);
}

#[test]
fn join_waits_for_every_unit() {
    let mut spawner = sparrow_exec::tasks::ComputeTaskSpawner::new();
    spawner.spawn(TaskLabel::Output);
    spawner.spawn(TaskLabel::Operation { index: 0 });
    spawner.spawn(TaskLabel::Prefetch);
    assert_eq!(spawner.len(), 3);
    let mut join = spawner.finish();
    assert!(matches!(join.record(Ok(())), JoinStatus::Waiting));
    assert!(!join.is_finished());
    assert!(matches!(join.record(Ok(())), JoinStatus::Waiting));
    assert!(matches!(join.record(Ok(())), JoinStatus::Completed));
    assert!(join.is_finished());
    assert_eq!(join.completed, 3);
}

#[test]
fn join_over_no_units_is_finished() {
    let join = sparrow_exec::tasks::JoinState::new(0);
    assert!(join.is_finished());
    assert!(!sparrow_exec::tasks::JoinState::new(2).is_finished());
}

#[test]
fn join_surfaces_first_failure_in_any_order() {
    let orders: Vec<Vec<Result<(), TaskFailure>>> = vec![
        vec![Ok(()), Err(TaskFailure::Error("bad".to_string())), Ok(())],
        vec![Err(TaskFailure::Error("bad".to_string())), Ok(()), Ok(())],
        vec![Ok(()), Ok(()), Err(TaskFailure::Panic("boom".to_string()))],
    ];
    for outcomes in orders {
        let mut spawner = sparrow_exec::tasks::ComputeTaskSpawner::new();
        for _ in 0..3 {
            spawner.spawn(TaskLabel::Output);
        }
        let mut join = spawner.finish();
        let mut last = JoinStatus::Waiting;
        for o in outcomes {
            if join.is_finished() {
                break;
            }
            last = join.record(o);
        }
        assert!(matches!(last, JoinStatus::Failed));
        assert!(join.failure.is_some());
    }
}

fn snapshot_config(has_store: bool) -> FinishConfig {
    FinishConfig { has_store, snapshot_requested: true }
}

#[test]
fn upload_failure_is_not_fatal() {
    let mut fin = Finisher::new(snapshot_config(true));
    let a = fin.step(FinishEvent::Joined(Ok(result_at(ts(7, 1)))));
    assert!(matches!(a, FinishAction::WriteWatermark(t) if t == ts(7, 1)));
    let a = fin.step(FinishEvent::WatermarkWritten(Ok(())));
    assert!(matches!(a, FinishAction::ReclaimStore));
    let a = fin.step(FinishEvent::StoreReclaimed(true));
    assert!(matches!(a, FinishAction::Upload(ref r) if r.max_input_timestamp == ts(7, 1)));
    assert!(fin.accepts(&FinishEvent::Uploaded(Err("denied".to_string()))));
    let a = fin.step(FinishEvent::Uploaded(Err("denied".to_string())));
    assert!(is_complete_with(&a, 0));
    assert_eq!(fin.phase, FinishPhase::Done);
}

#[test]
fn upload_success_reports_snapshot() {
    let mut fin = Finisher::new(snapshot_config(false));
    let a = fin.step(FinishEvent::Joined(Ok(result_at(ts(3, 0)))));
    assert!(matches!(a, FinishAction::Upload(_)));
    let snap = ComputeSnapshot { path: "snapshots/a".to_string(), max_event_time: ts(3, 0) };
    let a = fin.step(FinishEvent::Uploaded(Ok(snap)));
    match a {
        FinishAction::Emit(Terminal::ExecutionComplete { compute_snapshots }) => {
            assert_eq!(compute_snapshots.len(), 1);
            assert_eq!(compute_snapshots[0].path, "snapshots/a");
        }
        other => panic!("unexpected {:?}", other),
    }
}

#[test]
fn missing_storage_dir_is_an_upload_failure() {
    let mut fin = Finisher::new(snapshot_config(false));
    let a = fin.step(FinishEvent::Joined(Ok(result_at(ts(3, 0)))));
    assert!(matches!(a, FinishAction::Upload(_)));
    let a = fin.step(FinishEvent::Uploaded(Err("missing storage dir".to_string())));
    assert!(is_complete_with(&a, 0));
}

#[test]
fn no_snapshot_requested_skips_upload() {
    let mut fin = Finisher::new(FinishConfig { has_store: true, snapshot_requested: false });
    fin.step(FinishEvent::Joined(Ok(result_at(ts(3, 0)))));
    fin.step(FinishEvent::WatermarkWritten(Ok(())));
    let a = fin.step(FinishEvent::StoreReclaimed(true));
    assert!(is_complete_with(&a, 0));
    assert_eq!(fin.phase, FinishPhase::Done);
}

#[test]
fn join_failure_is_terminal_failure() {
    let mut fin = Finisher::new(snapshot_config(true));
    assert!(!fin.accepts(&FinishEvent::StoreReclaimed(true)));
    let a = fin.step(FinishEvent::Joined(Err("task failed".to_string())));
    assert!(matches!(
        a,
        FinishAction::Emit(Terminal::ExecutionFailed { stage: FailureStage::Join, ref cause }) if cause == "task failed"
    ));
}

#[test]
fn watermark_write_failure_is_fatal() {
    let mut fin = Finisher::new(snapshot_config(true));
    fin.step(FinishEvent::Joined(Ok(result_at(ts(1, 1)))));
    let a = fin.step(FinishEvent::WatermarkWritten(Err("io".to_string())));
    assert!(matches!(
        a,
        FinishAction::Emit(Terminal::ExecutionFailed { stage: FailureStage::WatermarkWrite, .. })
    ));
}

#[test]
fn unreclaimed_store_aborts() {
    let mut fin = Finisher::new(snapshot_config(true));
    fin.step(FinishEvent::Joined(Ok(result_at(ts(1, 1)))));
    fin.step(FinishEvent::WatermarkWritten(Ok(())));
    let a = fin.step(FinishEvent::StoreReclaimed(false));
    assert!(matches!(a, FinishAction::Abort));
}

#[test]
fn progress_goes_before_terminal() {
    let mut m: ProgressMerger<u32> = ProgressMerger::new();
    assert!(m.next().is_none());
    m.push_progress(1);
    m.push_progress(2);
    m.set_terminal(Terminal::ExecutionComplete { compute_snapshots: vec![] });
    assert!(m.has_terminal());
    assert!(matches!(m.next(), Some(ProgressUpdate::InProgress(1))));
    m.push_progress(3);
    assert!(matches!(m.next(), Some(ProgressUpdate::InProgress(2))));
    assert!(matches!(m.next(), Some(ProgressUpdate::InProgress(3))));
    assert!(matches!(m.next(), Some(ProgressUpdate::ExecutionComplete { .. })));
    assert!(m.is_finished());
    m.push_progress(4);
    assert!(m.next().is_none());
}

#[test]
fn progress_failure_is_last() {
    let mut m: ProgressMerger<&str> = ProgressMerger::new();
    m.set_terminal(Terminal::ExecutionFailed { stage: FailureStage::Join, cause: "x".to_string() });
    m.push_progress("late but ready");
    assert!(matches!(m.next(), Some(ProgressUpdate::InProgress("late but ready"))));
    assert!(matches!(m.next(), Some(ProgressUpdate::ExecutionFailed { .. })));
    assert!(m.next().is_none());
}

#[test]
fn collect_token_caps_values() {
    let mut t: CollectToken<i64> = CollectToken::new();
    t.resize(1);
    t.add_value(2, 1, Some(1));
    t.add_value(2, 1, None);
    t.add_value(2, 1, Some(3));
    let got: Vec<Option<i64>> = t.state(1).iter().cloned().collect();
    assert_eq!(got, vec![None, Some(3)]);
    assert!(t.state(0).is_empty());
    t.reset(1);
    assert!(t.state(1).is_empty());
}

#[test]
fn collect_token_resize_only_grows() {
    let mut t: CollectToken<i64> = CollectToken::new();
    t.resize(3);
    t.add_value(5, 3, Some(9));
    t.resize(1);
    assert_eq!(t.state(3).len(), 1);
}

#[test]
fn collect_token_window_drops_old_values() {
    let mut t: CollectToken<i64> = CollectToken::new();
    t.resize(0);
    t.add_value_with_time(10, 0, Some(1), 100, 50);
    t.add_value_with_time(10, 0, Some(2), 120, 50);
    t.add_value_with_time(10, 0, Some(3), 160, 50);
    let got: Vec<Option<i64>> = t.state(0).iter().cloned().collect();
    assert_eq!(got, vec![Some(2), Some(3)]);
    t.add_value_with_time(2, 0, Some(4), 161, 1000);
    let got: Vec<Option<i64>> = t.state(0).iter().cloned().collect();
    assert_eq!(got, vec![Some(3), Some(4)]);
    t.add_value_with_time(5, 0, Some(5), 500, 0);
    let got: Vec<Option<i64>> = t.state(0).iter().cloned().collect();
    assert_eq!(got, vec![Some(5)]);
}

#[test]
fn channel_capacities_are_positive() {
    assert!(ChannelCapacities::new(0, 4).is_none());
    assert!(ChannelCapacities::new(4, 0).is_none());
    let c = ChannelCapacities::new(2, 5).unwrap();
    assert_eq!(c.of_channel(0), 5);
    assert_eq!(c.of_channel(3), 2);
    let s = ChannelCapacities::standard();
    assert_eq!(s.of_channel(0), 13);
    assert_eq!(s.of_channel(1), 7);
}

#[test]
fn executor_wires_and_counts_units() {
    let plan = vec![
        op(OperatorKind::Scan, vec![]),
        op(OperatorKind::Scan, vec![]),
        op(OperatorKind::Merge, vec![0, 1]),
    ];
    let e = ComputeExecutor::try_spawn(&plan, true).unwrap();
    assert_eq!(e.tasks.len(), 5);
    assert_eq!(e.join.expected, 5);
    assert_eq!(e.join.completed, 0);
    assert_eq!(e.fabric.inputs[2], vec![1, 2]);
    let bad = vec![op(OperatorKind::Merge, vec![0])];
    assert_eq!(
        ComputeExecutor::try_spawn(&bad, false).err(),
        Some(PlanError::InputNotEarlier { index: 0, slot: 0 })
    );
}

#[test]
fn collect_token_default_is_empty() {
    let mut t: CollectToken<u8> = CollectToken::default();
    t.resize(0);
    assert!(t.state(0).is_empty());
}
