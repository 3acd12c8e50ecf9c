//! The simplified replay evaluator, driven by a small in-test orchestration
//! context: the context's futures resolve from the bindings and completions
//! that the evaluator's steps hand back.
use duroxide::event::{Event, EventKind};
use duroxide::runtime::replay_simplified::{
    precheck_simplified, SimActionKind, SimCompletion, SimEmittedAction, SimReplay, SimStep, SimplifiedOutcome,
};
use std::collections::HashMap;
use std::future::Future;
use std::pin::Pin;
use std::sync::{Arc, Mutex};
use std::task::{Context, Poll, Wake, Waker};

#[derive(Default)]
struct SimInner {
    next_token: u64,
    emitted: Vec<SimEmittedAction>,
    bindings: HashMap<u64, Option<u64>>,
    results: HashMap<u64, SimCompletion>,
    external_arrivals: HashMap<String, Vec<String>>,
    external_subscriptions: HashMap<u64, (String, usize)>,
}

#[derive(Clone, Default)]
struct SimCtx {
    inner: Arc<Mutex<SimInner>>,
}

impl SimCtx {
    fn emit_action(&self, kind: SimActionKind) -> u64 {
        let mut inner = self.inner.lock().unwrap();
        inner.next_token += 1;
        let token = inner.next_token;
        inner.bindings.insert(token, None);
        inner.emitted.push(SimEmittedAction { token, kind });
        token
    }

    fn schedule_activity(&self, name: &str, input: &str) -> SimFuture {
        let token = self.emit_action(SimActionKind::CallActivity { name: name.to_string(), input: input.to_string() });
        SimFuture { token, inner: self.inner.clone() }
    }

    fn schedule_timer(&self, fire_at_ms: u64) -> SimFuture {
        let token = self.emit_action(SimActionKind::CreateTimer { fire_at_ms });
        SimFuture { token, inner: self.inner.clone() }
    }

    fn subscribe_external(&self, name: &str) -> SimExternalFuture {
        let token = self.emit_action(SimActionKind::SubscribeExternal { name: name.to_string() });
        SimExternalFuture { token, inner: self.inner.clone() }
    }

    fn start_sub_orchestration(&self, name: &str, instance: &str, input: &str) -> SimFuture {
        let token = self.emit_action(SimActionKind::StartSubOrchestration {
            name: name.to_string(),
            instance: instance.to_string(),
            input: input.to_string(),
        });
        SimFuture { token, inner: self.inner.clone() }
    }

    fn drain_emitted(&self) -> Vec<SimEmittedAction> {
        std::mem::take(&mut self.inner.lock().unwrap().emitted)
    }

    fn apply(&self, step: SimStep) {
        let mut inner = self.inner.lock().unwrap();
        match step {
            SimStep::Proceed => {}
            SimStep::Bind { token, schedule_id } => {
                inner.bindings.insert(token, Some(schedule_id));
            }
            SimStep::BindExternal { token, schedule_id, name, index } => {
                inner.bindings.insert(token, Some(schedule_id));
                inner.external_subscriptions.insert(schedule_id, (name, index));
            }
            SimStep::BindSystemCall { token, schedule_id, completion } => {
                inner.bindings.insert(token, Some(schedule_id));
                inner.results.insert(schedule_id, completion);
            }
            SimStep::Complete { schedule_id, completion } => {
                inner.results.insert(schedule_id, completion);
            }
            SimStep::DeliverExternal { name, data } => {
                inner.external_arrivals.entry(name).or_default().push(data);
            }
        }
    }
}

/// Resolves once its schedule has a completion.
struct SimFuture {
    token: u64,
    inner: Arc<Mutex<SimInner>>,
}

impl Future for SimFuture {
    type Output = Result<String, String>;

    fn poll(self: Pin<&mut Self>, _cx: &mut Context<'_>) -> Poll<Self::Output> {
        let inner = self.inner.lock().unwrap();
        let schedule_id = match inner.bindings.get(&self.token) {
            Some(Some(id)) => *id,
            _ => return Poll::Pending,
        };
        match inner.results.get(&schedule_id) {
            Some(SimCompletion::ActivityOk(v)) | Some(SimCompletion::SubOrchOk(v)) => Poll::Ready(Ok(v.clone())),
            Some(SimCompletion::ActivityErr(e)) | Some(SimCompletion::SubOrchErr(e)) => Poll::Ready(Err(e.clone())),
            Some(_) => Poll::Ready(Ok(String::new())),
            None => Poll::Pending,
        }
    }
}

/// Resolves with the external event at its subscription's index.
struct SimExternalFuture {
    token: u64,
    inner: Arc<Mutex<SimInner>>,
}

impl Future for SimExternalFuture {
    type Output = String;

    fn poll(self: Pin<&mut Self>, _cx: &mut Context<'_>) -> Poll<Self::Output> {
        let inner = self.inner.lock().unwrap();
        let schedule_id = match inner.bindings.get(&self.token) {
            Some(Some(id)) => *id,
            _ => return Poll::Pending,
        };
        let (name, index) = match inner.external_subscriptions.get(&schedule_id) {
            Some(v) => v,
            None => return Poll::Pending,
        };
        match inner.external_arrivals.get(name).and_then(|a| a.get(*index)) {
            Some(v) => Poll::Ready(v.clone()),
            None => Poll::Pending,
        }
    }
}

struct NoopWake;

impl Wake for NoopWake {
    fn wake(self: Arc<Self>) {}
}

fn noop_waker() -> Waker {
    Waker::from(Arc::new(NoopWake))
}

fn poll_once<F: Future>(fut: Pin<&mut F>) -> Poll<F::Output> {
    let waker = noop_waker();
    let mut cx = Context::from_waker(&waker);
    fut.poll(&mut cx)
}

/// Runs the evaluator over `history`, polling the orchestration whenever a
/// poll is due.
fn evaluate_simplified<O, F>(history: Vec<Event>, orchestrator: impl FnOnce(SimCtx) -> F) -> Result<SimplifiedOutcome, String>
where
    F: Future<Output = O>,
{
    if let Some(r) = precheck_simplified(&history) {
        return r;
    }
    let ctx = SimCtx::default();
    let mut fut = Box::pin(orchestrator(ctx.clone()));
    let mut replay = SimReplay::new();
    for event in &history {
        if replay.must_poll {
            let _ = poll_once(fut.as_mut());
            replay.record_poll(ctx.drain_emitted());
        }
        let step = replay.replay_event(event)?;
        ctx.apply(step);
    }
    if replay.must_poll {
        let _ = poll_once(fut.as_mut());
        replay.record_poll(ctx.drain_emitted());
    }
    Ok(replay.into_outcome())
}

fn ev(event_id: u64, source_event_id: Option<u64>, kind: EventKind) -> Event {
    Event::with_event_id(event_id, "inst", 1, source_event_id, kind)
}

fn started(event_id: u64) -> Event {
    ev(
        event_id,
        None,
        EventKind::OrchestrationStarted {
            name: "Test".to_string(),
            version: "1.0.0".to_string(),
            input: "".to_string(),
            parent_instance: None,
            parent_id: None,
        },
    )
}

fn act_scheduled(event_id: u64, name: &str, input: &str) -> Event {
    ev(
        event_id,
        None,
        EventKind::ActivityScheduled { name: name.to_string(), input: input.to_string(), session_id: None },
    )
}

fn act_completed(event_id: u64, source_event_id: u64, result: &str) -> Event {
    ev(event_id, Some(source_event_id), EventKind::ActivityCompleted { result: result.to_string() })
}

fn timer_created(event_id: u64, fire_at_ms: u64) -> Event {
    ev(event_id, None, EventKind::TimerCreated { fire_at_ms })
}

fn timer_fired(event_id: u64, source_event_id: u64, fire_at_ms: u64) -> Event {
    ev(event_id, Some(source_event_id), EventKind::TimerFired { fire_at_ms })
}

fn sub_scheduled(event_id: u64, name: &str, instance: &str, input: &str) -> Event {
    ev(
        event_id,
        None,
        EventKind::SubOrchestrationScheduled {
            name: name.to_string(),
            instance: instance.to_string(),
            input: input.to_string(),
        },
    )
}

fn ext_subscribed(event_id: u64, name: &str) -> Event {
    ev(event_id, None, EventKind::ExternalSubscribed { name: name.to_string() })
}

fn ext_event(event_id: u64, name: &str, data: &str) -> Event {
    ev(event_id, None, EventKind::ExternalEvent { name: name.to_string(), data: data.to_string() })
}

fn cancel_requested(event_id: u64, reason: &str) -> Event {
    ev(event_id, None, EventKind::OrchestrationCancelRequested { reason: reason.to_string() })
}

fn orch_completed(event_id: u64, output: &str) -> Event {
    ev(event_id, None, EventKind::OrchestrationCompleted { output: output.to_string() })
}

#[test]
fn mismatch_schedule_is_nondeterminism() {
    let history = vec![started(1), act_scheduled(2, "A", "x")];

    let res = evaluate_simplified(history, |ctx| async move {
        let _fut = ctx.schedule_activity("B", "y");
    });

    assert!(res.is_err());
    let msg = res.err().unwrap();
    assert!(msg.contains("schedule mismatch"));
}

#[test]
fn completion_without_open_schedule_is_nondeterminism() {
    let history = vec![started(1), act_completed(3, 2, "ok")];

    let res = evaluate_simplified(history, |_ctx| async move {
        // no schedule emitted
    });

    assert!(res.is_err());
    let msg = res.err().unwrap();
    assert!(msg.contains("completion without open schedule"));
}

#[test]
fn end_of_history_returns_new_actions() {
    let history = vec![started(1)];

    let out = evaluate_simplified(history, |ctx| async move {
        let _ = ctx.schedule_activity("A", "x");
        let _ = ctx.schedule_timer(123);
    })
    .unwrap();

    assert_eq!(
        out.actions_to_take,
        vec![
            SimActionKind::CallActivity { name: "A".to_string(), input: "x".to_string() },
            SimActionKind::CreateTimer { fire_at_ms: 123 },
        ]
    );
}

#[test]
fn completion_drives_poll_then_next_schedule_matches() {
    let history = vec![
        started(1),
        act_scheduled(2, "A", "x"),
        act_completed(3, 2, "a_ok"),
        act_scheduled(4, "B", "y"),
        timer_created(5, 999),
        timer_fired(6, 5, 999),
    ];

    let out = evaluate_simplified(history, |ctx| async move {
        let a = ctx.schedule_activity("A", "x");
        let _ = a.await;
        let _b = ctx.schedule_activity("B", "y");
        let t = ctx.schedule_timer(999);
        let _ = t.await;
    })
    .unwrap();

    // All actions were replayed by history; nothing new beyond history
    assert!(out.actions_to_take.is_empty());
}

#[test]
fn external_events_deliver_in_subscription_order_not_poll_order() {
    let history = vec![
        started(1),
        ext_subscribed(2, "E"),
        ext_subscribed(3, "E"),
        ext_event(4, "E", "first"),
        ext_event(5, "E", "second"),
    ];

    let out = evaluate_simplified(history, |ctx| async move {
        let e1 = ctx.subscribe_external("E");
        let e2 = ctx.subscribe_external("E");

        // Await the second subscription first; it should still receive the second payload.
        let v2 = e2.await;
        let v1 = e1.await;
        (v1, v2)
    })
    .unwrap();

    assert!(out.actions_to_take.is_empty());
}

#[test]
fn completion_kind_mismatch_is_nondeterminism() {
    // Schedule activity A (id=2) but record a TimerFired completion against it.
    let history = vec![started(1), act_scheduled(2, "A", "x"), timer_fired(3, 2, 123)];

    let res = evaluate_simplified(history, |ctx| async move {
        let a = ctx.schedule_activity("A", "x");
        let _ = a.await;
    });

    assert!(res.is_err());
    let msg = res.err().unwrap();
    assert!(msg.contains("completion kind mismatch"));
}

#[test]
fn sub_orchestration_completion_kind_mismatch_is_nondeterminism() {
    // Schedule suborch (id=2) but record an ActivityCompleted against it.
    let history = vec![started(1), sub_scheduled(2, "Child", "child-1", "{}"), act_completed(3, 2, "oops")];

    let res = evaluate_simplified(history, |ctx| async move {
        let c = ctx.start_sub_orchestration("Child", "child-1", "{}");
        let _ = c.await;
    });

    assert!(res.is_err());
    let msg = res.err().unwrap();
    assert!(msg.contains("completion kind mismatch"));
}

#[test]
fn cancel_requested_is_not_terminal() {
    let history = vec![started(1), cancel_requested(2, "please"), orch_completed(3, "ok")];

    let out = evaluate_simplified(history, |_ctx| async move {
        // Return immediately; terminal history should be consistent.
    })
    .unwrap();

    assert!(out.actions_to_take.is_empty());
}

#[test]
fn subscription_indices_count_earlier_subscriptions_to_the_same_name() {
    let mut replay = SimReplay::new();
    replay.record_poll(vec![
        SimEmittedAction { token: 1, kind: SimActionKind::SubscribeExternal { name: "E".to_string() } },
        SimEmittedAction { token: 2, kind: SimActionKind::SubscribeExternal { name: "F".to_string() } },
        SimEmittedAction { token: 3, kind: SimActionKind::SubscribeExternal { name: "E".to_string() } },
    ]);
    let mut indices = Vec::new();
    for (id, name) in [(2u64, "E"), (3, "F"), (4, "E")] {
        match replay.replay_event(&ext_subscribed(id, name)).unwrap() {
            SimStep::BindExternal { index, .. } => indices.push(index),
            other => panic!("unexpected step {other:?}"),
        }
    }
    assert_eq!(indices, vec![0, 0, 1]);
}

#[test]
fn unknown_schedule_without_emitted_action_is_refused() {
    let mut replay = SimReplay::new();
    let err = replay.replay_event(&act_scheduled(2, "A", "x")).unwrap_err();
    assert_eq!(err, "nondeterminism: history schedule but no emitted action");
}

#[test]
fn kind_mismatch_message_names_id_and_kinds() {
    let mut replay = SimReplay::new();
    replay.record_poll(vec![SimEmittedAction {
        token: 1,
        kind: SimActionKind::CallActivity { name: "A".to_string(), input: "x".to_string() },
    }]);
    replay.replay_event(&act_scheduled(2, "A", "x")).unwrap();
    let err = replay.replay_event(&timer_fired(3, 2, 123)).unwrap_err();
    assert_eq!(
        err,
        "nondeterminism: completion kind mismatch for id=2, schedule=CallActivity, completion=TimerFired"
    );
}

#[test]
fn empty_and_headless_histories_are_refused() {
    assert_eq!(precheck_simplified(&vec![]), Some(Err("corrupted history: empty".to_string())));
    assert_eq!(
        precheck_simplified(&vec![act_scheduled(1, "A", "x")]),
        Some(Err("corrupted history: first event must be OrchestrationStarted".to_string()))
    );
    assert_eq!(precheck_simplified(&vec![started(1)]), None);
}
