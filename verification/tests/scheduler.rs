use veoluz::scheduler::{choose_render, plan_update, Dispatch, RenderChoice, RenderOutcome, RenderScheduler, UpdatePlan, WorkerSlot};

#[test]
fn start_render_posts_to_idle_and_queues_for_busy() {
    let mut s = RenderScheduler::new();
    s.add_worker();
    s.add_worker();
    let (id, plan) = s.start_render();
    assert_eq!(id, 1);
    assert_eq!(plan, vec![Dispatch::Post, Dispatch::Post]);
    let (id2, plan2) = s.start_render();
    assert_eq!(id2, 2);
    assert_eq!(plan2, vec![Dispatch::Queue, Dispatch::Queue]);
    assert_eq!(s.workers[0], WorkerSlot { busy: true, queued: Some(2) });
}

#[test]
fn start_render_without_workers_plans_nothing() {
    let mut s = RenderScheduler::new();
    let (id, plan) = s.start_render();
    assert_eq!(id, 1);
    assert!(plan.is_empty());
}

#[test]
fn finish_newer_render_resets_and_reposts() {
    let mut s = RenderScheduler::new();
    s.add_worker();
    s.start_render();
    s.start_render();
    let outcome = s.finish_render(0, 1);
    assert_eq!(outcome, RenderOutcome { fresh: true, reset: true, repost: Some(2) });
    assert_eq!(s.last_rendered, 1);
    assert_eq!(s.render_id, 3);
    assert_eq!(s.workers[0], WorkerSlot { busy: true, queued: None });
    let outcome = s.finish_render(0, 2);
    assert_eq!(outcome, RenderOutcome { fresh: true, reset: true, repost: None });
    assert_eq!(s.workers[0], WorkerSlot { busy: false, queued: None });
}

#[test]
fn finish_stale_render_is_dropped() {
    let mut s = RenderScheduler::new();
    s.add_worker();
    s.start_render();
    s.invalidate_past_renders();
    assert_eq!(s.last_rendered, 2);
    let outcome = s.finish_render(0, 1);
    assert_eq!(outcome, RenderOutcome { fresh: false, reset: false, repost: None });
    assert_eq!(s.last_rendered, 2);
}

#[test]
fn finish_current_render_accumulates() {
    let mut s = RenderScheduler::new();
    s.add_worker();
    s.invalidate_past_renders();
    let outcome = s.finish_render(0, 1);
    assert_eq!(outcome, RenderOutcome { fresh: true, reset: false, repost: None });
}

#[test]
fn choose_render_cases() {
    assert_eq!(choose_render(None), RenderChoice::Render);
    assert_eq!(choose_render(Some((true, true))), RenderChoice::Unchanged);
    assert_eq!(choose_render(Some((false, true))), RenderChoice::Reexpose);
    assert_eq!(choose_render(Some((false, false))), RenderChoice::Render);
}

#[test]
fn plan_update_cases() {
    assert_eq!(
        plan_update(false, true, false, (10, 10), (10, 10)),
        UpdatePlan { reset: true, resize: false, clear: true, save_history: true }
    );
    assert_eq!(
        plan_update(true, true, false, (10, 10), (10, 20)),
        UpdatePlan { reset: false, resize: true, clear: false, save_history: false }
    );
    assert_eq!(
        plan_update(false, false, true, (10, 10), (11, 10)),
        UpdatePlan { reset: false, resize: true, clear: false, save_history: true }
    );
}
