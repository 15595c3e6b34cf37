//! Which render requests go to which worker, and which finished renders still count.
use vstd::prelude::*;


verus! {

/// What a render worker is doing: whether it is rendering, and the id of the request it
/// is to render next.
#[derive(Clone, Copy, Debug, PartialEq, Eq)]
pub struct WorkerSlot {
    pub busy: bool,
    pub queued: Option<usize>,
}

/// What to do with a new render request for one worker.
#[derive(Clone, Copy, Debug, PartialEq, Eq)]
pub enum Dispatch {
    /// Send the request to the worker now.
    Post,
    /// The worker is busy; the request waits for it.
    Queue,
}

/// What to do with a render that a worker has finished.
#[derive(Clone, Copy, Debug, PartialEq, Eq)]
pub struct RenderOutcome {
    /// The render belongs to the current scene and goes into the image.
    pub fresh: bool,
    /// The image is to be cleared before the render goes into it.
    pub reset: bool,
    /// The request that the worker is to render next, if one was waiting.
    pub repost: Option<usize>,
}

/// How a changed scene is brought to the screen.
#[derive(Clone, Copy, Debug, PartialEq, Eq)]
pub enum RenderChoice {
    /// The scene is the one last rendered: nothing to do.
    Unchanged,
    /// Only the exposure or colouring changed: the rendered brightness is shown anew.
    Reexpose,
    /// The light has to be traced again.
    Render,
}

/// Decides how to bring the scene to the screen. `last` is `None` when nothing was rendered
/// yet; otherwise it tells whether the scene is the same as the one last rendered, and
/// whether it is the same as that one with the scene's exposure and colouring (both compared
/// as scenes by the caller).
pub fn choose_render(last: Option<(bool, bool)>) -> (choice: RenderChoice)
    ensures
        choice == match last {
            None => RenderChoice::Render,
            Some((same, same_reexposed)) => if same {
                RenderChoice::Unchanged
            } else if same_reexposed {
                RenderChoice::Reexpose
            } else {
                RenderChoice::Render
            },
        },
{
    match last {
        None => RenderChoice::Render,
        Some((same, same_reexposed)) => {
            if same {
                RenderChoice::Unchanged
            } else if same_reexposed {
                RenderChoice::Reexpose
            } else {
                RenderChoice::Render
            }
        },
    }
}

/// What taking in a new scene from the page does.
#[derive(Clone, Copy, Debug, PartialEq, Eq)]
pub struct UpdatePlan {
    /// Make past renders stale and reset the selection.
    pub reset: bool,
    /// The canvas takes the new size and the image buffer is cleared.
    pub resize: bool,
    /// Clear the canvas and forget the scene last rendered.
    pub clear: bool,
    /// Record the scene in the undo history.
    pub save_history: bool,
}

/// Decides what taking in a new scene does: a reset is asked for but skipped when the scene
/// is the same as the current one (`same`, compared as scenes by the caller); a change of
/// width or height resizes; the history is saved on a reset or a checkpoint.
pub fn plan_update(same: bool, reset: bool, checkpoint: bool, old_size: (usize, usize), new_size: (usize, usize)) -> (plan: UpdatePlan)
    ensures
        plan.reset == (reset && !same),
        plan.resize == (old_size.0 != new_size.0 || old_size.1 != new_size.1),
        plan.clear == plan.reset,
        plan.save_history == (plan.reset || checkpoint),
{
    let reset = reset && !same;
    let resize = old_size.0 != new_size.0 || old_size.1 != new_size.1;
    UpdatePlan { reset, resize, clear: reset, save_history: reset || checkpoint }
}

/// The render bookkeeping of the page: the id of the newest request, the id whose renders
/// currently go into the image, and the state of each worker.
pub struct RenderScheduler {
    pub render_id: usize,
    pub last_rendered: usize,
    pub workers: Vec<WorkerSlot>,
}

/// A waiting request is only held by a busy worker, and is one that was issued.
pub open spec fn slots_wf(workers: Seq<WorkerSlot>, render_id: usize) -> bool {
    forall|w: int| 0 <= w < workers.len() ==> match #[trigger] workers[w].queued {
        Some(q) => workers[w].busy && q <= render_id,
        None => true,
    }
}

/// A worker that finished: it takes its waiting request, if any, or goes idle.
pub open spec fn released(slot: WorkerSlot) -> WorkerSlot {
    match slot.queued {
        Some(_) => WorkerSlot { busy: true, queued: None },
        None => WorkerSlot { busy: false, queued: None },
    }
}

/// A worker given a new request `id`: a busy worker keeps it waiting, an idle one starts on it.
pub open spec fn offered(slot: WorkerSlot, id: usize) -> WorkerSlot {
    if slot.busy {
        WorkerSlot { busy: true, queued: Some(id) }
    } else {
        WorkerSlot { busy: true, queued: slot.queued }
    }
}

impl RenderScheduler {
    pub open spec fn wf(&self) -> bool {
        slots_wf(self.workers@, self.render_id)
    }

    /// No request issued yet and no workers.
    pub fn new() -> (s: RenderScheduler)
        ensures
            s.wf(),
            s.render_id == 0,
            s.last_rendered == 0,
            s.workers@.len() == 0,
    {
        RenderScheduler { render_id: 0, last_rendered: 0, workers: Vec::new() }
    }

    /// Adds an idle worker.
    pub fn add_worker(&mut self)
        requires
            old(self).wf(),
        ensures
            final(self).wf(),
            final(self).render_id == old(self).render_id,
            final(self).last_rendered == old(self).last_rendered,
            final(self).workers@ == old(self).workers@.push(WorkerSlot { busy: false, queued: None }),
    {
        self.workers.push(WorkerSlot { busy: false, queued: None });
    }

    /// Makes every render requested so far stale.
    pub fn invalidate_past_renders(&mut self)
        requires
            old(self).wf(),
            old(self).render_id < usize::MAX,
        ensures
            final(self).wf(),
            final(self).render_id == old(self).render_id + 1,
            final(self).last_rendered == final(self).render_id,
            final(self).workers@ == old(self).workers@,
    {
        self.render_id = self.render_id + 1;
        self.last_rendered = self.render_id;
    }

    /// Issues a new render request and says, worker by worker, whether to send it now or
    /// let it wait; every worker is busy afterwards.
    pub fn start_render(&mut self) -> (result: (usize, Vec<Dispatch>))
        requires
            old(self).wf(),
            old(self).render_id < usize::MAX,
        ensures
            final(self).wf(),
            result.0 == old(self).render_id + 1,
            final(self).render_id == result.0,
            final(self).last_rendered == old(self).last_rendered,
            final(self).workers@.len() == old(self).workers@.len(),
            result.1@.len() == old(self).workers@.len(),
            forall|w: int| 0 <= w < old(self).workers@.len()
                ==> #[trigger] final(self).workers@[w] == offered(old(self).workers@[w], result.0),
            forall|w: int| 0 <= w < old(self).workers@.len()
                ==> #[trigger] result.1@[w] == if old(self).workers@[w].busy { Dispatch::Queue } else { Dispatch::Post },
    {
        self.render_id = self.render_id + 1;
        let id = self.render_id;
        let ghost before = self.workers@;
        let ghost shown = self.last_rendered;
        let n = self.workers.len();
        let mut plan: Vec<Dispatch> = Vec::new();
        let mut w: usize = 0;
        while w < n
            invariant
                n == before.len(),
                self.workers@.len() == n,
                w <= n,
                plan@.len() == w,
                id == self.render_id,
                shown == self.last_rendered,
                slots_wf(before, (id - 1) as usize),
                forall|k: int| 0 <= k < w ==> #[trigger] self.workers@[k] == offered(before[k], id),
                forall|k: int| 0 <= k < w
                    ==> #[trigger] plan@[k] == if before[k].busy { Dispatch::Queue } else { Dispatch::Post },
                forall|k: int| w <= k < n ==> #[trigger] self.workers@[k] == before[k],
            decreases n - w,
        {
            let slot = self.workers[w];
            if slot.busy {
                self.workers.set(w, WorkerSlot { busy: true, queued: Some(id) });
                plan.push(Dispatch::Queue);
            } else {
                self.workers.set(w, WorkerSlot { busy: true, queued: slot.queued });
                plan.push(Dispatch::Post);
            }
            w = w + 1;
        }
        assert forall|k: int| 0 <= k < self.workers@.len() implies match #[trigger] self.workers@[k].queued {
            Some(q) => self.workers@[k].busy && q <= self.render_id,
            None => true,
        } by {
            assert(self.workers@[k] == offered(before[k], id));
            match before[k].queued {
                Some(q) => {},
                None => {},
            }
        }
        (id, plan)
    }

    /// Handles a render that worker `worker` finished for request `id`: a render of a
    /// request older than the current one is dropped, a newer one first clears the image
    /// and becomes the current one; either way the worker takes its waiting request or goes
    /// idle.
    pub fn finish_render(&mut self, worker: usize, id: usize) -> (outcome: RenderOutcome)
        requires
            old(self).wf(),
            worker < old(self).workers@.len(),
            id > old(self).last_rendered ==> old(self).render_id < usize::MAX,
        ensures
            final(self).wf(),
            outcome.fresh == (id >= old(self).last_rendered),
            outcome.reset == (id > old(self).last_rendered),
            outcome.repost == old(self).workers@[worker as int].queued,
            final(self).render_id == if outcome.reset { old(self).render_id + 1 } else { old(self).render_id as int },
            final(self).last_rendered == if outcome.reset { id } else { old(self).last_rendered },
            final(self).workers@ == old(self).workers@.update(worker as int, released(old(self).workers@[worker as int])),
    {
        let stale = id < self.last_rendered;
        let mut reset = false;
        if !stale && id > self.last_rendered {
            self.render_id = self.render_id + 1;
            self.last_rendered = self.render_id;
            self.last_rendered = id;
            reset = true;
        }
        let slot = self.workers[worker];
        let repost = slot.queued;
        match slot.queued {
            None => {
                self.workers.set(worker, WorkerSlot { busy: false, queued: None });
            },
            Some(_) => {
                self.workers.set(worker, WorkerSlot { busy: true, queued: None });
            },
        }
        RenderOutcome { fresh: !stale, reset, repost }
    }
}

/// A worker's waiting request never outlives the next time it finishes: after
/// `finish_render` it is either idle or working on that request, with nothing waiting.
pub proof fn lemma_release_clears_queue(slot: WorkerSlot)
    ensures
        released(slot).queued is None,
        released(slot).busy == (slot.queued is Some),
{
}

/// Offering a request to a worker always leaves it busy, and never drops a request that
/// has not been sent: a busy worker ends up holding the newest request.
pub proof fn lemma_offer_keeps_busy(slot: WorkerSlot, id: usize)
    ensures
        offered(slot, id).busy,
        slot.busy ==> offered(slot, id).queued == Some(id),
{
}

} // verus!
