//! The worker-side decision: what a worker thread does with each message
//! it pulls from its inbox.
//!
//! A worker thread loops: it blocks on its inbox, hands the received
//! message to `on_message`, and carries out the returned action. On `Run`
//! it invokes the job synchronously to completion and then sends exactly
//! one completion signal on its outbound channel; on `Exit` it leaves the
//! loop at once, without signalling, and the thread terminates.

use vstd::prelude::*;

verus! {

/// A message in a worker's inbox: one job to run, or the instruction to
/// stop. The pool appends `Stop` after all queued jobs and the inbox is
/// FIFO, so a stopping worker still drains every job already queued.
pub enum Directive<J> {
    Job(J),
    Stop,
}

/// What the worker thread does next: invoke the job to completion and then
/// send exactly one completion signal, or exit its loop without signalling.
pub enum WorkerAction<J> {
    Run(J),
    Exit,
}

/// The worker loop's decision for one received message. `None` stands for
/// a closed inbox — the sender was dropped without an explicit stop — and
/// is treated as an implicit stop, a safety net so a worker can never be
/// left running unreachable. A job is run; `Stop` and a closed inbox end
/// the loop.
pub fn on_message<J>(msg: Option<Directive<J>>) -> (action: WorkerAction<J>)
    ensures
        action == (match msg {
            Some(Directive::Job(j)) => WorkerAction::Run(j),
            Some(Directive::Stop) => WorkerAction::<J>::Exit,
            None => WorkerAction::<J>::Exit,
        }),
{
    match msg {
        Some(Directive::Job(j)) => WorkerAction::Run(j),
        Some(Directive::Stop) => WorkerAction::Exit,
        None => WorkerAction::Exit,
    }
}

} // verus!
