//! Speculative preparation of adjacent images: what a batch asks for and
//! the epoch rule that lets stale work be dropped.

use std::sync::Arc;
use vstd::prelude::*;
use crate::fit::FitMode;
use crate::pixels::{FilterType, Pixels};
use crate::worker::{can_render, is_processed, ImageResult, ImageWorker};

verus! {

/// A batch of images to prepare.
pub struct PrefetchRequest {
    pub paths: Vec<String>,
    pub target: (u32, u32),
    pub fit_mode: FitMode,
    /// The epoch at submission.
    pub epoch: u64,
    pub kgp_id: u32,
    pub is_tmux: bool,
    pub compress_level: Option<u32>,
    pub tmux_kitty_max_pixels: u64,
    pub resize_filter: FilterType,
}

/// The epoch after a cancellation: one more, starting over after the
/// largest value.
pub open spec fn next_epoch(epoch: u64) -> u64 {
    if epoch == u64::MAX {
        0
    } else {
        (epoch + 1) as u64
    }
}

/// Whether work submitted at `epoch` is stale once the epoch counter
/// stands at `current`: a cancellation came in between.
pub open spec fn is_stale(epoch: u64, current: u64) -> bool {
    epoch < current
}

/// The orchestrator's end of the prefetch pool: the epoch counter.
#[derive(Clone, Copy, Debug, PartialEq, Eq, Structural)]
pub struct PrefetchWorker {
    pub epoch: u64,
}

impl PrefetchWorker {
    pub fn new() -> (worker: PrefetchWorker)
        ensures
            worker.epoch == 0,
    {
        PrefetchWorker { epoch: 0 }
    }

    /// Cancel everything submitted so far by advancing the epoch.
    pub fn cancel(&mut self)
        ensures
            final(self).epoch == next_epoch(old(self).epoch),
    {
        self.epoch = if self.epoch == u64::MAX { 0 } else { self.epoch + 1 };
    }

    /// The epoch to submit new batches under.
    pub fn current_epoch(&self) -> (epoch: u64)
        ensures
            epoch == self.epoch,
    {
        self.epoch
    }

    /// Take a completion that arrived tagged with `epoch`: it is handed on
    /// unless it is stale.
    pub fn try_recv(&self, epoch: u64, result: ImageResult) -> (r: Option<ImageResult>)
        ensures
            r == if is_stale(epoch, self.epoch) { None } else { Some(result) },
    {
        if epoch >= self.epoch {
            Some(result)
        } else {
            None
        }
    }

    /// Whether a batch submitted at `request_epoch` is still worth
    /// starting.
    pub fn accepts_batch(request_epoch: u64, current: u64) -> (b: bool)
        ensures
            b == !is_stale(request_epoch, current),
    {
        request_epoch >= current
    }

    /// Whether an item of a batch is still wanted when the epoch counter
    /// stands at `current`. Asked before the item is processed and again
    /// before its result is delivered.
    pub fn wants_item(req: &PrefetchRequest, current: u64) -> (b: bool)
        ensures
            b == !is_stale(req.epoch, current),
    {
        current <= req.epoch
    }

    /// Prepare one image of a batch, as the processor does for a request in
    /// single mode.
    pub fn prefetch_item(req: &PrefetchRequest, path: String, decoded: &Arc<Pixels>) -> (r: Option<
        ImageResult,
    >)
        requires
            decoded.wf(),
            req.compress_level matches Some(level) ==> level <= 9,
        ensures
            r is Some <==> can_render(decoded, req.target, req.fit_mode, req.tmux_kitty_max_pixels),
            r matches Some(res) ==> res.path == path && is_processed(
                &res,
                decoded,
                req.target,
                req.fit_mode,
                req.kgp_id,
                req.is_tmux,
                req.compress_level,
                req.tmux_kitty_max_pixels,
            ),
    {
        ImageWorker::process_image(
            decoded,
            path,
            req.target,
            req.fit_mode,
            req.kgp_id,
            req.is_tmux,
            req.compress_level,
            req.tmux_kitty_max_pixels,
            req.resize_filter,
        )
    }
}

} // verus!
