use vstd::prelude::*;

verus! {

/// Slot contents after installing `p` only if the slot is empty, together
/// with the handle handed back to the caller when the slot was occupied.
pub open spec fn after_set_if_absent<P>(s: Option<P>, p: P) -> (Option<P>, Option<P>) {
    match s {
        Some(q) => (Some(q), Some(p)),
        None => (Some(p), None),
    }
}

/// Slot contents after taking the handle out, together with what was taken.
pub open spec fn after_take<P>(s: Option<P>) -> (Option<P>, Option<P>) {
    (None, s)
}

/// Single-occupancy slot that owns the handle of the running worker, if any.
pub struct SidecarProcess<P> {
    process: Option<P>,
}

impl<P> View for SidecarProcess<P> {
    type V = Option<P>;

    closed spec fn view(&self) -> Option<P> {
        self.process
    }
}

impl<P> SidecarProcess<P> {
    /// An empty slot.
    pub fn new() -> (r: Self)
        ensures
            r@ is None,
    {
        SidecarProcess { process: None }
    }

    /// Installs `process` only if the slot is empty. When the slot is already
    /// occupied it is left unchanged and `process` is handed back, so that the
    /// caller can terminate it.
    pub fn try_set_if_absent(&mut self, process: P) -> (rejected: Option<P>)
        ensures
            (final(self)@, rejected) == after_set_if_absent(old(self)@, process),
    {
        if self.process.is_some() {
            Some(process)
        } else {
            self.process = Some(process);
            None
        }
    }

    /// Removes the handle, leaving the slot empty.
    pub fn take_process(&mut self) -> (r: Option<P>)
        ensures
            (final(self)@, r) == after_take(old(self)@),
    {
        self.process.take()
    }

    /// Whether a worker handle is installed.
    pub fn has_process(&self) -> (r: bool)
        ensures
            r == self@ is Some,
    {
        self.process.is_some()
    }
}

} // verus!
