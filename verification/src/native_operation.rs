use vstd::prelude::*;

verus! {

/// Outcome reported when a hidden-window lease is released.
#[derive(Clone, Copy, Debug, Eq, PartialEq, Structural)]
pub struct WindowsHiddenWindowLeaseRelease {
    /// Whether a close request arrived while the lease was outstanding.
    pub close_requested: bool,
    /// Whether the native window has been destroyed.
    pub native_destroyed: bool,
}

/// Rejection of a native-window operation.
#[derive(Clone, Copy, Debug, Eq, PartialEq, Structural)]
pub enum NativeOperationError {
    /// The native window is already being destroyed or destroyed.
    AlreadyDestroyed,
    /// A native destruction receipt has already been issued for this window.
    ReceiptAlreadyIssued,
    /// A native operation has already been issued for this window.
    OperationAlreadyIssued,
    /// The native window is published, closing or destroyed.
    PublishedClosingOrDestroyed,
    /// The native operation requires a hidden window.
    WindowVisible,
    /// Native destruction cannot run during a worker operation.
    DestructionDuringOperation,
}

/// Lifecycle facts of one native window with respect to hidden-window operations.
#[derive(Clone, Copy, Debug, Default, Eq, PartialEq, Structural)]
pub struct NativeOperationFlags {
    /// A hidden-window lease has been issued.
    pub issued: bool,
    /// The issued lease is still outstanding.
    pub active: bool,
    /// The window has been published.
    pub published: bool,
    /// A close request was latched while the lease was unpublished.
    pub close_requested: bool,
    /// Destruction has been requested.
    pub destroy_requested: bool,
    /// Destruction has been scheduled to run.
    pub destroy_scheduled: bool,
    /// The native window has been destroyed.
    pub native_destroyed: bool,
    /// A destruction receipt has been issued.
    pub destruction_receipt_issued: bool,
    /// An issued destruction receipt still awaits its completion.
    pub destruction_completion_pending: bool,
}

/// Hidden-window operation state of one native window.
pub struct NativeOperationState {
    flags: NativeOperationFlags,
}

impl View for NativeOperationState {
    type V = NativeOperationFlags;

    closed spec fn view(&self) -> NativeOperationFlags {
        self.flags
    }
}

impl NativeOperationState {
    /// A window with no operation issued, unpublished and not destroyed.
    pub fn new() -> (state: Self)
        ensures
            state@ == (NativeOperationFlags {
                issued: false,
                active: false,
                published: false,
                close_requested: false,
                destroy_requested: false,
                destroy_scheduled: false,
                native_destroyed: false,
                destruction_receipt_issued: false,
                destruction_completion_pending: false,
            }),
    {
        NativeOperationState {
            flags: NativeOperationFlags {
                issued: false,
                active: false,
                published: false,
                close_requested: false,
                destroy_requested: false,
                destroy_scheduled: false,
                native_destroyed: false,
                destruction_receipt_issued: false,
                destruction_completion_pending: false,
            },
        }
    }

    /// Issues the window's single destruction receipt.
    pub fn observe_native_destruction(&mut self) -> (result: Result<(), NativeOperationError>)
        ensures
            if old(self)@.native_destroyed {
                result == Err::<(), _>(NativeOperationError::AlreadyDestroyed) && final(self)@
                    == old(self)@
            } else if old(self)@.destruction_receipt_issued {
                result == Err::<(), _>(NativeOperationError::ReceiptAlreadyIssued) && final(self)@
                    == old(self)@
            } else {
                result is Ok && final(self)@ == (NativeOperationFlags {
                    destruction_receipt_issued: true,
                    destruction_completion_pending: true,
                    ..old(self)@
                })
            },
    {
        if self.flags.native_destroyed {
            return Err(NativeOperationError::AlreadyDestroyed);
        }
        if self.flags.destruction_receipt_issued {
            return Err(NativeOperationError::ReceiptAlreadyIssued);
        }
        self.flags.destruction_receipt_issued = true;
        self.flags.destruction_completion_pending = true;
        Ok(())
    }

    /// Issues the window's single hidden-window lease: only once, only while unpublished, not
    /// closing and not destroyed, and only while the native window is not visible.
    pub fn lease_hidden_native_window(&mut self, window_visible: bool) -> (result: Result<
        (),
        NativeOperationError,
    >)
        ensures
            match lease_outcome(old(self)@, window_visible) {
                Ok(flags) => result is Ok && final(self)@ == flags,
                Err(error) => result == Err::<(), _>(error) && final(self)@ == old(self)@,
            },
    {
        if self.flags.issued {
            return Err(NativeOperationError::OperationAlreadyIssued);
        }
        if self.flags.published || self.flags.close_requested || self.flags.destroy_requested
            || self.flags.native_destroyed {
            return Err(NativeOperationError::PublishedClosingOrDestroyed);
        }
        if window_visible {
            return Err(NativeOperationError::WindowVisible);
        }
        self.flags.issued = true;
        self.flags.active = true;
        Ok(())
    }

    /// Ends the outstanding lease and reports whether destruction was requested meanwhile (and
    /// so must run now).
    pub fn release_lease(&mut self) -> (destroy_requested: bool)
        ensures
            destroy_requested == old(self)@.destroy_requested,
            final(self)@ == (NativeOperationFlags { active: false, ..old(self)@ }),
    {
        self.flags.active = false;
        self.flags.destroy_requested
    }

    /// What a released lease reports.
    pub fn lease_release(&self) -> (release: WindowsHiddenWindowLeaseRelease)
        ensures
            release == (WindowsHiddenWindowLeaseRelease {
                close_requested: self@.close_requested,
                native_destroyed: self@.native_destroyed,
            }),
    {
        WindowsHiddenWindowLeaseRelease {
            close_requested: self.flags.close_requested,
            native_destroyed: self.flags.native_destroyed,
        }
    }

    /// Whether a close request has been latched.
    pub fn native_close_requested(&self) -> (requested: bool)
        ensures
            requested == self@.close_requested,
    {
        self.flags.close_requested
    }

    /// Whether exposing the window is blocked: while a lease is outstanding, after a latched
    /// close, or once destruction was requested or happened.
    pub fn native_exposure_blocked(&self) -> (blocked: bool)
        ensures
            blocked == exposure_blocked(self@),
    {
        self.flags.active || self.flags.close_requested || self.flags.destroy_requested
            || self.flags.native_destroyed
    }

    /// Latches a close request that arrives after a lease was issued and before publication;
    /// reports whether it was latched.
    pub fn latch_native_close_request(&mut self) -> (latched: bool)
        ensures
            latched == (old(self)@.issued && !old(self)@.published),
            final(self)@ == if latched {
                NativeOperationFlags { close_requested: true, ..old(self)@ }
            } else {
                old(self)@
            },
    {
        if self.flags.issued && !self.flags.published {
            self.flags.close_requested = true;
            true
        } else {
            false
        }
    }

    /// Records that the window was published.
    pub fn native_did_publish(&mut self)
        ensures
            final(self)@ == (NativeOperationFlags { published: true, ..old(self)@ }),
    {
        self.flags.published = true;
    }

    /// Records that the native window was destroyed.
    pub fn native_did_destroy(&mut self)
        ensures
            final(self)@ == (NativeOperationFlags { native_destroyed: true, ..old(self)@ }),
    {
        self.flags.native_destroyed = true;
    }

    /// Takes the pending destruction completion, reporting whether one was pending (and so must
    /// now be delivered).
    pub fn complete_native_destruction(&mut self) -> (pending: bool)
        ensures
            pending == old(self)@.destruction_completion_pending,
            final(self)@ == (NativeOperationFlags {
                destruction_completion_pending: false,
                ..old(self)@
            }),
    {
        let pending = self.flags.destruction_completion_pending;
        self.flags.destruction_completion_pending = false;
        pending
    }

    /// Records that destruction finished and takes the pending completion, reporting whether it
    /// was pending.
    pub fn native_did_finish_destroy(&mut self) -> (pending: bool)
        ensures
            pending == old(self)@.destruction_completion_pending,
            final(self)@ == (NativeOperationFlags {
                native_destroyed: true,
                destruction_completion_pending: false,
                ..old(self)@
            }),
    {
        self.native_did_destroy();
        self.complete_native_destruction()
    }

    /// Requests destruction; reports whether destruction must be scheduled now. It is deferred
    /// while a lease is outstanding and scheduled at most once.
    pub fn request_native_destruction(&mut self) -> (schedule: bool)
        ensures
            schedule == !(old(self)@.active || old(self)@.native_destroyed
                || old(self)@.destroy_scheduled),
            final(self)@ == (NativeOperationFlags {
                destroy_requested: true,
                destroy_scheduled: old(self)@.destroy_scheduled || schedule,
                ..old(self)@
            }),
    {
        self.flags.destroy_requested = true;
        if self.flags.active || self.flags.native_destroyed || self.flags.destroy_scheduled {
            return false;
        }
        self.flags.destroy_scheduled = true;
        true
    }

    /// Begins running destruction: already destroyed windows need nothing (`Ok(false)`),
    /// destruction cannot run during an outstanding lease, otherwise it is marked scheduled and
    /// the native window must now be destroyed (`Ok(true)`).
    pub fn begin_native_destruction(&mut self) -> (result: Result<bool, NativeOperationError>)
        ensures
            if old(self)@.native_destroyed {
                result == Ok::<_, NativeOperationError>(false) && final(self)@ == old(self)@
            } else if old(self)@.active {
                result == Err::<bool, _>(NativeOperationError::DestructionDuringOperation)
                    && final(self)@ == old(self)@
            } else {
                result == Ok::<_, NativeOperationError>(true) && final(self)@ == (
                NativeOperationFlags { destroy_scheduled: true, ..old(self)@ })
            },
    {
        if self.flags.native_destroyed {
            return Ok(false);
        }
        if self.flags.active {
            return Err(NativeOperationError::DestructionDuringOperation);
        }
        self.flags.destroy_scheduled = true;
        Ok(true)
    }
}

/// Outcome of a lease request on a window in state `flags` whose native window is (or is not)
/// visible: the state after the lease, or the rejection.
pub open spec fn lease_outcome(flags: NativeOperationFlags, window_visible: bool) -> Result<
    NativeOperationFlags,
    NativeOperationError,
> {
    if flags.issued {
        Err(NativeOperationError::OperationAlreadyIssued)
    } else if flags.published || flags.close_requested || flags.destroy_requested
        || flags.native_destroyed {
        Err(NativeOperationError::PublishedClosingOrDestroyed)
    } else if window_visible {
        Err(NativeOperationError::WindowVisible)
    } else {
        Ok(NativeOperationFlags { issued: true, active: true, ..flags })
    }
}

/// Exposure of the window is blocked in state `flags`.
pub open spec fn exposure_blocked(flags: NativeOperationFlags) -> bool {
    flags.active || flags.close_requested || flags.destroy_requested || flags.native_destroyed
}

/// A window leases its hidden native window at most once: after a granted lease exposure is
/// blocked and every further lease request is rejected as already issued.
pub proof fn lemma_lease_issued_at_most_once(flags: NativeOperationFlags, visible: bool, later_visible: bool)
    requires
        lease_outcome(flags, visible) is Ok,
    ensures
        exposure_blocked(lease_outcome(flags, visible)->Ok_0),
        lease_outcome(lease_outcome(flags, visible)->Ok_0, later_visible) == Err::<
            NativeOperationFlags,
            _,
        >(NativeOperationError::OperationAlreadyIssued),
{
}

/// Destruction requested while a lease is outstanding is deferred, not scheduled; the request is
/// remembered so that releasing the lease reports it, and once released destruction can begin.
pub proof fn lemma_destruction_deferred_during_lease(flags: NativeOperationFlags)
    requires
        flags.active,
        !flags.native_destroyed,
    ensures
        ({
            let requested = NativeOperationFlags {
                destroy_requested: true,
                destroy_scheduled: flags.destroy_scheduled,
                ..flags
            };
            let released = NativeOperationFlags { active: false, ..requested };
            &&& exposure_blocked(requested)
            &&& released.destroy_requested
            &&& !released.active
            &&& exposure_blocked(released)
        }),
{
}

} // verus!
