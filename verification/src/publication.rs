use vstd::prelude::*;
use crate::geometry::{Bounds, Pixels};

verus! {

/// Native window state fixed at construction or reached by zoom and fullscreen requests.
#[derive(Clone, Copy, Debug, PartialEq, Eq, Structural)]
pub enum WindowBounds {
    /// An ordinary window with the given restore bounds.
    Windowed(Bounds<Pixels>),
    /// A maximized window with the given restore bounds.
    Maximized(Bounds<Pixels>),
    /// A fullscreen window with the given restore bounds.
    Fullscreen(Bounds<Pixels>),
}

impl WindowBounds {
    /// The restore bounds carried by every state.
    pub open spec fn restore_bounds(self) -> Bounds<Pixels> {
        match self {
            WindowBounds::Windowed(bounds) => bounds,
            WindowBounds::Maximized(bounds) => bounds,
            WindowBounds::Fullscreen(bounds) => bounds,
        }
    }

    /// Returns the restore bounds carried by this state.
    pub fn get_bounds(&self) -> (bounds: Bounds<Pixels>)
        ensures
            bounds == self.restore_bounds(),
    {
        match self {
            WindowBounds::Windowed(bounds) => *bounds,
            WindowBounds::Maximized(bounds) => *bounds,
            WindowBounds::Fullscreen(bounds) => *bounds,
        }
    }
}

/// Content-free visibility facts of one test-platform window.
#[derive(Clone, Copy, Debug, PartialEq, Eq, Structural)]
pub struct WindowVisibility {
    /// The window is visible.
    pub is_visible: bool,
    /// Visibility transitions performed so far.
    pub visibility_change_count: u64,
    /// The window is active.
    pub is_active: bool,
    /// Activation transitions performed so far.
    pub activation_change_count: u64,
    /// The window is minimized.
    pub is_minimized: bool,
    /// Minimize transitions performed so far.
    pub minimize_change_count: u64,
}

/// Why a first publication failed.
#[derive(Clone, Copy, Debug, PartialEq, Eq, Structural)]
pub enum WindowPublicationError {
    /// The window was closed; its handle no longer resolves.
    Closed,
    /// The platform visibility transition failed; the window stays unpublished.
    PlatformFailure,
}

/// Abstract lifecycle state of one window constructed hidden or shown.
#[derive(Clone, Copy, Debug, PartialEq, Eq, Structural)]
pub struct WindowPublicationState {
    /// The window has been made visible (at construction or by first publication).
    pub published: bool,
    /// The window was removed.
    pub closed: bool,
    /// The next platform visibility transition will fail.
    pub fail_next: bool,
    /// Current native window state.
    pub bounds: WindowBounds,
    /// Visibility facts.
    pub visibility: WindowVisibility,
}

/// A test-platform window's publication lifecycle.
pub struct WindowPublication {
    state: WindowPublicationState,
}

impl View for WindowPublication {
    type V = WindowPublicationState;

    closed spec fn view(&self) -> WindowPublicationState {
        self.state
    }
}

/// Counter increment that saturates at `u64::MAX`.
pub open spec fn bump(count: u64) -> u64 {
    if count == u64::MAX { count } else { (count + 1) as u64 }
}

/// State after opening a window: shown windows are visible (and active when focused) once at
/// creation; hidden windows are neither.
pub open spec fn open_state(show: bool, focus: bool, bounds: WindowBounds) -> WindowPublicationState {
    WindowPublicationState {
        published: show,
        closed: false,
        fail_next: false,
        bounds,
        visibility: WindowVisibility {
            is_visible: show,
            visibility_change_count: if show { 1 } else { 0 },
            is_active: show && focus,
            activation_change_count: if show && focus { 1 } else { 0 },
            is_minimized: false,
            minimize_change_count: 0,
        },
    }
}

/// State after an activation request: inert until published, otherwise the window becomes active
/// (counting a transition only when it was inactive).
pub open spec fn activate_step(s: WindowPublicationState) -> WindowPublicationState {
    if !s.published || s.closed || s.visibility.is_active {
        s
    } else {
        WindowPublicationState {
            visibility: WindowVisibility {
                is_active: true,
                activation_change_count: bump(s.visibility.activation_change_count),
                ..s.visibility
            },
            ..s
        }
    }
}

/// State after a minimize request: inert until published, otherwise the window becomes
/// minimized (counting a transition only when it was not).
pub open spec fn minimize_step(s: WindowPublicationState) -> WindowPublicationState {
    if !s.published || s.closed || s.visibility.is_minimized {
        s
    } else {
        WindowPublicationState {
            visibility: WindowVisibility {
                is_minimized: true,
                minimize_change_count: bump(s.visibility.minimize_change_count),
                ..s.visibility
            },
            ..s
        }
    }
}

/// State after a zoom request: inert until published; afterwards maximized windows restore and
/// other windows maximize.
pub open spec fn zoom_step(s: WindowPublicationState) -> WindowPublicationState {
    if !s.published || s.closed {
        s
    } else {
        WindowPublicationState {
            bounds: match s.bounds {
                WindowBounds::Maximized(bounds) => WindowBounds::Windowed(bounds),
                WindowBounds::Windowed(bounds) => WindowBounds::Maximized(bounds),
                WindowBounds::Fullscreen(bounds) => WindowBounds::Maximized(bounds),
            },
            ..s
        }
    }
}

/// State after a fullscreen toggle: inert until published; afterwards fullscreen windows return
/// to windowed and other windows enter fullscreen.
pub open spec fn fullscreen_step(s: WindowPublicationState) -> WindowPublicationState {
    if !s.published || s.closed {
        s
    } else {
        WindowPublicationState {
            bounds: match s.bounds {
                WindowBounds::Fullscreen(bounds) => WindowBounds::Windowed(bounds),
                other => WindowBounds::Fullscreen(other.restore_bounds()),
            },
            ..s
        }
    }
}

/// Outcome of a first-publication request: closed windows fail; already published windows
/// succeed without another transition; an injected platform failure is reported once and leaves
/// the window unpublished; otherwise the window becomes visible once, without activation.
pub open spec fn publish_step(s: WindowPublicationState) -> (Result<(), WindowPublicationError>, WindowPublicationState) {
    if s.closed {
        (Err(WindowPublicationError::Closed), s)
    } else if s.published {
        (Ok(()), s)
    } else if s.fail_next {
        (Err(WindowPublicationError::PlatformFailure), WindowPublicationState { fail_next: false, ..s })
    } else {
        (
            Ok(()),
            WindowPublicationState {
                published: true,
                visibility: WindowVisibility {
                    is_visible: true,
                    visibility_change_count: bump(s.visibility.visibility_change_count),
                    ..s.visibility
                },
                ..s
            },
        )
    }
}

impl WindowPublication {
    /// Opens a window shown or hidden, focused or not, in the given initial native state.
    pub fn open(show: bool, focus: bool, bounds: WindowBounds) -> (window: Self)
        ensures
            window@ == open_state(show, focus, bounds),
    {
        WindowPublication {
            state: WindowPublicationState {
                published: show,
                closed: false,
                fail_next: false,
                bounds,
                visibility: WindowVisibility {
                    is_visible: show,
                    visibility_change_count: if show { 1 } else { 0 },
                    is_active: show && focus,
                    activation_change_count: if show && focus { 1 } else { 0 },
                    is_minimized: false,
                    minimize_change_count: 0,
                },
            },
        }
    }

    /// The window's visibility facts.
    pub fn visibility(&self) -> (visibility: WindowVisibility)
        ensures
            visibility == self@.visibility,
    {
        self.state.visibility
    }

    /// The window's current native state.
    pub fn window_bounds(&self) -> (bounds: WindowBounds)
        ensures
            bounds == self@.bounds,
    {
        self.state.bounds
    }

    /// Requests activation.
    pub fn activate_window(&mut self)
        ensures
            final(self)@ == activate_step(old(self)@),
    {
        if !self.state.published || self.state.closed || self.state.visibility.is_active {
            return;
        }
        self.state.visibility.is_active = true;
        self.state.visibility.activation_change_count = bump_count(
            self.state.visibility.activation_change_count,
        );
    }

    /// Requests minimization.
    pub fn minimize_window(&mut self)
        ensures
            final(self)@ == minimize_step(old(self)@),
    {
        if !self.state.published || self.state.closed || self.state.visibility.is_minimized {
            return;
        }
        self.state.visibility.is_minimized = true;
        self.state.visibility.minimize_change_count = bump_count(
            self.state.visibility.minimize_change_count,
        );
    }

    /// Requests a zoom (maximize or restore).
    pub fn zoom_window(&mut self)
        ensures
            final(self)@ == zoom_step(old(self)@),
    {
        if !self.state.published || self.state.closed {
            return;
        }
        self.state.bounds = match self.state.bounds {
            WindowBounds::Maximized(bounds) => WindowBounds::Windowed(bounds),
            WindowBounds::Windowed(bounds) => WindowBounds::Maximized(bounds),
            WindowBounds::Fullscreen(bounds) => WindowBounds::Maximized(bounds),
        };
    }

    /// Toggles fullscreen.
    pub fn toggle_fullscreen(&mut self)
        ensures
            final(self)@ == fullscreen_step(old(self)@),
    {
        if !self.state.published || self.state.closed {
            return;
        }
        self.state.bounds = match self.state.bounds {
            WindowBounds::Fullscreen(bounds) => WindowBounds::Windowed(bounds),
            WindowBounds::Windowed(bounds) => WindowBounds::Fullscreen(bounds),
            WindowBounds::Maximized(bounds) => WindowBounds::Fullscreen(bounds),
        };
    }

    /// Makes the next platform visibility transition fail.
    pub fn fail_next_visibility_change(&mut self)
        ensures
            final(self)@ == (WindowPublicationState { fail_next: true, ..old(self)@ }),
    {
        self.state.fail_next = true;
    }

    /// Removes the window.
    pub fn remove_window(&mut self)
        ensures
            final(self)@ == (WindowPublicationState { closed: true, ..old(self)@ }),
    {
        self.state.closed = true;
    }

    /// Publishes the already-created window as its first visible surface.
    pub fn publish(&mut self) -> (result: Result<(), WindowPublicationError>)
        ensures
            (result, final(self)@) == publish_step(old(self)@),
    {
        if self.state.closed {
            return Err(WindowPublicationError::Closed);
        }
        if self.state.published {
            return Ok(());
        }
        if self.state.fail_next {
            self.state.fail_next = false;
            return Err(WindowPublicationError::PlatformFailure);
        }
        self.state.published = true;
        self.state.visibility.is_visible = true;
        self.state.visibility.visibility_change_count = bump_count(
            self.state.visibility.visibility_change_count,
        );
        Ok(())
    }
}

fn bump_count(count: u64) -> (next: u64)
    ensures
        next == bump(count),
{
    if count == u64::MAX {
        count
    } else {
        count + 1
    }
}

/// The publication invariant: a window is visible exactly when published, and it has made at
/// most one visibility transition.
pub open spec fn publication_invariant(s: WindowPublicationState) -> bool {
    &&& s.visibility.is_visible == s.published
    &&& s.visibility.visibility_change_count == if s.published { 1u64 } else { 0u64 }
    &&& !s.published ==> !s.visibility.is_active && !s.visibility.is_minimized
}

/// Every reachable state keeps the publication invariant: opening establishes it and every
/// operation preserves it. So a hidden window stays invisible, inactive and unminimized until its
/// one successful publication, and the window becomes visible exactly once.
pub proof fn lemma_publication_invariant(
    s: WindowPublicationState,
    show: bool,
    focus: bool,
    bounds: WindowBounds,
)
    requires
        publication_invariant(s),
    ensures
        publication_invariant(open_state(show, focus, bounds)),
        publication_invariant(activate_step(s)),
        publication_invariant(minimize_step(s)),
        publication_invariant(zoom_step(s)),
        publication_invariant(fullscreen_step(s)),
        publication_invariant(publish_step(s).1),
        publication_invariant(WindowPublicationState { fail_next: true, ..s }),
        publication_invariant(WindowPublicationState { closed: true, ..s }),
{
}

/// First publication never activates or minimizes a window; a repeated publication changes
/// nothing; a failed one leaves the window unpublished and retryable; and until publication the
/// initial native state is fixed against zoom and fullscreen requests.
pub proof fn lemma_publication_is_separate_and_idempotent(s: WindowPublicationState)
    ensures
        publish_step(s).1.visibility.is_active == s.visibility.is_active,
        publish_step(s).1.visibility.activation_change_count == s.visibility.activation_change_count,
        publish_step(s).1.visibility.is_minimized == s.visibility.is_minimized,
        publish_step(s).1.bounds == s.bounds,
        s.published && !s.closed ==> publish_step(s) == (Ok::<(), WindowPublicationError>(()), s),
        publish_step(s).0 == Err::<(), _>(WindowPublicationError::PlatformFailure) ==> !publish_step(
            s,
        ).1.published && !publish_step(s).1.fail_next && !publish_step(s).1.closed,
        !s.published ==> zoom_step(s).bounds == s.bounds && fullscreen_step(s).bounds == s.bounds,
{
}

} // verus!
