//! The application registry: the process-wide slot that holds the single
//! active application instance and mediates all access to it.
//!
//! The registry is populated exactly once before the render loop starts and
//! never repopulated. Every dispatch takes the registry exclusively, so no
//! two dispatches ever interleave their effects on the instance; the caller
//! that shares one registry between threads serializes them behind one lock.

use vstd::prelude::*;
use crate::Application;
use crate::event::Event;

verus! {

/// The configuration error the registry reports.
#[derive(Clone, Copy, Debug, PartialEq, Eq, Structural)]
pub enum RegistryError {
    /// An application instance is already installed.
    AlreadyInstalled,
}

/// Zero or one application instance, exclusively accessible.
pub struct Registry<A> {
    app: Option<A>,
}

impl<A: Application> Registry<A> {
    /// Whether an application instance is installed.
    pub closed spec fn installed(self) -> bool {
        self.app is Some
    }

    /// The installed application instance.
    pub closed spec fn instance(self) -> A
        recommends
            self.installed(),
    {
        self.app->Some_0
    }

    /// An empty registry: nothing installed yet.
    pub fn new() -> (r: Self)
        ensures
            !r.installed(),
    {
        Registry { app: None }
    }

    /// Installs the single application instance. This succeeds exactly once:
    /// a second call fails with `AlreadyInstalled` and changes nothing.
    pub fn install(&mut self, app: A) -> (r: Result<(), RegistryError>)
        ensures
            !old(self).installed() ==> r is Ok && final(self).installed() && final(self).instance()
                == app,
            old(self).installed() ==> (r matches Err(RegistryError::AlreadyInstalled))
                && *final(self) == *old(self),
    {
        if self.app.is_some() {
            Err(RegistryError::AlreadyInstalled)
        } else {
            self.app = Some(app);
            Ok(())
        }
    }

    /// Forwards a resize to the installed instance; reports whether one was
    /// installed. The instance stays installed either way.
    pub fn dispatch_size(&mut self, width: u32, height: u32) -> (handled: bool)
        ensures
            handled == old(self).installed(),
            final(self).installed() == old(self).installed(),
            !old(self).installed() ==> *final(self) == *old(self),
    {
        match &mut self.app {
            Some(app) => {
                app.size(width, height);
                true
            },
            None => false,
        }
    }

    /// Forwards a draw to the installed instance; reports whether one was
    /// installed. The instance stays installed either way.
    pub fn dispatch_draw(&mut self, width: u32, height: u32) -> (handled: bool)
        ensures
            handled == old(self).installed(),
            final(self).installed() == old(self).installed(),
            !old(self).installed() ==> *final(self) == *old(self),
    {
        match &mut self.app {
            Some(app) => {
                app.draw(width, height);
                true
            },
            None => false,
        }
    }

    /// Forwards one event to the installed instance; reports whether one was
    /// installed. The instance stays installed either way.
    pub fn dispatch_event(&mut self, event: &Event) -> (handled: bool)
        ensures
            handled == old(self).installed(),
            final(self).installed() == old(self).installed(),
            !old(self).installed() ==> *final(self) == *old(self),
    {
        match &mut self.app {
            Some(app) => {
                app.handle(event);
                true
            },
            None => false,
        }
    }
}

} // verus!
