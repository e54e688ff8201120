//! The dispatch gateway: the entry points the foreign render loop and the
//! input path invoke, all funneled through the application registry.
//!
//! Every entry point takes the bridge exclusively (`&mut`), so within one
//! process no two dispatches ever interleave their effects on the
//! application instance; a caller that shares one bridge between an input
//! thread and the render loop serializes the calls behind one lock and holds
//! it only for the span of a single dispatch.

use vstd::prelude::*;
use crate::Application;
use crate::decoder::{Decoder, DecoderModel, step};
use crate::event::Event;
use crate::registry::{Registry, RegistryError};

verus! {

/// One application registry and one protocol decoder behind four entry points.
pub struct Bridge<A> {
    registry: Registry<A>,
    decoder: Decoder,
}

impl<A: Application> Bridge<A> {
    /// Whether an application instance is installed.
    pub closed spec fn installed(self) -> bool {
        self.registry.installed()
    }

    /// The state of the protocol decoder.
    pub closed spec fn decoder_model(self) -> DecoderModel {
        self.decoder@
    }

    /// The decoder holds its fixed slots and addresses one of them.
    pub open spec fn wf(self) -> bool {
        self.decoder_model().wf()
    }

    /// A bridge with a fresh decoder and nothing installed yet.
    pub fn new() -> (r: Self)
        ensures
            r.wf(),
            r.decoder_model().inv(),
            !r.installed(),
            r.decoder_model().dropped == 0,
    {
        Bridge { registry: Registry::new(), decoder: Decoder::new() }
    }

    /// Installs the single application instance; a second call fails with
    /// `AlreadyInstalled` and changes nothing.
    pub fn install(&mut self, app: A) -> (r: Result<(), RegistryError>)
        ensures
            !old(self).installed() ==> r is Ok && final(self).installed(),
            old(self).installed() ==> r matches Err(RegistryError::AlreadyInstalled),
            final(self).decoder_model() == old(self).decoder_model(),
    {
        self.registry.install(app)
    }

    /// Entry point for the foreign loop's resize callback: forwards the new
    /// surface size to the installed instance, if any.
    pub fn on_resize(&mut self, width: u32, height: u32) -> (handled: bool)
        ensures
            handled == old(self).installed(),
            final(self).installed() == old(self).installed(),
            final(self).decoder_model() == old(self).decoder_model(),
    {
        self.registry.dispatch_size(width, height)
    }

    /// Entry point for the foreign loop's draw callback: forwards one frame's
    /// draw to the installed instance, if any. It never touches input state,
    /// so it cannot block on input handling.
    pub fn on_draw(&mut self, width: u32, height: u32) -> (handled: bool)
        ensures
            handled == old(self).installed(),
            final(self).installed() == old(self).installed(),
            final(self).decoder_model() == old(self).decoder_model(),
    {
        self.registry.dispatch_draw(width, height)
    }

    /// Entry point for the foreign loop's timer callback: delivers one tick
    /// event to the installed instance, if any.
    pub fn on_tick(&mut self) -> (handled: bool)
        ensures
            handled == old(self).installed(),
            final(self).installed() == old(self).installed(),
            final(self).decoder_model() == old(self).decoder_model(),
    {
        let event = Event::Tick;
        self.registry.dispatch_event(&event)
    }

    /// Entry point for the input path: feeds one raw record to the decoder —
    /// which takes exactly the step that `step` describes — and delivers each
    /// emitted event to the installed instance in order. Returns the emitted
    /// events.
    pub fn on_input(&mut self, kind: u16, code: u16, value: i32) -> (events: Vec<Event>)
        ensures
            old(self).wf(),
            final(self).wf(),
            final(self).installed() == old(self).installed(),
            final(self).decoder_model() == step(old(self).decoder_model(), kind, code, value).0,
            events@ == step(old(self).decoder_model(), kind, code, value).1,
            old(self).decoder_model().inv() ==> final(self).decoder_model().inv(),
    {
        let events = self.decoder.feed(kind, code, value);
        proof {
            crate::decoder::lemma_step_preserves_wf(old(self).decoder_model(), kind, code, value);
        }
        let mut i: usize = 0;
        while i < events.len()
            invariant
                i <= events@.len(),
                self.decoder@ == step(old(self).decoder_model(), kind, code, value).0,
                self.decoder@.wf(),
                events@ == step(old(self).decoder_model(), kind, code, value).1,
                self.registry.installed() == old(self).installed(),
            decreases events@.len() - i,
        {
            self.registry.dispatch_event(&events[i]);
            i += 1;
        }
        events
    }

    /// How many malformed records the decoder has dropped.
    pub fn dropped_records(&self) -> (r: u64)
        ensures
            r == self.decoder_model().dropped,
    {
        self.decoder.dropped_records()
    }
}

} // verus!
