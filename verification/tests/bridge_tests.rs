use weekit::bridge::Bridge;
use weekit::decoder::{
    ABS_MT_POSITION_X, ABS_MT_POSITION_Y, ABS_MT_SLOT, ABS_MT_TRACKING_ID, EV_ABS, EV_KEY, EV_SYN,
    SYN_REPORT,
};
use weekit::event::{Event, TouchKind};
use weekit::platform;
use weekit::registry::{Registry, RegistryError};
use weekit::Application;

/// A recording application: remembers every call the bridge forwards.
struct Probe {
    sized: Vec<(u32, u32)>,
    drawn: Vec<(u32, u32)>,
    events: Vec<Event>,
}

impl Probe {
    fn new() -> Probe {
        Probe { sized: Vec::new(), drawn: Vec::new(), events: Vec::new() }
    }
}

impl Application for Probe {
    fn size(&mut self, width: u32, height: u32) {
        self.sized.push((width, height));
    }

    fn draw(&mut self, width: u32, height: u32) {
        self.drawn.push((width, height));
    }

    fn handle(&mut self, event: &Event) {
        self.events.push(*event);
    }
}

/// An application that keeps the trait's no-op defaults for size and handle.
struct Minimal {
    frames: u32,
}

impl Application for Minimal {
    fn draw(&mut self, _width: u32, _height: u32) {
        self.frames += 1;
    }
}

#[test]
fn platform_is_linux() {
    assert_eq!(platform(), "linux");
}

#[test]
fn install_succeeds_exactly_once() {
    let mut registry: Registry<Minimal> = Registry::new();
    assert_eq!(registry.install(Minimal { frames: 0 }), Ok(()));
    assert_eq!(
        registry.install(Minimal { frames: 0 }),
        Err(RegistryError::AlreadyInstalled)
    );
}

#[test]
fn dispatch_without_instance_reports_unhandled() {
    let mut bridge: Bridge<Probe> = Bridge::new();
    assert!(!bridge.on_resize(640, 480));
    assert!(!bridge.on_draw(640, 480));
    assert!(!bridge.on_tick());
    // Decoding still runs without an application.
    let events = bridge.on_input(EV_KEY, 30, 1);
    assert_eq!(events, vec![Event::Key { code: 30, pressed: true }]);
}

#[test]
fn bridge_forwards_all_four_entry_points() {
    let mut bridge: Bridge<Probe> = Bridge::new();
    assert!(bridge.install(Probe::new()).is_ok());

    assert!(bridge.on_resize(800, 600));
    assert!(bridge.on_draw(800, 600));
    assert!(bridge.on_tick());

    bridge.on_input(EV_ABS, ABS_MT_SLOT, 2);
    bridge.on_input(EV_ABS, ABS_MT_TRACKING_ID, 5);
    bridge.on_input(EV_ABS, ABS_MT_POSITION_X, 10);
    bridge.on_input(EV_ABS, ABS_MT_POSITION_Y, 20);
    let flushed = bridge.on_input(EV_SYN, SYN_REPORT, 0);
    assert_eq!(
        flushed,
        vec![Event::Touch { slot: 2, kind: TouchKind::Begin, x: 10, y: 20 }]
    );
}

#[test]
fn second_install_keeps_the_first_instance() {
    let mut bridge: Bridge<Minimal> = Bridge::new();
    assert!(bridge.install(Minimal { frames: 0 }).is_ok());
    assert_eq!(
        bridge.install(Minimal { frames: 0 }),
        Err(RegistryError::AlreadyInstalled)
    );
    // The first instance still receives dispatches.
    assert!(bridge.on_draw(1, 1));
}

#[test]
fn bridge_counts_dropped_records() {
    let mut bridge: Bridge<Minimal> = Bridge::new();
    assert_eq!(bridge.dropped_records(), 0);
    assert_eq!(bridge.on_input(EV_ABS, ABS_MT_SLOT, 99), vec![]);
    assert_eq!(bridge.dropped_records(), 1);
}

#[test]
fn default_size_and_handle_are_no_ops() {
    let mut app = Minimal { frames: 0 };
    app.size(100, 100);
    app.handle(&Event::Tick);
    app.draw(100, 100);
    assert_eq!(app.frames, 1);
}
