use msu2_display::flasher::errors::AppResult;
use msu2_display::flasher::session::{DisplayWorkerFactory, DisplayWorkerMode, DisplayWorkerSlot};

#[derive(Default)]
struct FakeWorkerFactory {
    next_handle: usize,
    started: Vec<(String, DisplayWorkerMode)>,
    stopped: Vec<usize>,
}

impl DisplayWorkerFactory for FakeWorkerFactory {
    type Handle = usize;

    fn start(&mut self, port_name: String, mode: DisplayWorkerMode) -> AppResult<Self::Handle> {
        self.started.push((port_name, mode));
        self.next_handle += 1;
        Ok(self.next_handle)
    }

    fn stop(&mut self, handle: Self::Handle) {
        self.stopped.push(handle);
    }
}

#[test]
fn starting_ready_worker_records_waiting_mode() {
    let mut slot = DisplayWorkerSlot::default();
    let mut factory = FakeWorkerFactory::default();
    slot.start(&mut factory, "COM4".to_string(), DisplayWorkerMode::WaitingToFlash).unwrap();
    assert!(slot.has_active());
    assert_eq!(factory.started, vec![("COM4".to_string(), DisplayWorkerMode::WaitingToFlash)]);
    assert!(factory.stopped.is_empty());
}

#[test]
fn starting_done_worker_records_done_mode() {
    let mut slot = DisplayWorkerSlot::default();
    let mut factory = FakeWorkerFactory::default();
    slot.start(&mut factory, "COM4".to_string(), DisplayWorkerMode::FlashDone).unwrap();
    assert_eq!(factory.started, vec![("COM4".to_string(), DisplayWorkerMode::FlashDone)]);
}

#[test]
fn stopping_worker_is_idempotent() {
    let mut slot = DisplayWorkerSlot::default();
    let mut factory = FakeWorkerFactory::default();
    slot.start(&mut factory, "COM4".to_string(), DisplayWorkerMode::WaitingToFlash).unwrap();
    slot.stop(&mut factory);
    slot.stop(&mut factory);
    assert!(!slot.has_active());
    assert_eq!(factory.stopped, vec![1]);
}

#[test]
fn start_flash_stops_existing_worker_before_opening_flash_port() {
    let mut slot = DisplayWorkerSlot::default();
    let mut factory = FakeWorkerFactory::default();
    let mut events = Vec::new();
    slot.start(&mut factory, "COM4".to_string(), DisplayWorkerMode::WaitingToFlash).unwrap();
    slot.stop_before_exclusive_use(&mut factory, || events.push("open-flash"));
    assert_eq!(factory.stopped, vec![1]);
    assert_eq!(events, vec!["open-flash"]);
}

#[test]
fn starting_again_replaces_the_running_worker() {
    let mut slot = DisplayWorkerSlot::default();
    let mut factory = FakeWorkerFactory::default();
    slot.start(&mut factory, "COM4".to_string(), DisplayWorkerMode::WaitingToFlash).unwrap();
    slot.start(&mut factory, "COM4".to_string(), DisplayWorkerMode::FlashDone).unwrap();
    assert_eq!(factory.stopped, vec![1]);
    assert!(slot.has_active());
}

struct RefusingFactory;

impl DisplayWorkerFactory for RefusingFactory {
    type Handle = usize;

    fn start(&mut self, _port_name: String, _mode: DisplayWorkerMode) -> AppResult<Self::Handle> {
        Err(msu2_display::flasher::errors::AppError::NoDevice)
    }

    fn stop(&mut self, _handle: Self::Handle) {}
}

#[test]
fn a_refused_start_passes_the_error_and_holds_nothing() {
    let mut slot: DisplayWorkerSlot<usize> = DisplayWorkerSlot::default();
    let mut factory = RefusingFactory;
    let result = slot.start(&mut factory, "COM4".to_string(), DisplayWorkerMode::FlashDone);
    assert_eq!(result, Err(msu2_display::flasher::errors::AppError::NoDevice));
    assert!(!slot.has_active());
}
