//! The background worker that keeps a status screen on the device while the
//! flasher is idle: at most one runs, and it is stopped before the port is
//! needed for anything else.

use vstd::prelude::*;

use crate::flasher::device::PortIo;
use crate::flasher::errors::{AppError, AppResult};
use crate::flasher::screen_status::{show_flash_done, show_waiting_to_flash, StatusScreens};

verus! {

/// Which status screen a worker keeps up.
#[derive(Debug, Clone, Copy, PartialEq, Eq, Structural)]
pub enum DisplayWorkerMode {
    WaitingToFlash,
    FlashDone,
}

/// Starts and stops display workers.
pub trait DisplayWorkerFactory {
    type Handle;

    fn start(&mut self, port_name: String, mode: DisplayWorkerMode) -> AppResult<Self::Handle>;

    fn stop(&mut self, handle: Self::Handle);
}

/// A call the slot made on its factory.
pub ghost enum WorkerCall {
    Start(Seq<char>, DisplayWorkerMode),
    Stop,
}

/// The one display worker that may be running.
pub struct DisplayWorkerSlot<H> {
    active: Option<H>,
    calls: Ghost<Seq<WorkerCall>>,
}

impl<H> Default for DisplayWorkerSlot<H> {
    fn default() -> (r: Self)
        ensures
            !r.has_active_spec(),
            r.calls() == Seq::<WorkerCall>::empty(),
    {
        DisplayWorkerSlot { active: None, calls: Ghost(Seq::empty()) }
    }
}

impl<H> DisplayWorkerSlot<H> {
    pub closed spec fn has_active_spec(&self) -> bool {
        self.active is Some
    }

    /// The handle of the running worker, if any.
    pub closed spec fn active(&self) -> Option<H> {
        self.active
    }

    /// Every start and stop the slot asked of its factory, oldest first.
    pub closed spec fn calls(&self) -> Seq<WorkerCall> {
        self.calls@
    }

    /// The calls of a stop: one `Stop` when a worker runs, none otherwise.
    pub open spec fn stop_calls(had_active: bool) -> Seq<WorkerCall> {
        if had_active {
            seq![WorkerCall::Stop]
        } else {
            seq![]
        }
    }

    pub fn has_active(&self) -> (r: bool)
        ensures
            r == self.has_active_spec(),
    {
        self.active.is_some()
    }

    /// Stops a running worker first, then starts one; the slot holds the
    /// handle the factory gave, or passes on the factory's error.
    pub fn start<F: DisplayWorkerFactory<Handle = H>>(
        &mut self,
        factory: &mut F,
        port_name: String,
        mode: DisplayWorkerMode,
    ) -> (r: AppResult<()>)
        ensures
            final(self).has_active_spec() == (r is Ok),
            final(self).calls() == old(self).calls() + Self::stop_calls(old(self).has_active_spec()) + seq![
                WorkerCall::Start(port_name@, mode),
            ],
            exists|f: &mut F, started: AppResult<H>|
                #[trigger] call_ensures(F::start, (f, port_name, mode), started) && *final(f) == *final(factory)
                    && match started {
                    Ok(h) => r is Ok && final(self).active() == Some(h),
                    Err(e) => r == Err::<(), AppError>(e) && final(self).active() is None,
                } && match old(self).active() {
                    Some(h) => exists|g: &mut F|
                        #[trigger] call_ensures(F::stop, (g, h), ()) && *g == *old(factory) && *final(g) == *f,
                    None => *f == *old(factory),
                },
    {
        self.stop(factory);
        let ghost mid = *factory;
        self.calls = Ghost(self.calls@.push(WorkerCall::Start(port_name@, mode)));
        let ghost name = port_name;
        let started = factory.start(port_name, mode);
        assert(exists|f: &mut F|
            #[trigger] call_ensures(F::start, (f, name, mode), started) && *f == mid && *final(f) == *factory);
        match started {
            Ok(handle) => {
                self.active = Some(handle);
                Ok(())
            },
            Err(e) => Err(e),
        }
    }

    /// Stops the running worker, if any; stopping again does nothing.
    pub fn stop<F: DisplayWorkerFactory<Handle = H>>(&mut self, factory: &mut F)
        ensures
            match old(self).active() {
                Some(h) => exists|f: &mut F|
                    #[trigger] call_ensures(F::stop, (f, h), ()) && *f == *old(factory) && *final(f) == *final(factory),
                None => *final(factory) == *old(factory),
            },
            !final(self).has_active_spec(),
            final(self).calls() == old(self).calls() + Self::stop_calls(old(self).has_active_spec()),
    {
        let taken = self.active.take();
        if let Some(handle) = taken {
            self.calls = Ghost(self.calls@.push(WorkerCall::Stop));
            let ghost h = handle;
            factory.stop(handle);
            assert(exists|f: &mut F|
                #[trigger] call_ensures(F::stop, (f, h), ()) && *f == *old(factory) && *final(f) == *factory);
        } else {
            assert(self.calls@ + Self::stop_calls(false) =~= self.calls@);
        }
    }

    /// Stops the running worker before something else takes the port.
    pub fn stop_before_exclusive_use<F: DisplayWorkerFactory<Handle = H>, R, U: FnOnce() -> R>(
        &mut self,
        factory: &mut F,
        exclusive_use: U,
    ) -> (r: R)
        requires
            call_requires(exclusive_use, ()),
        ensures
            match old(self).active() {
                Some(h) => exists|f: &mut F|
                    #[trigger] call_ensures(F::stop, (f, h), ()) && *f == *old(factory) && *final(f) == *final(factory),
                None => *final(factory) == *old(factory),
            },
            !final(self).has_active_spec(),
            final(self).calls() == old(self).calls() + Self::stop_calls(old(self).has_active_spec()),
            call_ensures(exclusive_use, (), r),
    {
        self.stop(factory);
        exclusive_use()
    }
}

/// Puts up the status screen of a mode.
pub fn show_display_mode<P: PortIo>(port: &mut P, mode: DisplayWorkerMode, screens: &StatusScreens) -> (r: AppResult<()>)
    ensures
        mode == DisplayWorkerMode::WaitingToFlash ==> exists|p: &mut P|
            #[trigger] call_ensures(show_waiting_to_flash::<P>, (p, screens), r) && *p == *old(port) && *final(p)
                == *final(port),
        mode == DisplayWorkerMode::FlashDone ==> exists|p: &mut P|
            #[trigger] call_ensures(show_flash_done::<P>, (p, screens), r) && *p == *old(port) && *final(p)
                == *final(port),
{
    match mode {
        DisplayWorkerMode::WaitingToFlash => show_waiting_to_flash(port, screens),
        DisplayWorkerMode::FlashDone => show_flash_done(port, screens),
    }
}

} // verus!
