use vstd::prelude::*;

verus! {

/// Where the engine's main loop stands.
#[derive(Clone, Copy, Debug, PartialEq, Eq, Structural)]
pub enum EngineState {
    Stopped,
    Running,
    RequestingStop,
}

/// What one tick of the scene hands back to the main loop.
#[derive(Clone, Copy, Debug, PartialEq, Eq, Structural)]
pub enum EngineMessage {
    Nothing,
    StopEngine,
}

/// The run state and clock of the main loop. The loop itself, which waits on
/// the window and measures time, drives it from outside: `start`, then
/// `tick` while `is_running`, then `finish`.
pub struct Engine {
    main_timer_nanos: u64,
    engine_state: EngineState,
}

/// The state that handling `message` leaves behind.
pub open spec fn next_state(state: EngineState, message: EngineMessage) -> EngineState {
    match message {
        EngineMessage::StopEngine => EngineState::RequestingStop,
        EngineMessage::Nothing => state,
    }
}

impl Engine {
    pub closed spec fn state(&self) -> EngineState {
        self.engine_state
    }

    /// Time spent in the main loop since it was last started, in nanoseconds.
    pub closed spec fn timer(&self) -> u64 {
        self.main_timer_nanos
    }

    pub fn new() -> (r: Engine)
        ensures
            r.state() == EngineState::Stopped,
            r.timer() == 0,
    {
        Engine { main_timer_nanos: 0, engine_state: EngineState::Stopped }
    }

    /// Enters the main loop: the clock restarts and the engine runs.
    pub fn start(&mut self)
        ensures
            final(self).state() == EngineState::Running,
            final(self).timer() == 0,
    {
        self.main_timer_nanos = 0;
        self.engine_state = EngineState::Running;
    }

    pub fn is_running(&self) -> (r: bool)
        ensures
            r <==> self.state() == EngineState::Running,
    {
        self.engine_state == EngineState::Running
    }

    pub fn engine_state(&self) -> (r: EngineState)
        ensures
            r == self.state(),
    {
        self.engine_state
    }

    pub fn main_timer_nanos(&self) -> (r: u64)
        ensures
            r == self.timer(),
    {
        self.main_timer_nanos
    }

    pub fn handle_message(&mut self, message: EngineMessage)
        ensures
            final(self).state() == next_state(old(self).state(), message),
            final(self).timer() == old(self).timer(),
    {
        match message {
            EngineMessage::StopEngine => self.engine_state = EngineState::RequestingStop,
            EngineMessage::Nothing => {},
        }
    }

    /// One pass of the main loop: `delta_nanos` more time has gone by and the
    /// scene's update handed back `message`.
    pub fn tick(&mut self, delta_nanos: u64, message: EngineMessage)
        requires
            old(self).timer() + delta_nanos <= u64::MAX,
        ensures
            final(self).timer() == old(self).timer() + delta_nanos,
            final(self).state() == next_state(old(self).state(), message),
    {
        self.main_timer_nanos = self.main_timer_nanos + delta_nanos;
        match message {
            EngineMessage::Nothing => {},
            _ => self.handle_message(message),
        }
    }

    /// Leaves the main loop: the engine is stopped again.
    pub fn finish(&mut self)
        ensures
            final(self).state() == EngineState::Stopped,
            final(self).timer() == old(self).timer(),
    {
        self.engine_state = EngineState::Stopped;
    }
}

} // verus!
