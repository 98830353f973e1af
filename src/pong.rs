//! The game's running and paused states: which transition each window
//! event asks for, and the time scale kept across a pause.
use vstd::prelude::*;

verus! {

/// Keys the states react to.
#[derive(Clone, Copy, Debug, PartialEq, Eq, Structural)]
pub enum Key {
    Escape,
    Space,
    Other,
}

/// Window events as the states see them.
#[derive(Clone, Copy, Debug, PartialEq, Eq, Structural)]
pub enum WindowEvent {
    CloseRequested,
    KeyDown(Key),
    Other,
}

/// A change of state asked for by an event.
#[derive(Clone, Copy, Debug, PartialEq, Eq, Structural)]
pub enum Trans {
    Stay,
    Quit,
    PushPause,
    Pop,
}

/// The running game.
pub struct Pong;

impl Pong {
    /// Closing the window or Escape quits; Space pauses.
    pub fn handle_event(&self, event: WindowEvent) -> (t: Trans)
        ensures
            t == match event {
                WindowEvent::CloseRequested | WindowEvent::KeyDown(Key::Escape) => Trans::Quit,
                WindowEvent::KeyDown(Key::Space) => Trans::PushPause,
                _ => Trans::Stay,
            },
    {
        match event {
            WindowEvent::CloseRequested | WindowEvent::KeyDown(Key::Escape) => Trans::Quit,
            WindowEvent::KeyDown(Key::Space) => Trans::PushPause,
            _ => Trans::Stay,
        }
    }
}

/// The paused game; remembers the time scale to restore on resume.
pub struct Pause {
    pub saved_time_scale: i64,
}

impl Pause {
    pub fn new() -> (p: Pause)
        ensures
            p.saved_time_scale == 0,
    {
        Pause { saved_time_scale: 0 }
    }

    /// Saves the current time scale and returns the one to use while
    /// paused: zero.
    pub fn on_start(&mut self, time_scale: i64) -> (r: i64)
        ensures
            final(self).saved_time_scale == time_scale,
            r == 0,
    {
        self.saved_time_scale = time_scale;
        0
    }

    /// The time scale to restore on resume.
    pub fn on_stop(&self) -> (r: i64)
        ensures
            r == self.saved_time_scale,
    {
        self.saved_time_scale
    }

    /// Closing the window or Escape quits; Space resumes.
    pub fn handle_event(&self, event: WindowEvent) -> (t: Trans)
        ensures
            t == match event {
                WindowEvent::CloseRequested | WindowEvent::KeyDown(Key::Escape) => Trans::Quit,
                WindowEvent::KeyDown(Key::Space) => Trans::Pop,
                _ => Trans::Stay,
            },
    {
        match event {
            WindowEvent::CloseRequested | WindowEvent::KeyDown(Key::Escape) => Trans::Quit,
            WindowEvent::KeyDown(Key::Space) => Trans::Pop,
            _ => Trans::Stay,
        }
    }
}

} // verus!
