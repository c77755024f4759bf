//! Window-level input events and their dispatch status.

use vstd::prelude::*;

verus! {

/// Whether a dispatched event was consumed by some node.
#[derive(Clone, Copy, Debug, PartialEq, Eq, Structural)]
pub enum EventStatus {
    Ignored,
    Processed,
}

impl EventStatus {
    /// Folds another dispatch outcome into this one: processed wins.
    pub fn update_with(&mut self, other: EventStatus)
        ensures
            *final(self) == (if *old(self) == EventStatus::Processed || other
                == EventStatus::Processed {
                EventStatus::Processed
            } else {
                EventStatus::Ignored
            }),
    {
        *self = if *self == EventStatus::Processed || other == EventStatus::Processed {
            EventStatus::Processed
        } else {
            EventStatus::Ignored
        };
    }
}

impl Default for EventStatus {
    /// Until some node consumes an event, it counts as ignored.
    fn default() -> (r: EventStatus)
        ensures
            r == EventStatus::Ignored,
    {
        EventStatus::Ignored
    }
}

/// A scroll step, in whole lines or whole pixels.
#[derive(Clone, Copy, Debug, PartialEq, Eq, Structural)]
pub enum MouseScrollDelta {
    Lines { x: i64, y: i64 },
    Pixels { x: i64, y: i64 },
}

/// Where in a touch gesture a wheel event falls.
#[derive(Clone, Copy, Debug, PartialEq, Eq, Structural)]
pub enum TouchPhase {
    Started,
    Moved,
    Ended,
    Cancelled,
}

/// The family of operating system the window runs on, as the platform
/// layer reports it.
#[derive(Clone, Copy, Debug, PartialEq, Eq, Structural)]
pub enum OperatingSystem {
    MacOs,
    Ios,
    Windows,
    Linux,
    Other,
}

/// The keyboard modifiers held down at some instant.
#[derive(Clone, Copy, Debug, PartialEq, Eq, Structural)]
pub struct Modifiers {
    pub control: bool,
    pub alt: bool,
    pub os: bool,
    pub shift: bool,
}

impl Modifiers {
    /// Whether the platform's primary modifier is held: the OS key on
    /// Apple systems, the control key everywhere else.
    pub fn primary_modifier(&self, operating_system: OperatingSystem) -> (r: bool)
        ensures
            r == (match operating_system {
                OperatingSystem::MacOs | OperatingSystem::Ios => self.os,
                _ => self.control,
            }),
    {
        match operating_system {
            OperatingSystem::MacOs | OperatingSystem::Ios => self.os,
            _ => self.control,
        }
    }
}

} // verus!
