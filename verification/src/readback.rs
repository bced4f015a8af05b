//! Reading results back: the staging buffer is asked to be mapped, the device is
//! polled until the completion signal fires, the mapped range is read, and the
//! buffer is unmapped.

use vstd::prelude::*;

verus! {

/// Where the staging buffer stands.
#[derive(Clone, Copy, Debug, PartialEq, Eq, Structural)]
pub enum ReadbackState {
    /// No map has been asked for.
    Idle,
    /// A map for reading has been asked for; its completion signal is pending and
    /// fires only while the device is polled.
    MapRequested,
    /// The signal reported success: the mapped range can be read.
    Mapped,
    /// The signal reported failure, or was lost: nothing is mapped.
    MapFailed,
    /// The range was read and the buffer unmapped.
    Unmapped,
}

/// What the completion channel yields.
#[derive(Clone, Copy, Debug, PartialEq, Eq, Structural)]
pub enum MapSignal {
    /// The buffer is mapped.
    Ready,
    /// The device reported that it could not map the buffer.
    DeviceError,
    /// The channel closed before anything was sent.
    ChannelClosed,
}

/// What happens to the staging buffer.
#[derive(Clone, Copy, Debug, PartialEq, Eq, Structural)]
pub enum ReadbackEvent {
    /// A map of the whole buffer for reading is asked for.
    MapRequest,
    /// The completion channel yields a signal.
    Signal(MapSignal),
    /// Reading is over and the buffer is unmapped.
    Unmap,
}

/// The state that follows `state` on `event`, if `event` can happen there.
pub open spec fn readback_next(state: ReadbackState, event: ReadbackEvent) -> Option<
    ReadbackState,
> {
    match (state, event) {
        (ReadbackState::Idle, ReadbackEvent::MapRequest) => Some(ReadbackState::MapRequested),
        (ReadbackState::MapRequested, ReadbackEvent::Signal(MapSignal::Ready)) => Some(
            ReadbackState::Mapped,
        ),
        (ReadbackState::MapRequested, ReadbackEvent::Signal(_)) => Some(ReadbackState::MapFailed),
        (ReadbackState::Mapped, ReadbackEvent::Unmap) => Some(ReadbackState::Unmapped),
        _ => None,
    }
}

/// How far a readback has come: every event moves it on.
pub open spec fn readback_rank(state: ReadbackState) -> nat {
    match state {
        ReadbackState::Idle => 0,
        ReadbackState::MapRequested => 1,
        ReadbackState::Mapped => 2,
        ReadbackState::MapFailed => 3,
        ReadbackState::Unmapped => 3,
    }
}

impl ReadbackState {
    /// The state that follows on `event`, or nothing where `event` cannot happen
    /// in this state.
    pub fn advance(self, event: ReadbackEvent) -> (next: Option<ReadbackState>)
        ensures
            next == readback_next(self, event),
    {
        match self {
            ReadbackState::Idle => match event {
                ReadbackEvent::MapRequest => Some(ReadbackState::MapRequested),
                _ => None,
            },
            ReadbackState::MapRequested => match event {
                ReadbackEvent::Signal(MapSignal::Ready) => Some(ReadbackState::Mapped),
                ReadbackEvent::Signal(_) => Some(ReadbackState::MapFailed),
                _ => None,
            },
            ReadbackState::Mapped => match event {
                ReadbackEvent::Unmap => Some(ReadbackState::Unmapped),
                _ => None,
            },
            _ => None,
        }
    }

    /// Whether the mapped range can be read.
    pub fn readable(self) -> (yes: bool)
        ensures
            yes == (self == ReadbackState::Mapped),
    {
        match self {
            ReadbackState::Mapped => true,
            _ => false,
        }
    }

    /// Whether the device has to be polled for the completion signal to fire.
    pub fn needs_poll(self) -> (yes: bool)
        ensures
            yes == (self == ReadbackState::MapRequested),
    {
        match self {
            ReadbackState::MapRequested => true,
            _ => false,
        }
    }

    /// Whether nothing more can happen to the buffer.
    pub fn is_over(self) -> (yes: bool)
        ensures
            yes == (self == ReadbackState::MapFailed || self == ReadbackState::Unmapped),
            yes == forall|event: ReadbackEvent| readback_next(self, event) is None,
    {
        proof {
            if self == ReadbackState::Idle {
                assert(readback_next(self, ReadbackEvent::MapRequest) is Some);
            } else if self == ReadbackState::MapRequested {
                assert(readback_next(self, ReadbackEvent::Signal(MapSignal::Ready)) is Some);
            } else if self == ReadbackState::Mapped {
                assert(readback_next(self, ReadbackEvent::Unmap) is Some);
            }
        }
        match self {
            ReadbackState::MapFailed => true,
            ReadbackState::Unmapped => true,
            _ => false,
        }
    }
}

/// Every event that can happen moves the readback on, so none happens twice: a
/// buffer is mapped at most once and unmapped only after it was mapped.
pub proof fn lemma_readback_moves_on(state: ReadbackState, event: ReadbackEvent)
    requires
        readback_next(state, event) is Some,
    ensures
        readback_rank(readback_next(state, event)->Some_0) > readback_rank(state),
        readback_next(state, event)->Some_0 == ReadbackState::Unmapped ==> state
            == ReadbackState::Mapped,
        readback_next(state, event)->Some_0 == ReadbackState::Mapped ==> state
            == ReadbackState::MapRequested && event == ReadbackEvent::Signal(MapSignal::Ready),
{
}

} // verus!
