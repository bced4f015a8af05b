use gpu_collatz::readback::{MapSignal, ReadbackEvent, ReadbackState};

const STATES: [ReadbackState; 5] = [
    ReadbackState::Idle,
    ReadbackState::MapRequested,
    ReadbackState::Mapped,
    ReadbackState::MapFailed,
    ReadbackState::Unmapped,
];

const EVENTS: [ReadbackEvent; 5] = [
    ReadbackEvent::MapRequest,
    ReadbackEvent::Signal(MapSignal::Ready),
    ReadbackEvent::Signal(MapSignal::DeviceError),
    ReadbackEvent::Signal(MapSignal::ChannelClosed),
    ReadbackEvent::Unmap,
];

#[test]
fn a_successful_readback_goes_through_four_states() {
    let state = ReadbackState::Idle;
    let state = state.advance(ReadbackEvent::MapRequest).unwrap();
    assert_eq!(state, ReadbackState::MapRequested);
    assert!(state.needs_poll());
    let state = state.advance(ReadbackEvent::Signal(MapSignal::Ready)).unwrap();
    assert_eq!(state, ReadbackState::Mapped);
    assert!(state.readable());
    let state = state.advance(ReadbackEvent::Unmap).unwrap();
    assert_eq!(state, ReadbackState::Unmapped);
    assert!(state.is_over());
}

#[test]
fn a_failed_signal_ends_the_readback() {
    for signal in [MapSignal::DeviceError, MapSignal::ChannelClosed] {
        let state = ReadbackState::MapRequested.advance(ReadbackEvent::Signal(signal)).unwrap();
        assert_eq!(state, ReadbackState::MapFailed);
        assert!(state.is_over());
        assert!(!state.readable());
    }
}

#[test]
fn only_five_transitions_exist() {
    let mut taken = Vec::new();
    for state in STATES {
        for event in EVENTS {
            if let Some(next) = state.advance(event) {
                taken.push((state, event, next));
            }
        }
    }
    assert_eq!(
        taken,
        vec![
            (ReadbackState::Idle, ReadbackEvent::MapRequest, ReadbackState::MapRequested),
            (
                ReadbackState::MapRequested,
                ReadbackEvent::Signal(MapSignal::Ready),
                ReadbackState::Mapped
            ),
            (
                ReadbackState::MapRequested,
                ReadbackEvent::Signal(MapSignal::DeviceError),
                ReadbackState::MapFailed
            ),
            (
                ReadbackState::MapRequested,
                ReadbackEvent::Signal(MapSignal::ChannelClosed),
                ReadbackState::MapFailed
            ),
            (ReadbackState::Mapped, ReadbackEvent::Unmap, ReadbackState::Unmapped),
        ]
    );
}

#[test]
fn only_a_mapped_buffer_is_readable() {
    for state in STATES {
        assert_eq!(state.readable(), state == ReadbackState::Mapped);
        assert_eq!(state.needs_poll(), state == ReadbackState::MapRequested);
        assert_eq!(
            state.is_over(),
            state == ReadbackState::MapFailed || state == ReadbackState::Unmapped
        );
    }
}
