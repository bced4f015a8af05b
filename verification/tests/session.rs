use gpu_collatz::error::{Failure, MapCause};
use gpu_collatz::layout::{result_words, ComputeResult};
use gpu_collatz::plan::{plan_buffer, plan_dispatch, BufferRole};
use gpu_collatz::readback::{MapSignal, ReadbackState};
use gpu_collatz::reference::collatz;
use gpu_collatz::session::{Action, Backend, Event, Power, Session, Stage};

/// What a device that runs the compute program would leave in the staging
/// buffer for the candidates in `contents`.
fn device_output(contents: &[u8], padding: u8) -> Vec<u8> {
    let mut out = Vec::new();
    for record in contents.chunks(16) {
        let mut raw = [0u8; 16];
        raw.copy_from_slice(record);
        let (steps, max) = collatz(u128::from_le_bytes(raw));
        out.extend_from_slice(&(steps as u32).to_le_bytes());
        out.extend_from_slice(&max.to_le_bytes());
        out.extend_from_slice(&[padding; 12]);
    }
    out
}

/// Drives an invocation against a device that never fails.
fn serve(backend: Backend, start: &str, count: u32, padding: u8) -> (Vec<Action>, Session) {
    let mut session = Session::new(backend, start.to_string(), count);
    let mut actions = Vec::new();
    let mut event = Event::Begin;
    let mut contents = Vec::new();
    loop {
        let (next, action) = session.step(event);
        session = next;
        let action = action.expect("the event was waited for");
        let answer = match &action {
            Action::RequestAdapter { .. } => Some(Event::AdapterFound),
            Action::RequestDevice => Some(Event::DeviceReady),
            Action::CreateBuffers { contents: bytes, .. } => {
                contents = bytes.to_vec();
                Some(Event::BuffersReady)
            }
            Action::BuildPipeline { .. } => Some(Event::PipelineReady),
            Action::Submit(_) => Some(Event::Submitted),
            Action::MapStaging { .. } => Some(Event::MapRequested),
            Action::PollDevice => Some(Event::Polled),
            Action::AwaitSignal => Some(Event::Signal(MapSignal::Ready)),
            Action::ReadRange => Some(Event::RangeRead(device_output(&contents, padding))),
            Action::Unmap => Some(Event::Unmapped),
            Action::Finish(_) | Action::Fail(_) => None,
        };
        actions.push(action);
        event = match answer {
            Some(event) => event,
            None => return (actions, session),
        };
    }
}

fn all_events() -> Vec<Event> {
    vec![
        Event::Begin,
        Event::AdapterFound,
        Event::AdapterMissing,
        Event::DeviceReady,
        Event::DeviceFailed,
        Event::BuffersReady,
        Event::PipelineReady,
        Event::ShaderRejected,
        Event::PipelineRejected,
        Event::Submitted,
        Event::MapRequested,
        Event::Polled,
        Event::Signal(MapSignal::Ready),
        Event::Signal(MapSignal::DeviceError),
        Event::Signal(MapSignal::ChannelClosed),
        Event::RangeRead(vec![0; 160]),
        Event::Unmapped,
    ]
}

/// Steps a new invocation through `events`, each of which must be waited for.
fn after(start: &str, count: u32, events: Vec<Event>) -> (Session, Option<Action>) {
    let mut session = Session::new(Backend::Any, start.to_string(), count);
    let mut last = None;
    for event in events {
        let (next, action) = session.step(event);
        session = next;
        assert!(action.is_some());
        last = action;
    }
    (session, last)
}

#[test]
fn five_candidates_from_one_end_to_end() {
    let (actions, session) = serve(Backend::Browser, "1", 5, 0xee);
    assert_eq!(session.stage(), Stage::Finished);
    assert_eq!(session.readback(), ReadbackState::Unmapped);
    assert_eq!(session.failure(), None);
    let expected = vec![
        ComputeResult { input: 1, steps: 0, max_value: 1 },
        ComputeResult { input: 2, steps: 1, max_value: 2 },
        ComputeResult { input: 3, steps: 7, max_value: 16 },
        ComputeResult { input: 4, steps: 2, max_value: 4 },
        ComputeResult { input: 5, steps: 5, max_value: 16 },
    ];
    assert_eq!(actions.last(), Some(&Action::Finish(expected.to_vec())));
    assert_eq!(
        result_words(&expected),
        vec![0, 1, 0, 0, 0, 1, 2, 0, 0, 0, 7, 16, 0, 0, 0, 2, 4, 0, 0, 0, 5, 16, 0, 0, 0]
    );
}

#[test]
fn the_requests_come_in_a_fixed_order() {
    let (actions, _) = serve(Backend::Browser, "1", 5, 0);
    let mut contents = Vec::new();
    for n in 1u128..=5 {
        contents.extend_from_slice(&n.to_le_bytes());
    }
    assert_eq!(actions.len(), 11);
    assert_eq!(
        actions[..10],
        [
            Action::RequestAdapter { backend: Backend::Browser, power: Power::High },
            Action::RequestDevice,
            Action::CreateBuffers {
                contents,
                input: plan_buffer(BufferRole::Input, 5),
                output: plan_buffer(BufferRole::Output, 5),
                staging: plan_buffer(BufferRole::Staging, 5),
            },
            Action::BuildPipeline { bind_group: 0, input_binding: 0, output_binding: 1 },
            Action::Submit(plan_dispatch(5)),
            Action::MapStaging { bytes: 160 },
            Action::PollDevice,
            Action::AwaitSignal,
            Action::ReadRange,
            Action::Unmap,
        ]
    );
    assert!(matches!(actions[10], Action::Finish(_)));
}

#[test]
fn decoded_results_match_the_host_reference() {
    let (actions, _) = serve(Backend::Any, "1", 30, 0x11);
    let results = match actions.last() {
        Some(Action::Finish(results)) => results.to_vec(),
        other => panic!("no results: {:?}", other),
    };
    assert_eq!(results.len(), 30);
    for (i, result) in results.iter().enumerate() {
        assert_eq!(result.input, 1 + i as u128);
        let (steps, max) = collatz(result.input);
        assert_eq!(result.steps as u128, steps);
        assert_eq!(result.max_value, max);
    }
    assert_eq!(results[5], ComputeResult { input: 6, steps: 8, max_value: 16 });
    assert_eq!(results[26], ComputeResult { input: 27, steps: 111, max_value: 9232 });
}

#[test]
fn the_same_range_twice_gives_the_same_results() {
    let (first, _) = serve(Backend::Any, "27", 12, 0);
    let (second, _) = serve(Backend::Any, "27", 12, 0);
    assert_eq!(first, second);
    let (browser, _) = serve(Backend::Browser, "27", 12, 0xff);
    assert_eq!(first.last(), browser.last());
}

#[test]
fn a_start_that_is_no_number_fails_before_anything_is_allocated() {
    let (actions, session) = serve(Backend::Browser, "twenty-seven", 5, 0);
    assert_eq!(
        actions,
        vec![
            Action::RequestAdapter { backend: Backend::Browser, power: Power::High },
            Action::RequestDevice,
            Action::Fail(Failure::ParseError),
        ]
    );
    assert_eq!(session.stage(), Stage::Failed);
    assert_eq!(session.failure(), Some(Failure::ParseError));
    assert_eq!(session.readback(), ReadbackState::Idle);
}

#[test]
fn an_empty_start_fails_to_parse() {
    let (actions, _) = serve(Backend::Any, "", 5, 0);
    assert_eq!(actions.last(), Some(&Action::Fail(Failure::ParseError)));
    assert!(!actions.iter().any(|a| matches!(a, Action::CreateBuffers { .. })));
}

#[test]
fn a_range_past_128_bits_fails_before_anything_is_allocated() {
    let (actions, session) = serve(Backend::Any, "340282366920938463463374607431768211455", 2, 0);
    assert_eq!(actions.len(), 3);
    assert_eq!(actions[2], Action::Fail(Failure::RangeOverflow));
    assert_eq!(session.failure(), Some(Failure::RangeOverflow));
}

#[test]
fn a_missing_adapter_ends_the_invocation() {
    let (session, action) = after("1", 5, vec![Event::Begin, Event::AdapterMissing]);
    assert_eq!(action, Some(Action::Fail(Failure::AdapterUnavailable)));
    assert_eq!(session.stage(), Stage::Failed);
    assert_eq!(session.failure(), Some(Failure::AdapterUnavailable));
}

#[test]
fn a_missing_adapter_is_reported_even_for_a_bad_start() {
    let (_, action) = after("x", 5, vec![Event::Begin, Event::AdapterMissing]);
    assert_eq!(action, Some(Action::Fail(Failure::AdapterUnavailable)));
}

#[test]
fn a_failed_device_request_ends_the_invocation() {
    let (session, action) =
        after("1", 5, vec![Event::Begin, Event::AdapterFound, Event::DeviceFailed]);
    assert_eq!(action, Some(Action::Fail(Failure::DeviceRequestFailed)));
    assert_eq!(session.failure(), Some(Failure::DeviceRequestFailed));
}

/// The first `steps` answers of a device that never fails, for five candidates.
fn served_path(steps: usize) -> Vec<Event> {
    let mut events = vec![
        Event::Begin,
        Event::AdapterFound,
        Event::DeviceReady,
        Event::BuffersReady,
        Event::PipelineReady,
        Event::Submitted,
        Event::MapRequested,
        Event::Polled,
        Event::Signal(MapSignal::Ready),
        Event::RangeRead(vec![0; 160]),
        Event::Unmapped,
    ];
    events.truncate(steps);
    events
}

fn up_to_pipeline() -> Vec<Event> {
    served_path(4)
}

fn up_to_signal() -> Vec<Event> {
    served_path(8)
}

#[test]
fn a_rejected_shader_ends_the_invocation() {
    let mut events = up_to_pipeline();
    events.push(Event::ShaderRejected);
    let (session, action) = after("1", 5, events);
    assert_eq!(action, Some(Action::Fail(Failure::ShaderCompilationFailed)));
    assert_eq!(session.readback(), ReadbackState::Idle);
}

#[test]
fn a_rejected_pipeline_ends_the_invocation() {
    let mut events = up_to_pipeline();
    events.push(Event::PipelineRejected);
    let (session, action) = after("1", 5, events);
    assert_eq!(action, Some(Action::Fail(Failure::PipelineCreationFailed)));
    assert_eq!(session.stage(), Stage::Failed);
}

#[test]
fn a_device_error_on_mapping_ends_the_invocation() {
    let mut events = up_to_signal();
    events.push(Event::Signal(MapSignal::DeviceError));
    let (session, action) = after("1", 5, events);
    assert_eq!(action, Some(Action::Fail(Failure::MapRequestFailed(MapCause::Device))));
    assert_eq!(session.readback(), ReadbackState::MapFailed);
    assert_eq!(session.stage(), Stage::Failed);
}

#[test]
fn a_closed_channel_ends_the_invocation() {
    let mut events = up_to_signal();
    events.push(Event::Signal(MapSignal::ChannelClosed));
    let (session, action) = after("1", 5, events);
    assert_eq!(action, Some(Action::Fail(Failure::MapRequestFailed(MapCause::Channel))));
    assert_eq!(session.readback(), ReadbackState::MapFailed);
}

#[test]
fn the_staging_buffer_follows_the_invocation() {
    let mut session = Session::new(Backend::Any, "1".to_string(), 5);
    let mut seen = vec![(session.stage(), session.readback())];
    for event in served_path(11) {
        let (next, action) = session.step(event);
        assert!(action.is_some());
        session = next;
        seen.push((session.stage(), session.readback()));
    }
    assert_eq!(
        seen,
        vec![
            (Stage::Created, ReadbackState::Idle),
            (Stage::Adapter, ReadbackState::Idle),
            (Stage::Device, ReadbackState::Idle),
            (Stage::Buffers, ReadbackState::Idle),
            (Stage::Pipeline, ReadbackState::Idle),
            (Stage::Submission, ReadbackState::Idle),
            (Stage::MapRequest, ReadbackState::MapRequested),
            (Stage::Poll, ReadbackState::MapRequested),
            (Stage::Signal, ReadbackState::MapRequested),
            (Stage::Range, ReadbackState::Mapped),
            (Stage::Unmap, ReadbackState::Mapped),
            (Stage::Finished, ReadbackState::Unmapped),
        ]
    );
}

#[test]
fn a_mapped_range_of_the_wrong_length_is_not_taken() {
    for length in [0usize, 32, 159, 161, 320] {
        let (session, _) = after("1", 5, served_path(9));
        let (session, action) = session.step(Event::RangeRead(vec![0; length]));
        assert_eq!(action, None);
        assert_eq!(session.stage(), Stage::Range);
        assert_eq!(session.readback(), ReadbackState::Mapped);
    }
}

#[test]
fn each_stage_takes_only_the_events_it_waits_for() {
    let mut taken = Vec::new();
    for done in 0..=11 {
        let mut count = 0;
        for event in all_events() {
            let (session, _) = after("1", 5, served_path(done));
            let stage = session.stage();
            let (session, action) = session.step(event);
            if action.is_some() {
                count += 1;
            } else {
                assert_eq!(session.stage(), stage);
            }
        }
        taken.push(count);
    }
    assert_eq!(taken, vec![1, 2, 2, 1, 3, 1, 1, 1, 3, 1, 1, 0]);
}

#[test]
fn nothing_happens_after_the_end() {
    let (_, finished) = serve(Backend::Any, "1", 5, 0);
    let (_, failed) = serve(Backend::Any, "no", 5, 0);
    assert_eq!(finished.stage(), Stage::Finished);
    assert_eq!(failed.stage(), Stage::Failed);
    let mut session = finished;
    for event in all_events() {
        let (next, action) = session.step(event);
        assert_eq!(action, None);
        assert_eq!(next.stage(), Stage::Finished);
        session = next;
    }
    let mut session = failed;
    for event in all_events() {
        let (next, action) = session.step(event);
        assert_eq!(action, None);
        assert_eq!(next.failure(), Some(Failure::ParseError));
        session = next;
    }
}

#[test]
fn the_batch_of_the_browser_entry_is_planned_in_full() {
    let (session, action) = after(
        "1267650600228229401496703205376",
        50_000,
        vec![Event::Begin, Event::AdapterFound, Event::DeviceReady],
    );
    assert_eq!(session.count(), 50_000);
    match action {
        Some(Action::CreateBuffers { contents, input, output, staging }) => {
            assert_eq!(contents.len(), 800_000);
            assert_eq!(contents[..16], (1u128 << 100).to_le_bytes());
            assert_eq!(contents[799_984..], ((1u128 << 100) + 49_999).to_le_bytes());
            assert_eq!(input.size, 800_000);
            assert_eq!(output.size, 1_600_000);
            assert_eq!(staging.size, 1_600_000);
        }
        other => panic!("no buffers: {:?}", other),
    }
}

#[test]
fn the_browser_invocation_is_the_fixed_batch_on_the_browser_backend() {
    let session = Session::for_browser("27".to_string());
    assert_eq!(session.count(), 50_000);
    let (_, action) = session.step(Event::Begin);
    assert_eq!(
        action,
        Some(Action::RequestAdapter { backend: Backend::Browser, power: Power::High })
    );
}

#[test]
fn the_host_invocation_starts_at_two_to_the_hundredth() {
    let session = Session::for_host();
    assert_eq!(session.count(), 1_000_000);
    let (session, action) = session.step(Event::Begin);
    assert_eq!(action, Some(Action::RequestAdapter { backend: Backend::Any, power: Power::High }));
    let (session, _) = session.step(Event::AdapterFound);
    let (_, action) = session.step(Event::DeviceReady);
    match action {
        Some(Action::CreateBuffers { contents, input, output, staging }) => {
            assert_eq!(contents.len(), 16_000_000);
            assert_eq!(contents[..16], (1u128 << 100).to_le_bytes());
            assert_eq!(contents[15_999_984..], ((1u128 << 100) + 999_999).to_le_bytes());
            assert_eq!(input.size, 16_000_000);
            assert_eq!(output.size, 32_000_000);
            assert_eq!(staging.size, 32_000_000);
        }
        other => panic!("no buffers: {:?}", other),
    }
}
