use ssh_agent_bridge::codec::SshAgentCodec;
use ssh_agent_bridge::forward::{Direction, ForwardState, RelayOutcome};
use tokio_util::bytes::BytesMut;

/// Relays one message from `src` to `dst`, as one turn of the loop does.
fn relay(src: &mut BytesMut, dst: &mut BytesMut) -> RelayOutcome {
    match SshAgentCodec.decode(src) {
        Some(m) => {
            SshAgentCodec.encode(m, dst);
            RelayOutcome::Relayed
        }
        None => RelayOutcome::Closed,
    }
}

fn framed(payload: &[u8]) -> Vec<u8> {
    let mut v = (payload.len() as u32).to_be_bytes().to_vec();
    v.extend_from_slice(payload);
    v
}

#[test]
fn echoed_messages_reach_output_in_order() {
    let mut input_bytes = framed(b"one");
    input_bytes.extend(framed(b""));
    input_bytes.extend(framed(b"three"));
    let mut input = BytesMut::from(&input_bytes[..]);
    let mut endpoint = BytesMut::new();
    let mut output = BytesMut::new();
    let mut state = ForwardState::start();
    let mut steps = 0;
    while let ForwardState::Running { next } = state {
        let outcome = match next {
            Direction::InputToEndpoint => relay(&mut input, &mut endpoint),
            Direction::EndpointToOutput => relay(&mut endpoint, &mut output),
        };
        state = state.after(outcome);
        steps += 1;
    }
    assert_eq!(state, ForwardState::Terminated);
    assert_eq!(steps, 7);
    assert_eq!(&output[..], &input_bytes[..]);
}

#[test]
fn directions_alternate_strictly() {
    let mut state = ForwardState::start();
    assert_eq!(state, ForwardState::Running { next: Direction::InputToEndpoint });
    state = state.after(RelayOutcome::Relayed);
    assert_eq!(state, ForwardState::Running { next: Direction::EndpointToOutput });
    state = state.after(RelayOutcome::Relayed);
    assert_eq!(state, ForwardState::Running { next: Direction::InputToEndpoint });
}

#[test]
fn endpoint_closing_first_ends_loop_cleanly() {
    let mut state = ForwardState::start();
    state = state.after(RelayOutcome::Relayed);
    assert_eq!(state, ForwardState::Running { next: Direction::EndpointToOutput });
    state = state.after(RelayOutcome::Closed);
    assert_eq!(state, ForwardState::Terminated);
    assert_eq!(state.after(RelayOutcome::Relayed), ForwardState::Terminated);
}

#[test]
fn input_closing_ends_loop() {
    let state = ForwardState::start().after(RelayOutcome::Closed);
    assert_eq!(state, ForwardState::Terminated);
}

#[test]
fn other_direction_swaps() {
    assert_eq!(Direction::InputToEndpoint.other(), Direction::EndpointToOutput);
    assert_eq!(Direction::EndpointToOutput.other(), Direction::InputToEndpoint);
}
