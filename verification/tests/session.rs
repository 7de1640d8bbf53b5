use communicator::input::{InputBuffer, InputState};
use communicator::interface::Oled128x128;
use communicator::keys::Keys;
use communicator::session::{
    copy, recover, Command, Error, LinkInfo, RadioFault, Reply, State, Transition,
};

fn typed(text: &[u32]) -> InputBuffer<128> {
    let mut buffer = InputBuffer::<128>::new();
    for key in text {
        assert_eq!(buffer.process_input(Keys::from(*key)), InputState::Updated);
        assert_eq!(buffer.process_input(Keys::none()), InputState::Running(Keys::none()));
    }
    buffer
}

fn hello() -> InputBuffer<128> {
    let s = Keys::ShiftL;
    typed(&[s | Keys::H, s | Keys::E, s | Keys::L, s | Keys::L, s | Keys::O])
}

fn to(next: State) -> Result<Transition, Error> {
    Ok(Transition { next, echo: false })
}

#[test]
fn each_state_asks_for_its_operation() {
    assert_eq!(State::Init.command(false), Command::Nothing);
    assert_eq!(State::Init.command(true), Command::Nothing);
    assert_eq!(State::PrepareIdle.command(false), Command::StartReceive);
    assert_eq!(State::Idle.command(false), Command::CheckReceive);
    assert_eq!(State::Idle.command(true), Command::StartTransmit);
    assert_eq!(State::Sending.command(true), Command::CheckTransmit);
    assert_eq!(State::SendingDone.command(false), Command::StartReceive);
    assert_eq!(State::Received.command(false), Command::GetReceived);
    assert_eq!(State::Reset.command(false), Command::Nothing);
    assert_eq!(State::Panic.command(true), Command::Nothing);
}

#[test]
fn only_reset_and_panic_are_fatal() {
    assert!(State::Reset.fatal());
    assert!(State::Panic.fatal());
    for state in [
        State::Init,
        State::PrepareIdle,
        State::Idle,
        State::Sending,
        State::SendingDone,
        State::Received,
    ] {
        assert!(!state.fatal());
    }
}

#[test]
fn session_starts_up_into_idle() {
    let mut sending = false;
    let mut buffer = InputBuffer::<128>::new();
    let mut disp = Oled128x128::new();
    let r = State::Init.step(Ok(Reply::Done), &mut sending, &mut buffer, &mut disp, false);
    assert_eq!(r, to(State::PrepareIdle));
    let r = State::PrepareIdle.step(Ok(Reply::Done), &mut sending, &mut buffer, &mut disp, false);
    assert_eq!(r, to(State::Idle));
}

#[test]
fn pending_hello_is_sent_and_receive_is_armed_again() {
    let mut sending = true;
    let mut buffer = hello();
    assert_eq!(buffer.get_data(), b"HELLO");
    let mut disp = Oled128x128::new();

    assert_eq!(State::Idle.command(sending), Command::StartTransmit);
    let r = State::Idle.step(Ok(Reply::Done), &mut sending, &mut buffer, &mut disp, false);
    assert_eq!(r, to(State::Sending));
    assert!(!sending);
    assert_eq!(buffer.get_data(), b"");
    assert_eq!(buffer.get_cursor(), 0);

    assert_eq!(State::Sending.command(sending), Command::CheckTransmit);
    let r = State::Sending.step(Ok(Reply::Polled(true)), &mut sending, &mut buffer, &mut disp, false);
    assert_eq!(r, to(State::SendingDone));

    assert_eq!(State::SendingDone.command(sending), Command::StartReceive);
    let r = State::SendingDone.step(Ok(Reply::Done), &mut sending, &mut buffer, &mut disp, false);
    assert_eq!(r, to(State::Idle));
    assert!(!disp.draw().body);
}

#[test]
fn failed_start_of_a_transmit_keeps_the_pending_text() {
    let mut sending = true;
    let mut buffer = hello();
    let mut disp = Oled128x128::new();
    let r = State::Idle.step(Err(RadioFault::Aborted), &mut sending, &mut buffer, &mut disp, false);
    assert_eq!(r, Err(Error::Radio(RadioFault::Aborted)));
    assert!(sending);
    assert_eq!(buffer.get_data(), b"HELLO");
    assert_eq!(buffer.get_cursor(), 5);
}

#[test]
fn not_yet_keeps_idle_and_sending_where_they_are() {
    let mut sending = false;
    let mut buffer = hello();
    let mut disp = Oled128x128::new();
    for _ in 0..100 {
        let r = State::Idle.step(Ok(Reply::Polled(false)), &mut sending, &mut buffer, &mut disp, false);
        assert_eq!(r, to(State::Idle));
        let r = State::Sending.step(Ok(Reply::Polled(false)), &mut sending, &mut buffer, &mut disp, true);
        assert_eq!(r, to(State::Sending));
    }
    assert!(!sending);
    assert_eq!(buffer.get_data(), b"HELLO");
    assert!(!disp.draw().body);
}

#[test]
fn received_frame_is_logged_with_its_link_quality() {
    let mut sending = false;
    let mut buffer = InputBuffer::<128>::new();
    let mut disp = Oled128x128::new();

    let r = State::Idle.step(Ok(Reply::Polled(true)), &mut sending, &mut buffer, &mut disp, false);
    assert_eq!(r, to(State::Received));

    assert_eq!(State::Received.command(sending), Command::GetReceived);
    let info = LinkInfo { rssi: -87, snr: Some(9) };
    let frame = b"hello";
    let r = State::Received.step(
        Ok(Reply::Frame(frame, info)),
        &mut sending,
        &mut buffer,
        &mut disp,
        false,
    );
    assert_eq!(r, to(State::PrepareIdle));
    let line = disp.line(7);
    assert_eq!(line.body(), "hello");
    assert_eq!(line.body().len(), 5);
    assert_eq!(line.up(), "9");
    assert_eq!(line.down(), "-87");
    assert!(disp.line(6).is_blank());
    assert!(disp.draw().body);
}

#[test]
fn received_frame_without_noise_ratio_has_no_upper_prefix() {
    let mut sending = false;
    let mut buffer = InputBuffer::<128>::new();
    let mut disp = Oled128x128::new();
    let info = LinkInfo { rssi: 12, snr: None };
    let r = State::Received.step(
        Ok(Reply::Frame(b"x", info)),
        &mut sending,
        &mut buffer,
        &mut disp,
        false,
    );
    assert_eq!(r, to(State::PrepareIdle));
    assert_eq!(disp.line(7).up(), "");
    assert_eq!(disp.line(7).down(), "12");
    assert_eq!(disp.line(7).body(), "x");
}

#[test]
fn echo_sends_the_frame_back() {
    let mut sending = false;
    let mut buffer = hello();
    let mut disp = Oled128x128::new();
    let info = LinkInfo { rssi: -1, snr: Some(-2) };
    let r = State::Received.step(
        Ok(Reply::Frame(b"ping", info)),
        &mut sending,
        &mut buffer,
        &mut disp,
        true,
    );
    assert_eq!(r, Ok(Transition { next: State::Sending, echo: true }));
    assert_eq!(disp.line(7).body(), "ping");
    assert_eq!(buffer.get_data(), b"HELLO");
    let r = State::Idle.step(Ok(Reply::Polled(true)), &mut sending, &mut buffer, &mut disp, true);
    assert_eq!(r, to(State::Received));
}

#[test]
fn fault_is_handed_on_from_every_state() {
    let faults = [
        RadioFault::Aborted,
        RadioFault::Crc,
        RadioFault::BufferSize,
        RadioFault::InvalidResponse,
        RadioFault::Timeout,
        RadioFault::InvalidDevice,
        RadioFault::Hal,
        RadioFault::InvalidConfiguration,
    ];
    let states = [
        State::PrepareIdle,
        State::Idle,
        State::Sending,
        State::SendingDone,
        State::Received,
    ];
    for state in states {
        for fault in faults {
            let mut sending = false;
            let mut buffer = InputBuffer::<128>::new();
            let mut disp = Oled128x128::new();
            let r = state.step(Err(fault), &mut sending, &mut buffer, &mut disp, false);
            assert_eq!(r, Err(Error::Radio(fault)));
            assert!(!disp.draw().body);
        }
    }
}

#[test]
fn timeout_leads_to_reset() {
    let mut sending = false;
    let mut buffer = InputBuffer::<128>::new();
    let mut disp = Oled128x128::new();
    let r = State::Idle.step(Err(RadioFault::Timeout), &mut sending, &mut buffer, &mut disp, false);
    let error = r.unwrap_err();
    assert_eq!(error, Error::Radio(RadioFault::Timeout));
    assert_eq!(recover(error), State::Reset);
}

#[test]
fn each_fault_has_its_recovery() {
    assert_eq!(recover(Error::Radio(RadioFault::Aborted)), State::PrepareIdle);
    assert_eq!(recover(Error::Radio(RadioFault::Crc)), State::PrepareIdle);
    assert_eq!(recover(Error::Radio(RadioFault::BufferSize)), State::PrepareIdle);
    assert_eq!(recover(Error::Radio(RadioFault::InvalidResponse)), State::Reset);
    assert_eq!(recover(Error::Radio(RadioFault::Timeout)), State::Reset);
    assert_eq!(recover(Error::Radio(RadioFault::InvalidDevice)), State::Reset);
    assert_eq!(recover(Error::Radio(RadioFault::Hal)), State::Panic);
    assert_eq!(recover(Error::Radio(RadioFault::InvalidConfiguration)), State::Panic);
}

#[test]
fn error_wraps_the_fault() {
    assert_eq!(Error::from(RadioFault::Crc), Error::Radio(RadioFault::Crc));
}

#[test]
fn copy_fills_the_target_from_the_cursor() {
    let mut target = [0u8; 8];
    let mut cursor = 2;
    copy(b"abc", &mut target, &mut cursor);
    assert_eq!(target, [0, 0, b'a', b'b', b'c', 0, 0, 0]);
    assert_eq!(cursor, 5);
    copy(b"de", &mut target, &mut cursor);
    assert_eq!(target, [0, 0, b'a', b'b', b'c', b'd', b'e', 0]);
    assert_eq!(cursor, 7);
}

#[test]
fn copy_stops_where_the_target_ends() {
    let mut target = [9u8; 4];
    let mut cursor = 2;
    copy(b"abcdef", &mut target, &mut cursor);
    assert_eq!(target, [9, 9, b'a', b'b']);
    assert_eq!(cursor, 4);
    copy(b"xyz", &mut target, &mut cursor);
    assert_eq!(target, [9, 9, b'a', b'b']);
    assert_eq!(cursor, 4);
}

#[test]
fn copy_leaves_a_cursor_past_the_end_alone() {
    let mut target = [1u8; 3];
    let mut cursor = 7;
    copy(b"abc", &mut target, &mut cursor);
    assert_eq!(target, [1, 1, 1]);
    assert_eq!(cursor, 7);
    let mut empty: [u8; 0] = [];
    let mut at = 0;
    copy(b"abc", &mut empty, &mut at);
    assert_eq!(at, 0);
    let mut start = 0;
    copy(b"", &mut target, &mut start);
    assert_eq!(start, 0);
    assert_eq!(target, [1, 1, 1]);
}
