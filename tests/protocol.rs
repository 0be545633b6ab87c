use tourbox::decode::{decode, u16_from_be, InputCode};
use tourbox::handshake::{frame, Handshake, HandshakeStep, WriteEvent, FRAME_COUNT};
use tourbox::listen::{ListenEvent, ListenStep, Listener, READ_CAPACITY};
use tourbox::resolve::{
    find_first, GattLevel, Handles, Lookup, ResolveEvent, ResolveStep, Resolver, CONFIG_CHAR_UUID,
    NOTIFY_CHAR_UUID, NOTIFY_DESC_UUID, SERVICE_UUID, WRITE_CHAR_UUID, WRITE_DESC_UUID,
};
use tourbox::shutdown::ShutdownError;

#[test]
fn one_byte_payload_decodes_to_its_byte() {
    assert_eq!(decode(&[0x2a]), Some(InputCode::Byte(0x2a)));
    assert_eq!(decode(&[0x00]), Some(InputCode::Byte(0x00)));
    assert_eq!(decode(&[0xff]), Some(InputCode::Byte(0xff)));
    assert_eq!(decode(&[0x2a]), decode(&[0x2a]));
}

#[test]
fn two_byte_payload_decodes_big_endian() {
    assert_eq!(decode(&[0x02, 0x10]), Some(InputCode::Word(0x0210)));
    assert_eq!(decode(&[0x10, 0x02]), Some(InputCode::Word(0x1002)));
    assert_eq!(decode(&[0xff, 0xff]), Some(InputCode::Word(0xffff)));
    assert_eq!(u16_from_be(0x02, 0x10), 0x0210);
    assert_eq!(InputCode::Word(0x0210).value(), 0x0210);
    assert_eq!(InputCode::Byte(7).value(), 7);
}

#[test]
fn other_lengths_do_not_decode() {
    assert_eq!(decode(&[]), None);
    assert_eq!(decode(&[1, 2, 3]), None);
    assert_eq!(decode(&vec![0u8; READ_CAPACITY]), None);
}

#[test]
fn loop_drops_bad_lengths_and_goes_on() {
    let mut l = Listener::new();
    for len in [0usize, 3, 4096] {
        let step = l.step(&ListenEvent::Payload(vec![0x55; len]));
        assert_eq!(step, ListenStep::DiscardPayload(len));
        assert!(!l.is_over());
    }
    assert_eq!(l.step(&ListenEvent::Payload(vec![0x02, 0x10])), ListenStep::Emit(InputCode::Word(0x0210)));
}

#[test]
fn loop_discards_stale_data() {
    let mut l = Listener::new();
    assert_eq!(l.step(&ListenEvent::Stale(5)), ListenStep::DiscardStale(5));
    assert!(!l.is_over());
}

#[test]
fn shutdown_ends_loop_and_keeps_delivered_codes() {
    let mut l = Listener::new();
    let mut sink: Vec<InputCode> = Vec::new();
    let events = vec![
        ListenEvent::Payload(vec![0x01]),
        ListenEvent::Payload(vec![0x02, 0x10]),
        ListenEvent::Shutdown,
    ];
    let mut last = None;
    for ev in &events {
        if l.is_over() {
            break;
        }
        let step = l.step(ev);
        if let ListenStep::Emit(c) = step {
            sink.push(c);
        }
        last = Some(step);
    }
    assert_eq!(last, Some(ListenStep::Stopped));
    assert!(l.is_over());
    assert_eq!(sink, vec![InputCode::Byte(1), InputCode::Word(0x0210)]);
}

#[test]
fn failed_read_is_fatal() {
    let mut l = Listener::new();
    assert_eq!(l.step(&ListenEvent::ReadFailed), ListenStep::Failed);
    assert!(l.is_over());
}

#[test]
fn handshake_frames_have_their_lengths() {
    let lens: Vec<usize> = (0..FRAME_COUNT).map(|k| frame(k).len()).collect();
    assert_eq!(lens, vec![8, 20, 20, 20, 20, 14]);
    assert_eq!(frame(0), vec![0x55, 0x00, 0x07, 0x88, 0x94, 0x00, 0x1a, 0xfe]);
    assert_eq!(frame(5)[13], 0xfe);
}

#[test]
fn handshake_writes_frames_in_order() {
    let mut h = Handshake::new();
    let mut written = vec![h.pending()];
    loop {
        match h.step(WriteEvent::Written) {
            HandshakeStep::Write(k) => written.push(k),
            HandshakeStep::Done => break,
            other => panic!("unexpected step {:?}", other),
        }
    }
    assert_eq!(written, vec![0, 1, 2, 3, 4, 5]);
}

#[test]
fn rejected_frame_stops_handshake() {
    let mut h = Handshake::new();
    assert_eq!(h.step(WriteEvent::Written), HandshakeStep::Write(1));
    assert_eq!(h.step(WriteEvent::Written), HandshakeStep::Write(2));
    assert_eq!(h.step(WriteEvent::Rejected), HandshakeStep::Failed(2));
}

#[test]
fn shutdown_cancels_handshake() {
    let mut h = Handshake::new();
    assert_eq!(h.step(WriteEvent::Written), HandshakeStep::Write(1));
    assert_eq!(h.step(WriteEvent::Shutdown), HandshakeStep::Cancelled);
}

#[test]
fn find_first_takes_first_match() {
    assert_eq!(find_first(&vec![3, 7, 7], 7), Some(1));
    assert_eq!(find_first(&vec![3, 7, 7], 9), None);
    assert_eq!(find_first(&vec![], 9), None);
}

#[test]
fn resolves_service_of_exposing_device() {
    let mut r = Resolver::new();
    assert_eq!(r.pending(), Lookup { level: GattLevel::Services, target: SERVICE_UUID });
    let step = r.step(&ResolveEvent::Listed(vec![SERVICE_UUID]));
    assert_eq!(
        step,
        ResolveStep::Next(Lookup {
            level: GattLevel::Characteristics { service: 0 },
            target: WRITE_CHAR_UUID
        })
    );
}

#[test]
fn missing_service_is_not_found() {
    let mut r = Resolver::new();
    let step = r.step(&ResolveEvent::Listed(vec![0x1800, 0x180a]));
    assert_eq!(
        step,
        ResolveStep::NotFound(Lookup { level: GattLevel::Services, target: SERVICE_UUID })
    );
}

#[test]
fn full_resolution_returns_all_handles() {
    let mut r = Resolver::new();
    let listings = vec![
        vec![0x1800, SERVICE_UUID],
        vec![NOTIFY_CHAR_UUID, CONFIG_CHAR_UUID, WRITE_CHAR_UUID],
        vec![WRITE_DESC_UUID],
        vec![NOTIFY_CHAR_UUID, CONFIG_CHAR_UUID, WRITE_CHAR_UUID],
        vec![NOTIFY_CHAR_UUID, CONFIG_CHAR_UUID, WRITE_CHAR_UUID],
        vec![0x2901, NOTIFY_DESC_UUID],
    ];
    let mut last = None;
    for l in listings {
        last = Some(r.step(&ResolveEvent::Listed(l)));
    }
    assert_eq!(
        last,
        Some(ResolveStep::Resolved(Handles {
            service: 1,
            write_char: 2,
            write_desc: 0,
            config_char: 1,
            notify_char: 0,
            notify_desc: 1,
        }))
    );
}

#[test]
fn descriptor_lookup_names_its_characteristic() {
    let mut r = Resolver::new();
    r.step(&ResolveEvent::Listed(vec![SERVICE_UUID]));
    let step = r.step(&ResolveEvent::Listed(vec![0x1, WRITE_CHAR_UUID]));
    assert_eq!(
        step,
        ResolveStep::Next(Lookup {
            level: GattLevel::Descriptors { service: 0, characteristic: 1 },
            target: WRITE_DESC_UUID
        })
    );
}

#[test]
fn shutdown_before_resolution_cancels() {
    let mut r = Resolver::new();
    r.step(&ResolveEvent::Listed(vec![SERVICE_UUID]));
    assert_eq!(r.step(&ResolveEvent::Shutdown), ResolveStep::Cancelled);
}

#[test]
fn shutdown_error_is_an_error() {
    let r: Result<u32, ShutdownError> = ShutdownError::new();
    assert_eq!(r, Err(ShutdownError));
    assert_eq!(ShutdownError.message(), "Interupted by a shutdown signal");
}
