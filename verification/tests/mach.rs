//! Mach messages and ports.
use rini::mach::begin::{bs_name, mach_server, mach_server_begin, register_failure, RegisterFailure};
use rini::mach::framing::{
    aligned_len, descriptor_address, is_dispatched, is_readable, mach_send_message_with_reply_port,
    mach_try_send_message, payload_of, receive_message_on_port, send_mach_reply, terminate,
    trim_at_nul, was_sent, Payload,
};
use rini::mach::ports::{
    is_mach_server_registered, mach_allocate_reply_port, mach_deallocate_reply_port,
    mach_get_bs_port, mach_receive_message_on_port, mach_release_send_right,
    mach_retain_send_right, Answer, Call, OpeningStage,
};
use rini::mach::sending::mach_send_message;
use rini::mach::{
    mach_msg_body_t, mach_msg_header_t, mach_msg_ool_descriptor_t, MACH_MSGH_BITS,
    MACH_MSGH_BITS_COMPLEX, MACH_MSGH_BITS_LOCAL, MACH_MSGH_BITS_REMOTE, MACH_MSGH_BITS_SET,
    MAX_MESSAGE_SIZE,
};

fn header(bits: u32, size: u32, remote: u32) -> mach_msg_header_t {
    mach_msg_header_t {
        msgh_bits: bits,
        msgh_size: size,
        msgh_remote_port: remote,
        msgh_local_port: 0,
        msgh_voucher_port: 0,
        msgh_id: 77,
    }
}

const OK: Answer = Answer { result: 0, port: 0 };
const BAD: Answer = Answer { result: 5, port: 0 };

#[test]
fn bits_hold_both_dispositions() {
    let bits = MACH_MSGH_BITS(19, 20);
    assert_eq!(bits, 0x1413);
    assert_eq!((MACH_MSGH_BITS_REMOTE(bits), MACH_MSGH_BITS_LOCAL(bits)), (19, 20));
    assert_eq!(MACH_MSGH_BITS_SET(0xff, 1, 2, 0x8000_0000), 0x8002_011f);
    assert_eq!(MACH_MSGH_BITS_SET(19, 20, 0, 0), bits);
}

#[test]
fn a_length_is_rounded_up_to_words() {
    for (len, words) in [(0, 0), (1, 4), (3, 4), (4, 4), (5, 8), (MAX_MESSAGE_SIZE, MAX_MESSAGE_SIZE)] {
        assert_eq!(aligned_len(len), words);
    }
}

#[test]
fn a_message_is_padded_with_zeros() {
    let sent = mach_try_send_message(9, Some(b"hello")).unwrap();
    assert_eq!(sent.data, b"hello\0\0\0");
    assert_eq!(sent.header.msgh_size, 32);
    assert_eq!(sent.header.msgh_bits, 19);
    assert_eq!((sent.header.msgh_remote_port, sent.header.msgh_local_port), (9, 0));
    assert!(mach_try_send_message(0, Some(b"hello")).is_none());
    assert!(mach_try_send_message(9, None).is_none());
    let long = vec![1u8; MAX_MESSAGE_SIZE as usize + 1];
    assert!(mach_try_send_message(9, Some(&long)).is_none());
    assert!(mach_try_send_message(9, Some(&long[1..])).is_some());
}

#[test]
fn a_message_with_a_reply_port_names_it() {
    let sent = mach_send_message_with_reply_port(9, Some(b"x"), 4).unwrap();
    assert_eq!((sent.header.msgh_local_port, sent.header.msgh_id), (4, 4));
    assert_eq!(sent.header.msgh_bits, 0x1313);
    assert!(mach_send_message_with_reply_port(9, Some(b"x"), 0).is_none());
}

#[test]
fn a_reply_goes_back_where_the_message_came_from() {
    let original = header(0, 0, 12);
    let reply = send_mach_reply(Some(&original), Some(b"ok\0")).unwrap();
    assert_eq!((reply.header.msgh_remote_port, reply.header.msgh_id), (12, 77));
    assert_eq!(reply.data, b"ok\0\0");
    assert!(send_mach_reply(None, Some(b"ok")).is_none());
    assert!(send_mach_reply(Some(&original), None).is_none());
    assert!(send_mach_reply(Some(&header(0, 0, 0)), Some(b"ok")).is_none());
    let long = vec![1u8; MAX_MESSAGE_SIZE as usize + 1];
    assert!(send_mach_reply(Some(&original), Some(&long)).is_none());
    assert!(was_sent(0) && !was_sent(1));
}

#[test]
fn a_received_payload_is_what_lies_behind_the_header() {
    let mut buf = b"old".to_vec();
    assert!(!receive_message_on_port(3, &header(0, 28, 1), b"abcdefgh", &mut buf));
    assert_eq!(buf, b"old");
    assert!(receive_message_on_port(0, &header(0, 28, 1), b"abcdefgh", &mut buf));
    assert_eq!(buf, b"abcd");
    assert!(receive_message_on_port(0, &header(0, 10, 1), b"abcdefgh", &mut buf));
    assert!(buf.is_empty());
}

#[test]
fn a_payload_is_found_inline_or_out_of_line() {
    let none = mach_msg_body_t { msgh_descriptor_count: 0 };
    let one = mach_msg_body_t { msgh_descriptor_count: 1 };
    let empty = mach_msg_ool_descriptor_t {
        address: 0,
        size: 0,
        deallocate: 0,
        copy: 0,
        pad1: 0,
        type_: 1,
    };
    let full = mach_msg_ool_descriptor_t { address: 4096, size: 10, ..empty };
    let plain = header(0, 64, 1);
    let complex = header(MACH_MSGH_BITS_COMPLEX, 64, 1);
    assert_eq!(payload_of(&plain, &one, &full), Payload::Inline { len: 40 });
    assert_eq!(payload_of(&complex, &none, &full), Payload::Absent);
    assert_eq!(payload_of(&complex, &one, &full), Payload::OutOfLine { address: 4096, len: 10 });
    assert_eq!(payload_of(&complex, &one, &empty), Payload::Inline { len: 40 });
    assert!(!is_readable(Payload::Absent) && !is_readable(Payload::Inline { len: 0 }));
    assert!(is_readable(Payload::OutOfLine { address: 4096, len: 10 }));
    assert!(is_dispatched(&plain) && !is_dispatched(&header(0, 64, 0)));
    assert_eq!(descriptor_address(4096), 4096 + 32);
    assert_eq!(descriptor_address(4100), 4100 + 28);
}

#[test]
fn bytes_are_cut_at_the_first_zero() {
    assert_eq!(trim_at_nul(b"ab\0cd\0"), b"ab");
    assert_eq!(trim_at_nul(b"ab"), b"ab");
    assert_eq!(terminate(b"ab".to_vec()), b"ab\0");
    assert_eq!(terminate(b"ab\0".to_vec()), b"ab\0");
    assert_eq!(terminate(Vec::new()), b"\0");
}

#[test]
fn the_service_is_found_when_both_steps_succeed() {
    assert_eq!(mach_get_bs_port(0, 0, 6), 6);
    assert_eq!(mach_get_bs_port(1, 0, 6), 0);
    assert_eq!(mach_get_bs_port(0, 1102, 6), 0);
    assert!(is_mach_server_registered(6) && !is_mach_server_registered(0));
}

#[test]
fn an_exchange_that_awaits_gives_its_port_back() {
    let mut exchange = mach_send_message(9, Some(b"hi"), true, true).unwrap();
    let mut calls = Vec::new();
    while let Some(call) = exchange.call() {
        let answer = match &call {
            Call::Allocate => Answer { result: 0, port: 21 },
            _ => OK,
        };
        calls.push(call);
        exchange.answered(answer);
    }
    assert_eq!(exchange.outcome(), Some(true));
    assert_eq!(calls.len(), 7);
    assert!(matches!(calls[1], Call::LimitQueue { port: 21, limit: 1 }));
    assert!(matches!(calls[2], Call::InsertSendRight { port: 21 }));
    assert!(matches!(&calls[3], Call::Send(out)
        if out.header.msgh_local_port == 21 && out.header.msgh_bits == 0x1413 && out.data == b"hi\0\0"));
    assert!(matches!(calls[4], Call::Receive { port: 21 }));
    assert!(matches!(calls[5], Call::DropReceive { port: 21 }));
    assert!(matches!(calls[6], Call::Deallocate { port: 21 }));
}

#[test]
fn wherever_an_exchange_fails_no_port_is_left() {
    for fail_at in 0..5 {
        let mut exchange = mach_send_message(9, Some(b"hi"), true, true).unwrap();
        let (mut made, mut freed, mut at) = (0, 0, 0);
        while let Some(call) = exchange.call() {
            let fails = at == fail_at;
            match call {
                Call::Allocate if !fails => made += 1,
                Call::Deallocate { port: 21 } => freed += 1,
                _ => {}
            }
            exchange.answered(if fails { BAD } else { Answer { result: 0, port: 21 } });
            at += 1;
        }
        assert_eq!(made, freed, "failing at {fail_at}");
        assert_eq!(exchange.outcome(), Some(fail_at == 1), "only the queue limit may fail");
    }
}

#[test]
fn a_plain_message_is_one_call() {
    let mut exchange = mach_send_message(9, Some(b"hi"), false, false).unwrap();
    assert!(matches!(exchange.call(), Some(Call::Send(_))));
    assert_eq!(exchange.outcome(), None);
    exchange.answered(BAD);
    assert_eq!(exchange.outcome(), Some(false));
    assert!(exchange.call().is_none());
    assert!(mach_send_message(9, Some(b"hi"), true, false).is_none());
    assert!(mach_send_message(0, Some(b"hi"), false, false).is_none());
    assert!(mach_send_message(9, None, false, false).is_none());
}

#[test]
fn a_reply_port_for_many_replies_has_a_long_queue() {
    let mut opening = mach_allocate_reply_port();
    assert!(matches!(opening.call(), Some(Call::Allocate)));
    opening.answered(Answer { result: 0, port: 8 });
    assert!(matches!(opening.call(), Some(Call::LimitQueue { port: 8, limit: 1024 })));
    opening.answered(BAD);
    opening.answered(BAD);
    assert!(matches!(opening.call(), Some(Call::DropReceive { port: 8 })));
    opening.answered(BAD);
    opening.answered(BAD);
    assert_eq!(opening.stage, OpeningStage::Failed);
    assert!(opening.call().is_none());
    assert_eq!(mach_deallocate_reply_port(8).len(), 2);
    assert!(mach_deallocate_reply_port(0).is_empty());
}

#[test]
fn the_null_port_is_left_alone() {
    assert_eq!((mach_retain_send_right(0), mach_release_send_right(0)), (None, None));
    assert_eq!((mach_retain_send_right(3), mach_release_send_right(3)), (Some(1), Some(-1)));
    assert!(mach_receive_message_on_port(0).is_none());
    assert!(matches!(mach_receive_message_on_port(3), Some(Call::Receive { port: 3 })));
}

#[test]
fn the_service_comes_up_call_by_call() {
    let mut beginning = mach_server_begin(mach_server::default(), 1);
    let mut calls = 0;
    while beginning.call().is_some() {
        beginning.answered(Answer { result: 0, port: 30 + calls });
        calls += 1;
    }
    assert_eq!(calls, 10);
    assert_eq!(beginning.stage, rini::mach::begin::Stage::Over { outcome: true });
    let server = beginning.server;
    assert_eq!((server.task, server.bs_port, server.port), (1, 30, 31));
    assert!(server.is_running && server.has_handler);
}

#[test]
fn the_service_stays_down_when_a_step_fails() {
    for fail_at in [0u32, 1, 2, 3, 5, 6] {
        let mut beginning = mach_server_begin(mach_server::default(), 1);
        let mut at = 0;
        while beginning.call().is_some() {
            beginning.answered(if at == fail_at { BAD } else { OK });
            at += 1;
        }
        assert_eq!(beginning.stage, rini::mach::begin::Stage::Over { outcome: false });
        assert_eq!(beginning.server.is_running, fail_at > 4, "registered before it runs");
    }
}

#[test]
fn a_refused_name_says_why() {
    assert_eq!(register_failure(0), None);
    assert_eq!(register_failure(1101), Some(RegisterFailure::NameInUse));
    assert_eq!(register_failure(1100), Some(RegisterFailure::NotPrivileged));
    assert_eq!(register_failure(9), Some(RegisterFailure::Other { result: 9 }));
    assert_eq!(bs_name(None), "git.kaievns.rini");
    assert_eq!(bs_name(Some("other".to_string())), "other");
}
