use moko_mkl62ba_at_commands::digester::{Classification, MokoDigester};
use moko_mkl62ba_at_commands::general::responses::TransportError;
use moko_mkl62ba_at_commands::ingress::{InputBuffer, Overflow, Received};

#[test]
fn append_up_to_capacity() {
    let mut buffer = InputBuffer::new(8);
    assert_eq!(buffer.capacity(), 8);
    assert_eq!(buffer.len(), 0);
    assert_eq!(buffer.append(b"12345"), Ok(()));
    assert_eq!(buffer.append(b"678"), Ok(()));
    assert_eq!(buffer.pending(), b"12345678");
    assert_eq!(buffer.len(), 8);
    assert_eq!(buffer.append(b""), Ok(()));
}

#[test]
fn overflow_is_reported_and_nothing_is_dropped() {
    let mut buffer = InputBuffer::new(8);
    assert_eq!(buffer.append(b"12345"), Ok(()));
    assert_eq!(buffer.append(b"6789"), Err(Overflow));
    assert_eq!(buffer.pending(), b"12345");
    assert_eq!(buffer.append(b"678"), Ok(()));
    assert_eq!(buffer.append(b"9"), Err(Overflow));
    assert_eq!(buffer.pending(), b"12345678");
    let mut none = InputBuffer::new(0);
    assert_eq!(none.append(b"x"), Err(Overflow));
    assert_eq!(none.append(b""), Ok(()));
}

#[test]
fn discard() {
    let mut buffer = InputBuffer::new(16);
    buffer.append(b"abcdef").unwrap();
    buffer.discard(0);
    assert_eq!(buffer.pending(), b"abcdef");
    buffer.discard(2);
    assert_eq!(buffer.pending(), b"cdef");
    buffer.discard(4);
    assert_eq!(buffer.pending(), b"");
    buffer.append(b"xy").unwrap();
    buffer.discard(9);
    assert_eq!(buffer.pending(), b"");
    assert_eq!(buffer.capacity(), 16);
}

#[test]
fn frames_come_out_in_the_order_of_arrival() {
    let mut digester = MokoDigester::default();
    let mut buffer = InputBuffer::new(64);
    buffer.append(b"+AT: OTAA\r\nERROR(-3)\r\n+JOIN_STD: JOI").unwrap();
    assert_eq!(
        buffer.take_frame(&mut digester),
        Some(Received { class: Classification::SolicitedSuccess, payload: b"OTAA".to_vec() })
    );
    assert_eq!(buffer.pending(), b"ERROR(-3)\r\n+JOIN_STD: JOI");
    assert_eq!(
        buffer.take_frame(&mut digester),
        Some(Received {
            class: Classification::SolicitedError(TransportError::Custom),
            payload: b"ERROR(-3)".to_vec(),
        })
    );
    assert_eq!(buffer.pending(), b"+JOIN_STD: JOI");
    assert_eq!(buffer.take_frame(&mut digester), None);
    assert_eq!(buffer.pending(), b"+JOIN_STD: JOI");
    buffer.append(b"NED\r\n").unwrap();
    assert_eq!(
        buffer.take_frame(&mut digester),
        Some(Received {
            class: Classification::SolicitedSuccess,
            payload: b"+JOIN_STD: JOINED".to_vec(),
        })
    );
    assert_eq!(buffer.pending(), b"");
    assert_eq!(buffer.take_frame(&mut digester), None);
}

#[test]
fn a_frame_fed_in_pieces_comes_out_once() {
    let frames: [&[u8]; 4] =
        [b"+AT: ON\r\n", b"+ATZ: RESET\r\nMKL62BA\r\n", b"ERROR(-5)\r\n", b"OK\r\n"];
    for frame in frames {
        let mut whole = InputBuffer::new(64);
        whole.append(frame).unwrap();
        let expected = whole.take_frame(&mut MokoDigester::default());
        assert!(expected.is_some());
        for split in 0..=frame.len() {
            let mut digester = MokoDigester::default();
            let mut buffer = InputBuffer::new(64);
            buffer.append(&frame[..split]).unwrap();
            if split < frame.len() {
                assert_eq!(buffer.take_frame(&mut digester), None);
            }
            buffer.append(&frame[split..]).unwrap();
            assert_eq!(buffer.take_frame(&mut digester), expected);
            assert_eq!(buffer.pending(), b"");
            assert_eq!(buffer.take_frame(&mut digester), None);
        }
        let mut digester = MokoDigester::default();
        let mut buffer = InputBuffer::new(64);
        for (i, byte) in frame.iter().enumerate() {
            buffer.append(&[*byte]).unwrap();
            if i + 1 < frame.len() {
                assert_eq!(buffer.take_frame(&mut digester), None);
            }
        }
        assert_eq!(buffer.take_frame(&mut digester), expected);
    }
}

#[test]
fn a_frame_that_never_completes_ends_in_overflow() {
    let mut digester = MokoDigester::default();
    let mut buffer = InputBuffer::new(16);
    let mut result = Ok(());
    for _ in 0..5 {
        assert_eq!(buffer.take_frame(&mut digester), None);
        result = buffer.append(b"noise");
        if result.is_err() {
            break;
        }
    }
    assert_eq!(result, Err(Overflow));
    assert_eq!(buffer.pending(), b"noisenoisenoise");
}
