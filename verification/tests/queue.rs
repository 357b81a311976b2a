use skyrust::queue::{LogQueue, QUEUE_LEN};
use skyrust::telemetry::{log_record, size_error_record, Notice};

/// Takes out everything that waits.
fn drain(queue: &mut LogQueue) -> Vec<Vec<u8>> {
    let mut packets = Vec::new();
    while let Some(packet) = queue.next_packet() {
        packets.push(packet.msg[..packet.len].to_vec());
    }
    packets
}

#[test]
fn empty_queue_gives_nothing() {
    let mut queue = LogQueue::new();
    assert_eq!(queue.next_packet(), None);
    assert_eq!(queue.next_packet(), None);
}

#[test]
fn texts_go_out_whole_and_in_order() {
    let texts: [&[u8]; 8] =
        [b"one", b"two\r\n", b"", b"three", &[b'x'; 63], b"two\r\n", b"six", b"seven\r\n"];
    assert_eq!(texts.len(), QUEUE_LEN);
    let mut queue = LogQueue::new();
    for text in texts {
        queue.usb_log(text);
    }
    let expected: Vec<Vec<u8>> = texts.iter().map(|text| text.to_vec()).collect();
    assert_eq!(drain(&mut queue), expected);
    assert_eq!(queue.next_packet(), None);
}

#[test]
fn full_queue_loses_what_comes_later() {
    let mut queue = LogQueue::new();
    for n in 0..20u8 {
        queue.usb_log(&[b'a' + n]);
    }
    let expected: Vec<Vec<u8>> = (0..8u8).map(|n| vec![b'a' + n]).collect();
    assert_eq!(drain(&mut queue), expected);
    queue.usb_log(b"again");
    assert_eq!(drain(&mut queue), vec![b"again".to_vec()]);
}

#[test]
fn order_holds_while_records_leave() {
    let mut queue = LogQueue::new();
    let mut out = Vec::new();
    for n in 1..=100u8 {
        queue.usb_log(&[n]);
        if n % 2 == 0 {
            queue.usb_log(&[n, n]);
        }
        for _ in 0..2 {
            if let Some(packet) = queue.next_packet() {
                out.push(packet.msg[..packet.len].to_vec());
            }
        }
    }
    out.extend(drain(&mut queue));
    let mut expected = Vec::new();
    for n in 1..=100u8 {
        expected.push(vec![n]);
        if n % 2 == 0 {
            expected.push(vec![n, n]);
        }
    }
    assert_eq!(out, expected);
}

#[test]
fn long_texts_are_cut() {
    let mut queue = LogQueue::new();
    queue.usb_log(&[b'y'; 64]);
    queue.usb_log(b"ab\0cd");
    assert_eq!(drain(&mut queue), vec![vec![b'y'; 63], b"ab".to_vec()]);
}

#[test]
fn records_and_texts_share_the_queue() {
    let mut queue = LogQueue::new();
    queue.usb_log(Notice::Booting.text().as_bytes());
    queue.send(size_error_record(7));
    queue.send(log_record(b"READY\r\n"));
    queue.send([7u8; 64]);
    assert_eq!(
        drain(&mut queue),
        vec![
            b"BOOTING...\r\n".to_vec(),
            b"UDP ERR: SIZE=7\r\n".to_vec(),
            b"READY\r\n".to_vec(),
            vec![7u8; 64],
        ]
    );
}
