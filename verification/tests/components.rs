use mwatch_kernel::buffer::Buffer;
use mwatch_kernel::buffer::Type;
use mwatch_kernel::buffer::BUFF_SIZE;
use mwatch_kernel::byte_queue::ByteQueue;
use mwatch_kernel::checksum::checksum_ieee;
use mwatch_kernel::framebuffer::FrameBuffer;
use mwatch_kernel::hex::hex_byte_to_byte;
use mwatch_kernel::input::Error as InputError;
use mwatch_kernel::input::InputEvent;
use mwatch_kernel::input::InputManager;
use mwatch_kernel::notification::Notification;
use mwatch_kernel::notification::NotificationError;
use mwatch_kernel::notification::NotificationManager;
use mwatch_kernel::notification::BUFF_COUNT;

#[test]
fn buffer_classifies_type_bytes() {
    let mut b = Buffer::new();
    assert_eq!(b.get_type(), Type::Unknown);
    assert_eq!(b.determine_type(b'N'), Type::Notification);
    assert_eq!(b.determine_type(b'S'), Type::Syscall);
    assert_eq!(b.determine_type(b'A'), Type::Application);
    assert_eq!(b.determine_type(b'q'), Type::Unknown);
}

#[test]
fn buffer_accumulates_and_clears() {
    let mut b = Buffer::new();
    b.write(1).unwrap();
    b.write(2).unwrap();
    assert_eq!(b.as_slice(), &[1, 2][..]);
    b.clear();
    assert_eq!(b.as_slice(), &[][..]);
}

#[test]
fn buffer_overflow_is_rejected() {
    let mut b = Buffer::new();
    for i in 0..BUFF_SIZE {
        b.write(i as u8).unwrap();
    }
    assert!(b.write(0).is_err());
    assert_eq!(b.as_slice().len(), BUFF_SIZE);
}

#[test]
fn hex_pairs_decode() {
    assert_eq!(hex_byte_to_byte(b'2', b'a'), Some(0x2A));
    assert_eq!(hex_byte_to_byte(b'F', b'F'), Some(0xFF));
    assert_eq!(hex_byte_to_byte(b'0', b'0'), Some(0x00));
    assert_eq!(hex_byte_to_byte(b'g', b'0'), None);
    assert_eq!(hex_byte_to_byte(b'1', b' '), None);
}

#[test]
fn byte_queue_is_first_in_first_out() {
    let mut q = ByteQueue::new();
    assert_eq!(q.len(), 0);
    q.enqueue(10).unwrap();
    q.enqueue(20).unwrap();
    q.enqueue(30).unwrap();
    assert_eq!(q.len(), 3);
    assert_eq!(q.dequeue(), Some(10));
    assert_eq!(q.dequeue(), Some(20));
    assert_eq!(q.dequeue(), Some(30));
    assert_eq!(q.dequeue(), None);
}

#[test]
fn crc32_matches_reference_vector() {
    // the standard CRC32 check value
    assert_eq!(checksum_ieee(b"123456789"), 0xCBF43926);
    assert_eq!(checksum_ieee(b""), 0);
}

#[test]
fn triple_detected() {
    let mut im = InputManager::new();

    for _ in 0..3 {
        im.update_input(true)
    }
    assert_eq!(im.output().expect("No input detected"), InputEvent::Multi);
}

#[test]
fn dual_detected() {
    let mut im = InputManager::new();

    im.update_input(true);
    im.update_input(false);
    im.update_input(true);
    assert_eq!(im.output().expect("No input detected"), InputEvent::Dual);
}

#[test]
fn input_errors() {
    let mut im = InputManager::new();
    im.update_input(true);
    assert_eq!(im.output(), Err(InputError::Incomplete));
    im.update_input(false);
    im.update_input(false);
    assert_eq!(im.output(), Ok(InputEvent::Left));
    // the same vector again is not reported twice
    im.update_input(true);
    im.update_input(false);
    im.update_input(false);
    assert_eq!(im.output(), Err(InputError::NoInput));
    // a fourth pin reading makes a vector no combination matches
    im.update_input(true);
    im.update_input(true);
    im.update_input(true);
    im.update_input(true);
    assert_eq!(im.output(), Err(InputError::InvalidInputVector(15)));
}

#[test]
fn framebuffer_draws_pixels() {
    let mut fb = FrameBuffer::new(4, 4);
    assert_eq!(fb.width(), 4);
    assert_eq!(fb.height(), 4);
    assert_eq!(fb.as_bytes().len(), 32);
    assert!(fb.draw_pixel(1, 2, 0xABCD));
    let idx = (1 + 2 * 4) * 2;
    assert_eq!(fb.as_bytes()[idx], 0xAB);
    assert_eq!(fb.as_bytes()[idx + 1], 0xCD);
    // out of bounds pixels are ignored
    assert!(!fb.draw_pixel(4, 0, 0xFFFF));
    assert_eq!(fb.as_bytes().iter().filter(|b| **b != 0).count(), 2);
}

#[test]
fn notification_sections_from_buffer() {
    let mut b = Buffer::new();
    b.determine_type(b'N');
    for byte in b"abcdef" {
        b.write(*byte).unwrap();
    }
    let n = Notification::from_buffer(&b, &[2, 4, 6]).unwrap();
    assert_eq!(n.source(), &b"ab"[..]);
    assert_eq!(n.title(), &b"cd"[..]);
    assert_eq!(n.body(), &b"ef"[..]);
    assert_eq!(n.buffer(), &b"abcdef"[..]);
}

#[test]
fn notification_rejects_incoherent_offsets() {
    let mut b = Buffer::new();
    b.determine_type(b'N');
    b.write(1).unwrap();
    assert_eq!(Notification::from_buffer(&b, &[4, 2, 6]).unwrap_err(), NotificationError::Parsing);
    let mut nm = NotificationManager::new();
    assert_eq!(nm.add(&b, &[0, 0, 2]).unwrap_err(), NotificationError::Parsing);
    assert_eq!(nm.idx(), 0);
}

#[test]
fn notification_pool_wraps_around() {
    let mut b = Buffer::new();
    b.determine_type(b'N');
    b.write(9).unwrap();
    let mut nm = NotificationManager::new();
    for _ in 0..BUFF_COUNT {
        nm.add(&b, &[0, 0, 1]).unwrap();
    }
    assert_eq!(nm.idx(), 0);
    nm.add(&b, &[0, 1, 1]).unwrap();
    assert_eq!(nm.idx(), 1);
    assert_eq!(nm.peek_notification(0).title(), &[9][..]);
}
