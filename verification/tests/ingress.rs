use mwatch_kernel::application_manager::ApplicationManager;
use mwatch_kernel::application_manager::Ram;
use mwatch_kernel::ingress_manager::Event;
use mwatch_kernel::ingress_manager::IngressManager;
use mwatch_kernel::ingress_manager::State;
use mwatch_kernel::ingress_manager::ETX;
use mwatch_kernel::ingress_manager::PAYLOAD;
use mwatch_kernel::ingress_manager::STX;
use mwatch_kernel::notification::NotificationManager;
use mwatch_kernel::syscall::Syscall;
use mwatch_kernel::syscall::Time;

fn fresh() -> (IngressManager, ApplicationManager, NotificationManager) {
    (IngressManager::new(), ApplicationManager::new(Ram::new(256)), NotificationManager::new())
}

fn hex_of(bytes: &[u8]) -> Vec<u8> {
    let mut out = Vec::new();
    for b in bytes {
        out.extend_from_slice(format!("{:02X}", b).as_bytes());
    }
    out
}

#[test]
fn ingress_syscall() {
    let (mut imgr, mut am, mut nm) = fresh();
    let mut data = vec![STX, b'S', PAYLOAD];
    for byte in "T00:00:00".bytes() {
        data.push(byte);
    }
    data.push(ETX);
    imgr.write(&data);
    let events = imgr.process(&mut am, &mut nm);

    assert_eq!(imgr.current_state(), State::Wait);
    assert_eq!(events, vec![Event::Syscall(Syscall::Time(Time::new(0, 0, 0)))]);
}

#[test]
fn ingress_application_wrong_checksum() {
    let (mut imgr, mut am, mut nm) = fresh();
    let image = [1, 0, 0, 0, 5, 0, 0, 0, 9, 0, 0, 0];
    let mut data = vec![STX, b'A', PAYLOAD];
    // eight hex characters that are not the image's checksum
    data.extend_from_slice(b"DEADBEEF");
    data.push(PAYLOAD);
    data.extend_from_slice(&hex_of(&image));
    data.push(ETX);
    imgr.write(&data);
    let events = imgr.process(&mut am, &mut nm);

    assert_eq!(events, vec![Event::ApplicationInvalid]);
    assert!(!am.status().is_loaded);
    assert_eq!(imgr.current_state(), State::Wait);
}

#[test]
fn ingress_application_upload_and_verify() {
    let (mut imgr, mut am, mut nm) = fresh();
    let image = [1, 0, 0, 0, 5, 0, 0, 0, 9, 0, 0, 0];
    let digest = crc::crc32::checksum_ieee(&image);
    let mut data = vec![STX, b'A', PAYLOAD];
    data.extend_from_slice(format!("{:08X}", digest).as_bytes());
    data.push(PAYLOAD);
    data.extend_from_slice(&hex_of(&image));
    data.push(ETX);
    imgr.write(&data);
    let events = imgr.process(&mut am, &mut nm);

    assert_eq!(events, vec![Event::ApplicationVerified]);
    assert!(am.status().is_loaded);
    assert_eq!(am.program(), &image[..]);
    let ep = am.execute().unwrap();
    assert_eq!(ep.setup, 1);
    assert_eq!(ep.service, 5);
    assert_eq!(ep.input, 9);
}

#[test]
fn ingress_notification_sections() {
    let (mut imgr, mut am, mut nm) = fresh();
    let mut data = vec![STX, b'N', PAYLOAD];
    data.extend_from_slice(b"src");
    data.push(PAYLOAD);
    data.extend_from_slice(b"title");
    data.extend_from_slice(b"body text");
    data.push(ETX);
    imgr.write(&data);
    let events = imgr.process(&mut am, &mut nm);

    assert_eq!(events, vec![Event::Notification { source_end: 0, title_end: 3, body_end: 17 }]);
    assert_eq!(imgr.current_state(), State::Wait);
    assert_eq!(nm.idx(), 1);
    let n = nm.peek_notification(0);
    assert_eq!(n.source(), &b""[..]);
    assert_eq!(n.title(), &b"src"[..]);
    assert_eq!(n.body(), &b"titlebody text"[..]);
}

#[test]
fn ingress_notification_example_frame() {
    // the frame \x02 N \x1F AppName \x1F Hello body \x03 delivers
    // source "", title "AppName", body "Hello body"
    let (mut imgr, mut am, mut nm) = fresh();
    let mut data = vec![STX, b'N', PAYLOAD];
    data.extend_from_slice(b"AppName");
    data.push(PAYLOAD);
    data.extend_from_slice(b"Hello body");
    data.push(ETX);
    imgr.write(&data);
    let events = imgr.process(&mut am, &mut nm);

    assert_eq!(events, vec![Event::Notification { source_end: 0, title_end: 7, body_end: 17 }]);
    let n = nm.peek_notification(0);
    assert_eq!(n.source(), &b""[..]);
    assert_eq!(n.title(), &b"AppName"[..]);
    assert_eq!(n.body(), &b"Hello body"[..]);
    assert_eq!(n.buffer(), &b"AppNameHello body"[..]);
}

#[test]
fn ingress_second_stx_abandons_frame() {
    let (mut imgr, mut am, mut nm) = fresh();
    let mut data = vec![STX, b'S', PAYLOAD];
    data.extend_from_slice(b"T01");
    // a second frame start before the first frame's end
    data.push(STX);
    data.push(b'S');
    data.push(PAYLOAD);
    data.extend_from_slice(b"T02:00:00");
    data.push(ETX);
    imgr.write(&data);
    let events = imgr.process(&mut am, &mut nm);

    assert_eq!(events, vec![Event::Syscall(Syscall::Time(Time::new(2, 0, 0)))]);
    assert_eq!(imgr.current_state(), State::Wait);
}

#[test]
fn ingress_abandoned_upload_then_notification() {
    let (mut imgr, mut am, mut nm) = fresh();
    let mut data = vec![STX, b'A', PAYLOAD];
    // half an upload, abandoned by the next frame start
    data.extend_from_slice(b"DEAD");
    data.push(STX);
    data.push(b'N');
    data.push(PAYLOAD);
    data.push(PAYLOAD);
    data.extend_from_slice(b"hi");
    data.push(ETX);
    imgr.write(&data);
    let events = imgr.process(&mut am, &mut nm);

    assert_eq!(events, vec![Event::Notification { source_end: 0, title_end: 0, body_end: 2 }]);
    assert!(!am.status().is_loaded);
    assert_eq!(nm.idx(), 1);
    assert_eq!(nm.peek_notification(0).body(), &b"hi"[..]);
}

#[test]
fn ingress_unknown_type_is_dropped() {
    let (mut imgr, mut am, mut nm) = fresh();
    imgr.write(&[STX, b'X', b'y', ETX]);
    let events = imgr.process(&mut am, &mut nm);

    assert!(events.is_empty());
    assert_eq!(imgr.current_state(), State::Wait);
    assert_eq!(nm.idx(), 0);
}

#[test]
fn ingress_bad_hex_aborts_upload() {
    let (mut imgr, mut am, mut nm) = fresh();
    imgr.write(&[STX, b'A', PAYLOAD, b'Z', b'Z']);
    let events = imgr.process(&mut am, &mut nm);

    assert!(events.is_empty());
    assert_eq!(imgr.current_state(), State::Wait);
    assert!(!am.status().is_loaded);
}

#[test]
fn ingress_malformed_syscall_is_dropped() {
    let (mut imgr, mut am, mut nm) = fresh();
    imgr.write(&[STX, b'S', PAYLOAD, b'q', ETX]);
    let events = imgr.process(&mut am, &mut nm);

    assert!(events.is_empty());
    assert_eq!(imgr.current_state(), State::Wait);
}

#[test]
fn ingress_idle_queue_processes_nothing() {
    let (mut imgr, mut am, mut nm) = fresh();
    let events = imgr.process(&mut am, &mut nm);

    assert!(events.is_empty());
    assert_eq!(imgr.current_state(), State::Init);
}

#[test]
fn ingress_noise_between_frames_is_discarded() {
    let (mut imgr, mut am, mut nm) = fresh();
    let mut data = vec![STX, b'S', PAYLOAD];
    data.extend_from_slice(b"T03:02:01");
    data.push(ETX);
    data.extend_from_slice(b"line noise");
    imgr.write(&data);
    let events = imgr.process(&mut am, &mut nm);

    assert_eq!(events, vec![Event::Syscall(Syscall::Time(Time::new(3, 2, 1)))]);
    assert_eq!(imgr.current_state(), State::Wait);
}
