use mwatch_kernel::application_manager::ApplicationManager;
use mwatch_kernel::application_manager::Error;
use mwatch_kernel::application_manager::Ram;

fn loaded_manager(image: &[u8]) -> ApplicationManager {
    let mut ram = Ram::new(64);
    for b in image {
        ram.write(*b).unwrap();
    }
    let mut am = ApplicationManager::new(ram);
    let digest = crc::crc32::checksum_ieee(image);
    am.write_checksum_byte((digest >> 24) as u8).unwrap();
    am.write_checksum_byte((digest >> 16) as u8).unwrap();
    am.write_checksum_byte((digest >> 8) as u8).unwrap();
    am.write_checksum_byte(digest as u8).unwrap();
    am
}

#[test]
fn checksum_parsing_works() {
    assert_eq!(ApplicationManager::digest_from_bytes(&[35, 98, 167, 98]), 0x2362A762);
}

#[test]
fn application_manager_checksum_parsing_works() {
    assert_eq!(ApplicationManager::digest_from_bytes(&[35, 98, 167, 98]), 0x2362A762);
}

#[test]
fn digest_round_trip() {
    let image = b"some application image";
    let digest = crc::crc32::checksum_ieee(image);
    // the four checksum bytes, least significant first, then reversed
    // into the most-significant-first wire order
    let stored = [digest as u8, (digest >> 8) as u8, (digest >> 16) as u8, (digest >> 24) as u8];
    let wire = [stored[3], stored[2], stored[1], stored[0]];
    assert_eq!(ApplicationManager::digest_from_bytes(&wire), digest);
}

#[test]
fn ram_write_beyond_capacity() {
    let mut ram = Ram::new(12);
    for i in 0..12 {
        assert_eq!(ram.write(i as u8), Ok(()));
    }
    assert_eq!(ram.as_slice().len(), 12);
    assert_eq!(ram.write(99), Err(Error::NoMemory));
    // the cursor did not move
    assert_eq!(ram.as_slice().len(), 12);
    assert_eq!(ram.as_slice()[11], 11);
}

#[test]
fn ram_reset_wipes() {
    let mut ram = Ram::new(12);
    ram.write(7).unwrap();
    ram.write(8).unwrap();
    ram.reset();
    assert_eq!(ram.as_slice().len(), 0);
    assert!(ram.as_ref().iter().all(|b| *b == 0));
}

#[test]
fn execute_before_verify_is_refused() {
    let mut am = ApplicationManager::new(Ram::new(32));
    assert_eq!(am.execute().unwrap_err(), Error::NoApplication);
    assert!(!am.status().is_loaded);
    assert!(!am.status().is_running);
}

#[test]
fn verify_checksum_failed_leaves_unloaded() {
    let mut am = ApplicationManager::new(Ram::new(32));
    am.write_ram_byte(1).unwrap();
    am.write_ram_byte(2).unwrap();
    // target checksum still zeroed: cannot match the staged bytes
    assert_eq!(am.verify(), Err(Error::ChecksumFailed));
    assert!(!am.status().is_loaded);
    assert_eq!(am.execute().unwrap_err(), Error::NoApplication);
}

#[test]
fn verify_and_execute_builds_entry_points() {
    let image = [1, 0, 0, 0, 5, 0, 0, 0, 9, 0, 0, 0];
    let mut am = loaded_manager(&image);
    assert_eq!(am.verify(), Ok(()));
    assert!(am.status().is_loaded);
    let ep = am.execute().unwrap();
    assert_eq!(ep.setup, 1);
    assert_eq!(ep.service, 5);
    assert_eq!(ep.input, 9);
    assert!(am.status().is_running);
    assert_eq!(am.service(), Ok(5));
    assert_eq!(am.service_input(), Ok(9));
}

#[test]
fn checksum_overflow_is_no_memory() {
    let mut am = ApplicationManager::new(Ram::new(32));
    for _ in 0..4 {
        am.write_checksum_byte(0).unwrap();
    }
    assert_eq!(am.write_checksum_byte(0), Err(Error::NoMemory));
}

#[test]
fn service_without_execute_is_refused() {
    let am = ApplicationManager::new(Ram::new(32));
    assert_eq!(am.service().unwrap_err(), Error::InvalidServiceFn);
    assert_eq!(am.service_input().unwrap_err(), Error::InvalidInputFn);
}

#[test]
fn kill_twice_is_idempotent() {
    let image = [1, 0, 0, 0, 5, 0, 0, 0, 9, 0, 0, 0];
    let mut am = loaded_manager(&image);
    am.verify().unwrap();
    am.execute().unwrap();
    assert_eq!(am.kill(), Ok(()));
    assert_eq!(am.kill(), Ok(()));
    assert!(!am.status().is_loaded);
    assert!(!am.status().is_running);
    assert_eq!(am.program().len(), 0);
    assert_eq!(am.service().unwrap_err(), Error::InvalidServiceFn);
}

#[test]
fn status_records_service_result() {
    let mut am = ApplicationManager::new(Ram::new(32));
    assert_eq!(am.status().service_result, -1);
    am.record_service_result(42);
    assert_eq!(am.status().service_result, 42);
    am.pause();
    assert!(!am.status().is_running);
}
