use echo::error::EchoError;
use echo::state::{is_all_zero, overwrite, read_header, write_header, write_once};
use echo::state::{AuthorizedBufferHeader, VendingMachineBufferHeader, HEADER_LEN};

#[test]
fn header_is_nine_bytes() {
    assert_eq!(HEADER_LEN, 9);
}

#[test]
fn is_all_zero_looks_at_every_byte() {
    assert!(is_all_zero(&[]));
    assert!(is_all_zero(&[0; 40]));
    assert!(!is_all_zero(&[1, 0, 0]));
    assert!(!is_all_zero(&[0, 0, 1]));
    assert!(!is_all_zero(&[0, 255, 0]));
}

#[test]
fn write_once_fills_a_buffer_of_the_same_length() {
    let mut buffer = vec![0u8; 11];
    assert_eq!(write_once(&mut buffer, b"hello echo!"), Ok(()));
    assert_eq!(buffer, b"hello echo!".to_vec());
}

#[test]
fn write_once_cuts_a_long_payload() {
    let mut buffer = vec![0u8; 4];
    assert_eq!(write_once(&mut buffer, &[1, 2, 3, 4, 5, 6, 7, 8, 9, 10]), Ok(()));
    assert_eq!(buffer, vec![1, 2, 3, 4]);
}

#[test]
fn write_once_keeps_the_zeros_behind_a_short_payload() {
    let mut buffer = vec![0u8; 10];
    assert_eq!(write_once(&mut buffer, &[1, 2, 3, 4]), Ok(()));
    assert_eq!(buffer, vec![1, 2, 3, 4, 0, 0, 0, 0, 0, 0]);
}

#[test]
fn write_once_is_refused_a_second_time() {
    let mut buffer = vec![0u8; 6];
    assert_eq!(write_once(&mut buffer, &[5, 5]), Ok(()));
    let rejection = write_once(&mut buffer, &[7, 7, 7]).unwrap_err();
    assert_eq!(rejection.kind, EchoError::NonEmptyBuffer);
    assert_eq!(buffer, vec![5, 5, 0, 0, 0, 0]);
}

#[test]
fn write_once_of_zeros_leaves_the_buffer_open() {
    let mut buffer = vec![0u8; 3];
    assert_eq!(write_once(&mut buffer, &[0, 0]), Ok(()));
    assert_eq!(write_once(&mut buffer, &[]), Ok(()));
    assert_eq!(buffer, vec![0, 0, 0]);
    assert_eq!(write_once(&mut buffer, &[1]), Ok(()));
    assert_eq!(buffer, vec![1, 0, 0]);
}

#[test]
fn write_once_rejects_any_byte_that_is_not_zero() {
    let mut buffer = vec![0, 0, 0, 0, 1];
    let rejection = write_once(&mut buffer, &[9]).unwrap_err();
    assert_eq!(rejection.kind, EchoError::NonEmptyBuffer);
    assert_eq!(rejection.message, "echo buffer already holds data");
    assert_eq!(buffer, vec![0, 0, 0, 0, 1]);
}

#[test]
fn write_once_rejects_a_buffer_of_no_bytes() {
    let mut buffer: Vec<u8> = vec![];
    let rejection = write_once(&mut buffer, &[1, 2, 3]).unwrap_err();
    assert_eq!(rejection.kind, EchoError::NotInitialized);
    assert_eq!(rejection.message, "echo buffer is not initialized");
    assert!(buffer.is_empty());
}

#[test]
fn header_is_the_bump_and_the_number_lowest_byte_first() {
    let mut buffer = vec![0xaa; 12];
    assert_eq!(write_header(&mut buffer, 254, 42), Ok(()));
    assert_eq!(buffer, vec![254, 42, 0, 0, 0, 0, 0, 0, 0, 0xaa, 0xaa, 0xaa]);
    assert_eq!(write_header(&mut buffer, 1, 0x0102_0304_0506_0708), Ok(()));
    assert_eq!(buffer, vec![1, 8, 7, 6, 5, 4, 3, 2, 1, 0xaa, 0xaa, 0xaa]);
}

#[test]
fn header_fits_a_buffer_of_nine_bytes() {
    let mut buffer = vec![0u8; 9];
    assert_eq!(write_header(&mut buffer, 255, u64::MAX), Ok(()));
    assert_eq!(buffer, vec![255; 9]);
    assert_eq!(read_header(&buffer), Some((255, u64::MAX)));
}

#[test]
fn header_needs_nine_bytes() {
    let mut buffer = vec![3u8; 8];
    let rejection = write_header(&mut buffer, 255, 1).unwrap_err();
    assert_eq!(rejection.kind, EchoError::NotInitialized);
    assert_eq!(buffer, vec![3u8; 8]);
    assert_eq!(read_header(&buffer), None);
    assert_eq!(read_header(&[]), None);
}

#[test]
fn header_that_was_set_is_read() {
    let mut buffer = vec![0u8; 29];
    assert_eq!(write_header(&mut buffer, 253, 42), Ok(()));
    assert_eq!(read_header(&buffer), Some((253, 42)));
    assert_eq!(
        AuthorizedBufferHeader::unpack(&buffer),
        Some(AuthorizedBufferHeader { bump: 253, buffer_seed: 42 })
    );
    assert_eq!(
        VendingMachineBufferHeader::unpack(&buffer),
        Some(VendingMachineBufferHeader { bump: 253, price: 42 })
    );
}

#[test]
fn authorized_header_packs_and_unpacks() {
    let header = AuthorizedBufferHeader { bump: 200, buffer_seed: 1 << 63 };
    let mut buffer = vec![7u8; 10];
    assert_eq!(header.pack(&mut buffer), Ok(()));
    assert_eq!(buffer, vec![200, 0, 0, 0, 0, 0, 0, 0, 0x80, 7]);
    assert_eq!(AuthorizedBufferHeader::unpack(&buffer), Some(header));
    assert_eq!(AuthorizedBufferHeader::unpack(&buffer[..8]), None);
    let mut short = vec![0u8; 2];
    assert_eq!(header.pack(&mut short).unwrap_err().kind, EchoError::NotInitialized);
    assert_eq!(short, vec![0, 0]);
}

#[test]
fn vending_header_packs_and_unpacks() {
    let header = VendingMachineBufferHeader { bump: 9, price: 1_000 };
    let mut buffer = vec![0u8; 9];
    assert_eq!(header.pack(&mut buffer), Ok(()));
    assert_eq!(buffer, vec![9, 0xe8, 0x03, 0, 0, 0, 0, 0, 0]);
    assert_eq!(VendingMachineBufferHeader::unpack(&buffer), Some(header));
    assert_eq!(VendingMachineBufferHeader::unpack(&[]), None);
    let mut short = vec![1u8; 8];
    assert_eq!(header.pack(&mut short).unwrap_err().kind, EchoError::NotInitialized);
    assert_eq!(short, vec![1u8; 8]);
}

#[test]
fn overwrite_fills_the_room_with_zeros() {
    let mut buffer = vec![0xee; 9 + 6];
    assert_eq!(overwrite(&mut buffer, &[1, 2]), Ok(()));
    assert_eq!(buffer[..9], [0xee; 9]);
    assert_eq!(buffer[9..], [1, 2, 0, 0, 0, 0]);
}

#[test]
fn overwrite_cuts_a_long_payload() {
    let mut buffer = vec![4u8; 9 + 3];
    assert_eq!(overwrite(&mut buffer, &[1, 2, 3, 4, 5]), Ok(()));
    assert_eq!(buffer, vec![4, 4, 4, 4, 4, 4, 4, 4, 4, 1, 2, 3]);
}

#[test]
fn overwrite_with_no_payload_clears_the_room() {
    let mut buffer = vec![4u8; 9 + 3];
    assert_eq!(overwrite(&mut buffer, &[]), Ok(()));
    assert_eq!(buffer, vec![4, 4, 4, 4, 4, 4, 4, 4, 4, 0, 0, 0]);
}

#[test]
fn overwrite_of_a_buffer_without_room_changes_nothing() {
    let mut buffer = vec![4u8; 9];
    assert_eq!(overwrite(&mut buffer, &[1, 2, 3]), Ok(()));
    assert_eq!(buffer, vec![4u8; 9]);
}

#[test]
fn overwrite_needs_a_header() {
    let mut buffer = vec![4u8; 8];
    let rejection = overwrite(&mut buffer, &[1]).unwrap_err();
    assert_eq!(rejection.kind, EchoError::NotInitialized);
    assert_eq!(buffer, vec![4u8; 8]);
}

#[test]
fn overwrite_forgets_the_write_before() {
    let mut twice = vec![0u8; 9 + 8];
    assert_eq!(overwrite(&mut twice, &[1, 2, 3, 4, 5, 6, 7]), Ok(()));
    assert_eq!(overwrite(&mut twice, &[9, 9]), Ok(()));
    let mut once = vec![0u8; 9 + 8];
    assert_eq!(overwrite(&mut once, &[9, 9]), Ok(()));
    assert_eq!(twice, once);
    assert_eq!(twice[9..], [9, 9, 0, 0, 0, 0, 0, 0]);
}
