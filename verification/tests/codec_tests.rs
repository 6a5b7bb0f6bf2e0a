use wdk::device::{Access, DeviceType};
use wdk::error::{ErrorKind, Status};
use wdk::pool::{PoolType, TaggedPool};
use wdk::rb_tree::{Color, Node, RedBlackTree};
use wdk::reg::{parse_value, RegValue, REG_DWORD, REG_MULTI_SZ};
use wdk::request::{ControlCode, IoRequest, RequiredAccess};
use wdk::strings::{AnsiString, UnicodeString};

#[test]
fn device_type_codes_match_the_external_encoding() {
    assert_eq!(DeviceType::Beep.to_code(), 0x01);
    assert_eq!(DeviceType::Disk.to_code(), 0x07);
    assert_eq!(DeviceType::Unknown.to_code(), 0x22);
    assert_eq!(DeviceType::Port8042.to_code(), 0x27);
    assert_eq!(DeviceType::Fips.to_code(), 0x3A);
    assert_eq!(DeviceType::from_code(0x07), DeviceType::Disk);
    assert_eq!(DeviceType::from_code(0x27), DeviceType::Port8042);
    // Unassigned codes decode to Unknown.
    assert_eq!(DeviceType::from_code(0x0), DeviceType::Unknown);
    assert_eq!(DeviceType::from_code(0xFFFF), DeviceType::Unknown);
}

#[test]
fn device_type_codes_round_trip() {
    for t in [
        DeviceType::Beep,
        DeviceType::Disk,
        DeviceType::Keyboard,
        DeviceType::Network,
        DeviceType::Unknown,
        DeviceType::Port8042,
        DeviceType::MassStorage,
        DeviceType::Fips,
    ] {
        assert_eq!(DeviceType::from_code(t.to_code()), t);
    }
}

#[test]
fn control_code_decomposes() {
    // Disk device, read access, function 0x123, buffered method.
    let code = ControlCode((0x07 << 16) | (1 << 14) | (0x123 << 2));
    assert_eq!(code.device_type(), DeviceType::Disk);
    let (access, function) = code.function();
    assert_eq!(access, RequiredAccess::Read);
    assert_eq!(function, 0x123);
}

#[test]
fn error_kinds_map_to_their_status_codes() {
    assert_eq!(ErrorKind::AllocationFailure.to_status(), Status::InsufficientResources);
    assert_eq!(ErrorKind::BufferOverflow.to_status(), Status::BufferOverflow);
    assert_eq!(ErrorKind::InvalidParameter.to_status(), Status::InvalidParameter);
    assert_eq!(ErrorKind::EndOfFile.to_status(), Status::EndOfFile);
    assert_eq!(ErrorKind::UserAccessFailure.to_status(), Status::InvalidParameter);
}

#[test]
fn access_knows_exclusivity() {
    assert!(Access::Exclusive.is_exclusive());
    assert!(!Access::NonExclusive.is_exclusive());
}

#[test]
fn user_buffer_bounds_are_checked() {
    let mut request = IoRequest::new(vec![1, 2, 3, 4], 0, 0);
    assert_eq!(request.read_user(1, 2).ok(), Some(vec![2, 3]));
    assert_eq!(request.read_user(3, 2), Err(ErrorKind::UserAccessFailure));
    assert_eq!(request.write_user(2, &[9, 9]), Ok(()));
    assert_eq!(request.write_user(3, &[9, 9]), Err(ErrorKind::UserAccessFailure));
    let done = request.complete(Ok(4));
    assert_eq!(done.data, vec![1, 2, 9, 9]);
    assert_eq!(done.status, Status::Success);
    assert_eq!(done.bytes_transferred, 4);
}

#[test]
fn unicode_string_round_trips_its_units() {
    let mut pool = TaggedPool::new(1 << 16);
    let units = [0x48u16, 0x69, 0x2192, 0x21];
    let s = UnicodeString::from_utf16(&units, PoolType::PagedPool, 2, &mut pool).unwrap();
    let raw = s.to_unicode_string();
    assert_eq!(raw.length, 8);
    assert_eq!(raw.maximum_length, 8);
    assert_eq!(raw.buffer, units.to_vec());
    s.destroy(&mut pool);
    assert_eq!(pool.in_use(), 0);
}

#[test]
fn ansi_string_narrows_with_substitution() {
    let mut pool = TaggedPool::new(1 << 16);
    // 'A', 'b', a unit above 0xFF, 0xFF itself.
    let units = [0x41u16, 0x62, 0x2192, 0xFF];
    let s = AnsiString::from_utf16(&units, PoolType::PagedPool, 3, &mut pool).unwrap();
    let raw = s.to_ansi_string();
    assert_eq!(raw.length, 4);
    assert_eq!(raw.buffer, vec![0x41, 0x62, 0x3F, 0xFF]);
    s.destroy(&mut pool);
}

#[test]
fn reg_dword_reads_little_endian() {
    let mut pool = TaggedPool::new(1 << 16);
    let data = [0x78, 0x56, 0x34, 0x12];
    match parse_value(REG_DWORD, &data, PoolType::PagedPool, 4, &mut pool) {
        Ok(RegValue::RegDword(v)) => assert_eq!(v, 0x1234_5678),
        _ => panic!("expected a double word"),
    }
}

#[test]
fn reg_multi_sz_splits_on_zero_words() {
    let mut pool = TaggedPool::new(1 << 16);
    // "ab\0c\0" followed by the blob terminator and a stray zero word.
    let words: [u16; 8] = [0x61, 0x62, 0, 0x63, 0, 0, 0, 0];
    let mut data: Vec<u8> = Vec::new();
    for w in words {
        data.push((w & 0xFF) as u8);
        data.push((w >> 8) as u8);
    }
    match parse_value(REG_MULTI_SZ, &data, PoolType::PagedPool, 5, &mut pool) {
        Ok(RegValue::RegMultiSz(strings)) => {
            let views: Vec<Vec<u16>> =
                strings.iter().map(|s| s.to_unicode_string().buffer).collect();
            assert_eq!(views, vec![vec![0x61, 0x62], vec![0x63]]);
        },
        _ => panic!("expected a multi-string"),
    }
}

#[test]
fn rb_tree_starts_empty_and_counts_absent_nodes_black() {
    let _tree: RedBlackTree<u32, u32> = RedBlackTree::new(PoolType::PagedPool, 6);
    assert!(!RedBlackTree::<u32, u32>::is_red(&None));
    let node = Node { key: 1u32, value: 2u32, left: None, right: None, color: Color::Red };
    assert!(RedBlackTree::<u32, u32>::is_red(&Some(node)));
}

#[test]
fn reg_multi_sz_failure_releases_partial_strings() {
    // Budget for one string buffer but not two: decoding fails partway and
    // must give every taken allocation back.
    let mut pool = TaggedPool::new(40);
    let words: [u16; 5] = [0x61, 0, 0x62, 0, 0];
    let mut data: Vec<u8> = Vec::new();
    for w in words {
        data.push((w & 0xFF) as u8);
        data.push((w >> 8) as u8);
    }
    let r = parse_value(REG_MULTI_SZ, &data, PoolType::PagedPool, 9, &mut pool);
    assert!(matches!(r, Err(ErrorKind::AllocationFailure)));
    assert_eq!(pool.in_use(), 0);
    assert_eq!(pool.live_with_tag(9), 0);
}
