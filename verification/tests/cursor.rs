use hxa::cursor::{to_signed_32, to_signed_64};
use hxa::{ByteCursor, HXAError};

#[test]
fn read_u32_is_little_endian() {
    let mut cursor = ByteCursor::new(vec![0x78, 0x56, 0x34, 0x12, 0xff]);
    assert_eq!(cursor.read_u32(), Ok(0x1234_5678));
    assert_eq!(cursor.offset(), 4);
    assert_eq!(cursor.read_u32(), Err(HXAError::UnexpectedEof));
    assert_eq!(cursor.offset(), 4);
    assert_eq!(cursor.read_u8(), Ok(0xff));
    assert_eq!(cursor.remaining(), 0);
}

#[test]
fn read_u8_at_the_end_fails() {
    let mut cursor = ByteCursor::new(Vec::new());
    assert_eq!(cursor.read_u8(), Err(HXAError::UnexpectedEof));
    assert_eq!(cursor.offset(), 0);
}

#[test]
fn read_i32_is_twos_complement() {
    let mut bytes = Vec::new();
    for v in [0i32, 1, -1, i32::MIN, i32::MAX, -123_456_789] {
        bytes.extend_from_slice(&v.to_le_bytes());
    }
    let mut cursor = ByteCursor::new(bytes);
    for v in [0i32, 1, -1, i32::MIN, i32::MAX, -123_456_789] {
        assert_eq!(cursor.read_i32(), Ok(v));
    }
    assert_eq!(cursor.read_i32(), Err(HXAError::UnexpectedEof));
}

#[test]
fn read_u64_and_i64_agree_with_std() {
    let unsigned = [0u64, 1, u64::MAX, 0x0123_4567_89ab_cdef, 0x8000_0000_0000_0000];
    let signed = [0i64, -1, i64::MIN, i64::MAX, -0x0123_4567_89ab_cdef];
    let mut bytes = Vec::new();
    for v in unsigned {
        bytes.extend_from_slice(&v.to_le_bytes());
    }
    for v in signed {
        bytes.extend_from_slice(&v.to_le_bytes());
    }
    let mut cursor = ByteCursor::new(bytes);
    for v in unsigned {
        assert_eq!(cursor.read_u64(), Ok(v));
    }
    for v in signed {
        assert_eq!(cursor.read_i64(), Ok(v));
    }
    assert_eq!(cursor.remaining(), 0);
}

#[test]
fn read_u64_needs_all_eight_bytes() {
    let mut cursor = ByteCursor::new(vec![1, 2, 3, 4, 5, 6, 7]);
    assert_eq!(cursor.read_u64(), Err(HXAError::UnexpectedEof));
    assert_eq!(cursor.offset(), 0);
    assert_eq!(cursor.read_i64(), Err(HXAError::UnexpectedEof));
    assert_eq!(cursor.offset(), 0);
}

#[test]
fn signed_conversions_keep_the_bits() {
    assert_eq!(to_signed_32(0), 0);
    assert_eq!(to_signed_32(0x7fff_ffff), i32::MAX);
    assert_eq!(to_signed_32(0x8000_0000), i32::MIN);
    assert_eq!(to_signed_32(0xffff_ffff), -1);
    assert_eq!(to_signed_64(0x7fff_ffff_ffff_ffff), i64::MAX);
    assert_eq!(to_signed_64(0x8000_0000_0000_0000), i64::MIN);
    assert_eq!(to_signed_64(u64::MAX), -1);
}

#[test]
fn read_f32_and_f64_give_the_bit_patterns() {
    let mut bytes = Vec::new();
    bytes.extend_from_slice(&1.5f32.to_le_bytes());
    bytes.extend_from_slice(&(-2.25f64).to_le_bytes());
    let mut cursor = ByteCursor::new(bytes);
    assert_eq!(cursor.read_f32().map(f32::from_bits), Ok(1.5f32));
    assert_eq!(cursor.read_f64().map(f64::from_bits), Ok(-2.25f64));
    assert_eq!(cursor.read_f32(), Err(HXAError::UnexpectedEof));
}

#[test]
fn read_exact_takes_the_next_bytes() {
    let mut cursor = ByteCursor::new(vec![1, 2, 3, 4, 5]);
    assert_eq!(cursor.read_exact(0), Ok(vec![]));
    assert_eq!(cursor.read_exact(2), Ok(vec![1, 2]));
    assert_eq!(cursor.read_exact(4), Err(HXAError::UnexpectedEof));
    assert_eq!(cursor.offset(), 2);
    assert_eq!(cursor.read_exact(3), Ok(vec![3, 4, 5]));
    assert_eq!(cursor.read_exact(1), Err(HXAError::UnexpectedEof));
}

#[test]
fn read_utf8_decodes_text() {
    let text = "héllo, 世界";
    let mut bytes = text.as_bytes().to_vec();
    bytes.push(b'!');
    let mut cursor = ByteCursor::new(bytes);
    assert_eq!(cursor.read_utf8(text.len()), Ok(String::from(text)));
    assert_eq!(cursor.offset(), text.len());
    assert_eq!(cursor.read_utf8(1), Ok(String::from("!")));
    assert_eq!(cursor.read_utf8(0), Ok(String::new()));
}

#[test]
fn read_utf8_refuses_invalid_bytes() {
    let mut cursor = ByteCursor::new(vec![b'a', 0xff, b'b']);
    assert_eq!(cursor.read_utf8(3), Err(HXAError::InvalidUtf8));
    assert_eq!(cursor.offset(), 0);
    assert_eq!(cursor.read_utf8(1), Ok(String::from("a")));
    // A text cut inside a character is invalid too.
    let mut cut = ByteCursor::new("é".as_bytes()[..1].to_vec());
    assert_eq!(cut.read_utf8(1), Err(HXAError::InvalidUtf8));
}

#[test]
fn read_utf8_reports_a_short_stream_before_the_encoding() {
    let mut cursor = ByteCursor::new(vec![0xff, 0xff]);
    assert_eq!(cursor.read_utf8(3), Err(HXAError::UnexpectedEof));
    assert_eq!(cursor.offset(), 0);
}

#[test]
fn arrays_are_read_whole_or_not_at_all() {
    let mut bytes = Vec::new();
    for v in [7i32, -8, 9] {
        bytes.extend_from_slice(&v.to_le_bytes());
    }
    let mut cursor = ByteCursor::new(bytes.clone());
    assert_eq!(cursor.read_i32_array(3), Ok(vec![7, -8, 9]));
    assert_eq!(cursor.remaining(), 0);

    bytes.pop();
    let mut short = ByteCursor::new(bytes);
    assert_eq!(short.read_i32_array(3), Err(HXAError::UnexpectedEof));
    assert_eq!(short.offset(), 0);
    assert_eq!(short.read_i32_array(2), Ok(vec![7, -8]));
    assert_eq!(short.offset(), 8);
}

#[test]
fn arrays_of_each_width() {
    let mut bytes = vec![1u8, 2, 3];
    for v in [0xdead_beefu32, 1] {
        bytes.extend_from_slice(&v.to_le_bytes());
    }
    for v in [-5i64, i64::MAX] {
        bytes.extend_from_slice(&v.to_le_bytes());
    }
    for v in [u64::MAX, 42] {
        bytes.extend_from_slice(&v.to_le_bytes());
    }
    let mut cursor = ByteCursor::new(bytes);
    assert_eq!(cursor.read_u8_array(3), Ok(vec![1, 2, 3]));
    assert_eq!(cursor.read_u32_array(2), Ok(vec![0xdead_beef, 1]));
    assert_eq!(cursor.read_i64_array(2), Ok(vec![-5, i64::MAX]));
    assert_eq!(cursor.read_u64_array(2), Ok(vec![u64::MAX, 42]));
    assert_eq!(cursor.read_u8_array(0), Ok(vec![]));
    assert_eq!(cursor.read_u8_array(1), Err(HXAError::UnexpectedEof));
    assert_eq!(cursor.read_u64_array(1), Err(HXAError::UnexpectedEof));
}

#[test]
fn huge_counts_fail_without_reading() {
    let mut cursor = ByteCursor::new(vec![0; 16]);
    assert_eq!(cursor.read_u8_array(u64::MAX), Err(HXAError::UnexpectedEof));
    assert_eq!(cursor.read_i32_array(u64::MAX), Err(HXAError::UnexpectedEof));
    assert_eq!(cursor.read_u32_array(1 << 62), Err(HXAError::UnexpectedEof));
    assert_eq!(cursor.read_i64_array(u64::MAX / 8 + 1), Err(HXAError::UnexpectedEof));
    assert_eq!(cursor.read_u64_array(3), Err(HXAError::UnexpectedEof));
    assert_eq!(cursor.offset(), 0);
    assert_eq!(cursor.read_u64_array(2), Ok(vec![0, 0]));
}
