use binreader::num_getters::{
    at_method_name, expansion_order, i8_number, next_method_name, numbers, NumberInfo, Substitute,
};
use binreader::util::ByteCollector;
use binreader::{
    BinReader, BorrowedBinReaderIter, ConsumingBinReader, Endidness, Error, MmapBinReader,
    OwnableBinReader, RandomAccessBinReader, SliceAsRefBinReader, SliceRefBinReader,
    SliceableBinReader,
};
use bytes::Bytes;

const SIXTEEN: [u8; 16] = [
    0x00, 0x01, 0x02, 0x03, 0x04, 0x05, 0x06, 0x07, 0x08, 0x09, 0x0a, 0x0b, 0x0c, 0x0d, 0x0e, 0x0f,
];

const EIGHT: [u8; 8] = [0x10, 0x11, 0x12, 0x13, 0x14, 0x15, 0x16, 0x17];

fn fresh_reader_stands_at_its_offset<B: BinReader<'static>>(k: usize) {
    let reader = B::from_slice_with_offset(&SIXTEEN, k, Endidness::Big).unwrap();
    assert_eq!(reader.current_offset(), k);
    assert_eq!(reader.initial_offset(), k);
    assert_eq!(reader.remaining(), reader.size());
    assert_eq!(reader.size(), 16);
    assert!(!reader.is_empty());
}

#[test]
fn construction_puts_cursor_at_initial_offset() {
    for k in [0usize, 1, 100, 4096, usize::MAX - 16] {
        fresh_reader_stands_at_its_offset::<SliceRefBinReader>(k);
        fresh_reader_stands_at_its_offset::<RandomAccessBinReader>(k);
        fresh_reader_stands_at_its_offset::<ConsumingBinReader>(k);
        fresh_reader_stands_at_its_offset::<MmapBinReader>(k);
        fresh_reader_stands_at_its_offset::<SliceAsRefBinReader<Vec<u8>>>(k);
    }
}

#[test]
fn empty_reader_is_exhausted_from_the_start() {
    let empty: &'static [u8] = &[];
    let mut reader = SliceRefBinReader::from_slice_with_offset(empty, 7, Endidness::Big).unwrap();
    assert_eq!(reader.size(), 0);
    assert_eq!(reader.remaining(), 0);
    assert!(reader.is_empty());
    assert_eq!(reader.current_offset(), 7);
    assert!(matches!(reader.next_u8(), Err(Error::NoMoreData)));
    assert!(matches!(reader.validate_offset(7, 0), Ok(())));
    assert!(matches!(reader.u8_at(7), Err(Error::OffsetTooLarge(7))));
    assert_eq!(reader.get_remaining().unwrap(), empty);
}

fn reading_every_byte_gives_the_data_back<B: BinReader<'static>>() {
    let mut reader = B::from_slice_with_offset(&SIXTEEN, 33, Endidness::Unknown).unwrap();
    let mut seen = Vec::new();
    for _ in 0..reader.size() {
        seen.push(reader.next_u8().unwrap());
    }
    assert_eq!(seen, SIXTEEN.to_vec());
    assert_eq!(reader.remaining(), 0);
    assert!(reader.is_empty());
    assert_eq!(reader.current_offset(), 33 + 16);
    assert!(matches!(reader.next_u8(), Err(Error::NoMoreData)));
    assert_eq!(reader.current_offset(), 33 + 16);
}

#[test]
fn repeated_next_byte_reproduces_the_bytes() {
    reading_every_byte_gives_the_data_back::<SliceRefBinReader>();
    reading_every_byte_gives_the_data_back::<RandomAccessBinReader>();
    reading_every_byte_gives_the_data_back::<ConsumingBinReader>();
    reading_every_byte_gives_the_data_back::<MmapBinReader>();
    reading_every_byte_gives_the_data_back::<SliceAsRefBinReader<Bytes>>();
}

fn refused_reads_leave_the_cursor<B: BinReader<'static>>() {
    let mut reader = B::from_slice_with_offset(&EIGHT, 100, Endidness::Big).unwrap();
    reader.advance_to(105).unwrap();
    assert!(matches!(reader.next_u32(), Err(Error::NotEnoughData(4, 3))));
    assert_eq!(reader.current_offset(), 105);
    assert!(matches!(reader.next_u64_le(), Err(Error::NotEnoughData(8, 3))));
    assert_eq!(reader.current_offset(), 105);
    assert!(matches!(reader.next_u128_be(), Err(Error::NotEnoughData(16, 3))));
    assert_eq!(reader.current_offset(), 105);
    let mut buf = [0xeeu8; 5];
    assert!(matches!(reader.next_bytes(&mut buf), Err(Error::NotEnoughData(5, 3))));
    assert_eq!(buf, [0xee; 5]);
    assert_eq!(reader.current_offset(), 105);
    assert!(matches!(reader.advance_to(109), Err(Error::OffsetTooLarge(109))));
    assert_eq!(reader.current_offset(), 105);
    assert!(matches!(reader.advance_to(99), Err(Error::OffsetTooSmall(99))));
    assert_eq!(reader.current_offset(), 105);
    assert!(matches!(reader.advance_by(4), Err(Error::OffsetTooLarge(109))));
    assert_eq!(reader.current_offset(), 105);
    assert_eq!(reader.remaining(), 3);
    assert_eq!(reader.next_u16().unwrap(), 0x1516);
    assert_eq!(reader.current_offset(), 107);
}

#[test]
fn failed_validation_never_moves_the_cursor() {
    refused_reads_leave_the_cursor::<SliceRefBinReader>();
    refused_reads_leave_the_cursor::<RandomAccessBinReader>();
    refused_reads_leave_the_cursor::<ConsumingBinReader>();
    refused_reads_leave_the_cursor::<MmapBinReader>();
    refused_reads_leave_the_cursor::<SliceAsRefBinReader<Vec<u8>>>();
}

#[test]
fn not_enough_data_scenario() {
    let mut reader = SliceRefBinReader::from_slice(&EIGHT, Endidness::Big).unwrap();
    reader.advance_to(5).unwrap();
    assert!(matches!(reader.next_n_bytes(5), Err(Error::NotEnoughData(5, 3))));
    assert_eq!(reader.current_offset(), 5);
    assert_eq!(reader.remaining(), 3);
    assert!(matches!(reader.subseq(5, 5), Err(Error::NotEnoughData(5, 3))));
    assert!(matches!(reader.next_n_bytes_as_reader(5), Err(Error::NotEnoughData(5, 3))));
    assert_eq!(reader.current_offset(), 5);
    assert!(matches!(
        reader.next_n_bytes_as_reader_retain_offset(5),
        Err(Error::NotEnoughData(5, 3))
    ));
    assert_eq!(reader.current_offset(), 5);
    assert_eq!(reader.next_n_bytes(3).unwrap(), &EIGHT[5..]);
    assert_eq!(reader.current_offset(), 8);
}

#[test]
fn offset_window_scenario() {
    let reader = SliceRefBinReader::from_slice_with_offset(&EIGHT, 100, Endidness::Big).unwrap();
    assert!(matches!(reader.u8_at(99), Err(Error::OffsetTooSmall(99))));
    assert!(matches!(reader.u8_at(108), Err(Error::OffsetTooLarge(108))));
    assert!(matches!(reader.u8_at(109), Err(Error::OffsetTooLarge(109))));
    assert_eq!(reader.u8_at(100).unwrap(), 0x10);
    assert_eq!(reader.u8_at(107).unwrap(), 0x17);
    assert_eq!(reader.lower_offset_limit(), 100);
    assert_eq!(reader.upper_offset_limit(), 108);
}

#[test]
fn words_scenario() {
    let mut le = SliceRefBinReader::from_slice(&SIXTEEN, Endidness::Little).unwrap();
    let mut words = Vec::new();
    while !le.is_empty() {
        words.push(le.next_u32().unwrap());
    }
    assert_eq!(words, vec![0x03020100, 0x07060504, 0x0b0a0908, 0x0f0e0d0c]);
    let mut be = SliceRefBinReader::from_slice(&SIXTEEN, Endidness::Big).unwrap();
    let mut words = Vec::new();
    while !be.is_empty() {
        words.push(be.next_u32().unwrap());
    }
    assert_eq!(words, vec![0x00010203, 0x04050607, 0x08090a0b, 0x0c0d0e0f]);
}

#[test]
fn validation_rules_in_order() {
    let mut reader = SliceRefBinReader::from_slice_with_offset(&EIGHT, 100, Endidness::Big)
        .unwrap();
    assert!(matches!(reader.validate_offset(100, 8), Ok(())));
    assert!(matches!(reader.validate_offset(108, 0), Ok(())));
    assert!(matches!(reader.validate_offset(99, 1), Err(Error::OffsetTooSmall(99))));
    assert!(matches!(reader.validate_offset(109, 0), Err(Error::OffsetTooLarge(109))));
    assert!(matches!(reader.validate_offset(101, 8), Err(Error::NotEnoughData(8, 8))));
    assert!(matches!(
        reader.validate_offset(100, usize::MAX),
        Err(Error::NotEnoughData(usize::MAX, 8))
    ));
    assert!(matches!(reader.validate_offset(108, 1), Err(Error::NotEnoughData(1, 8))));
    reader.advance_to(108).unwrap();
    assert!(matches!(reader.validate_offset(100, 1), Err(Error::NoMoreData)));
    assert!(matches!(reader.validate_offset(99, 1), Err(Error::NoMoreData)));
    assert!(matches!(reader.validate_offset(99, 0), Err(Error::OffsetTooSmall(99))));
    assert!(matches!(reader.validate_offset(100, 0), Ok(())));
    assert!(matches!(reader.u16_be_at(100), Err(Error::NoMoreData)));
    assert_eq!(reader.u8_at(100).unwrap(), 0x10);
}

#[test]
fn unknown_endidness_refuses_dispatch_only() {
    let mut reader = SliceRefBinReader::from_slice(&SIXTEEN, Endidness::Unknown).unwrap();
    assert!(matches!(reader.u16_at(0), Err(Error::UnknownEndidness)));
    assert!(matches!(reader.u32_at(0), Err(Error::UnknownEndidness)));
    assert!(matches!(reader.u64_at(0), Err(Error::UnknownEndidness)));
    assert!(matches!(reader.u128_at(0), Err(Error::UnknownEndidness)));
    assert!(matches!(reader.i16_at(0), Err(Error::UnknownEndidness)));
    assert!(matches!(reader.i32_at(0), Err(Error::UnknownEndidness)));
    assert!(matches!(reader.i64_at(0), Err(Error::UnknownEndidness)));
    assert!(matches!(reader.i128_at(0), Err(Error::UnknownEndidness)));
    assert!(matches!(reader.next_u16(), Err(Error::UnknownEndidness)));
    assert!(matches!(reader.next_i64(), Err(Error::UnknownEndidness)));
    assert!(matches!(reader.u16_at(400), Err(Error::UnknownEndidness)));
    assert!(matches!(reader.uint_at(0, 2, Endidness::Unknown), Err(Error::UnknownEndidness)));
    assert!(matches!(reader.next_uint(2, Endidness::Unknown), Err(Error::UnknownEndidness)));
    assert_eq!(reader.current_offset(), 0);
    assert_eq!(reader.u16_be_at(0).unwrap(), 0x0001);
    assert_eq!(reader.u16_le_at(0).unwrap(), 0x0100);
    assert_eq!(reader.next_u8().unwrap(), 0);
    assert_eq!(reader.next_i8().unwrap(), 1);
    reader.change_endidness(Endidness::Little);
    assert_eq!(reader.endidness(), Endidness::Little);
    assert_eq!(reader.u16_at(0).unwrap(), 0x0100);
    assert_eq!(reader.next_u16().unwrap(), 0x0302);
    reader.change_endidness(Endidness::Big);
    assert_eq!(reader.next_u16().unwrap(), 0x0405);
    assert_eq!(reader.current_offset(), 6);
}

#[test]
fn error_variants_exist() {
    let io = Error::IoError(std::io::Error::new(std::io::ErrorKind::Other, "gone"));
    assert!(matches!(io, Error::IoError(_)));
    let other = Error::Other(String::from("bad"));
    assert!(matches!(other, Error::Other(ref s) if s == "bad"));
    assert_eq!(format!("{:?}", Error::NotEnoughData(5, 3)), "NotEnoughData(5, 3)");
    assert_eq!(format!("{:?}", Error::NoMoreData), "NoMoreData");
}

fn round_trip_at<B: BinReader<'static>>(bytes: &'static [u8]) -> B {
    B::from_slice_with_offset(bytes, 9, Endidness::Unknown).unwrap()
}

fn leak(bytes: Vec<u8>) -> &'static [u8] {
    Box::leak(bytes.into_boxed_slice())
}

#[test]
fn round_trip_u16() {
    for v in [0u16, u16::MAX, u16::MIN, 0x1234, 0x8000, 0x00ff] {
        let mut be = round_trip_at::<SliceRefBinReader>(leak(v.to_be_bytes().to_vec()));
        assert_eq!(be.u16_be_at(9).unwrap(), v);
        assert_eq!(be.current_u16_be().unwrap(), v);
        assert_eq!(be.next_u16_be().unwrap(), v);
        assert_eq!(be.current_offset(), 11);
        let mut le = round_trip_at::<SliceRefBinReader>(leak(v.to_le_bytes().to_vec()));
        assert_eq!(le.u16_le_at(9).unwrap(), v);
        assert_eq!(le.current_u16_le().unwrap(), v);
        assert_eq!(le.next_u16_le().unwrap(), v);
        assert_eq!(le.current_offset(), 11);
    }
}

#[test]
fn round_trip_i16() {
    for v in [0i16, i16::MAX, i16::MIN, -1, 0x1234, -0x1234] {
        let mut be = round_trip_at::<RandomAccessBinReader>(leak(v.to_be_bytes().to_vec()));
        assert_eq!(be.i16_be_at(9).unwrap(), v);
        assert_eq!(be.current_i16_be().unwrap(), v);
        assert_eq!(be.next_i16_be().unwrap(), v);
        let mut le = round_trip_at::<RandomAccessBinReader>(leak(v.to_le_bytes().to_vec()));
        assert_eq!(le.i16_le_at(9).unwrap(), v);
        assert_eq!(le.current_i16_le().unwrap(), v);
        assert_eq!(le.next_i16_le().unwrap(), v);
    }
}

#[test]
fn round_trip_u32() {
    for v in [0u32, u32::MAX, u32::MIN, 0x1234_5678, 0x8000_0000] {
        let mut be = round_trip_at::<ConsumingBinReader>(leak(v.to_be_bytes().to_vec()));
        assert_eq!(be.u32_be_at(9).unwrap(), v);
        assert_eq!(be.current_u32_be().unwrap(), v);
        assert_eq!(be.next_u32_be().unwrap(), v);
        assert_eq!(be.current_offset(), 13);
        let mut le = round_trip_at::<ConsumingBinReader>(leak(v.to_le_bytes().to_vec()));
        assert_eq!(le.u32_le_at(9).unwrap(), v);
        assert_eq!(le.current_u32_le().unwrap(), v);
        assert_eq!(le.next_u32_le().unwrap(), v);
    }
}

#[test]
fn round_trip_i32() {
    for v in [0i32, i32::MAX, i32::MIN, -1, 0x1234_5678, -0x1234_5678] {
        let mut be = round_trip_at::<MmapBinReader>(leak(v.to_be_bytes().to_vec()));
        assert_eq!(be.i32_be_at(9).unwrap(), v);
        assert_eq!(be.current_i32_be().unwrap(), v);
        assert_eq!(be.next_i32_be().unwrap(), v);
        let mut le = round_trip_at::<MmapBinReader>(leak(v.to_le_bytes().to_vec()));
        assert_eq!(le.i32_le_at(9).unwrap(), v);
        assert_eq!(le.current_i32_le().unwrap(), v);
        assert_eq!(le.next_i32_le().unwrap(), v);
    }
}

#[test]
fn round_trip_u64() {
    for v in [0u64, u64::MAX, u64::MIN, 0x0123_4567_89ab_cdef, 1 << 63] {
        let mut be = round_trip_at::<SliceRefBinReader>(leak(v.to_be_bytes().to_vec()));
        assert_eq!(be.u64_be_at(9).unwrap(), v);
        assert_eq!(be.current_u64_be().unwrap(), v);
        assert_eq!(be.next_u64_be().unwrap(), v);
        assert_eq!(be.current_offset(), 17);
        let mut le = round_trip_at::<SliceRefBinReader>(leak(v.to_le_bytes().to_vec()));
        assert_eq!(le.u64_le_at(9).unwrap(), v);
        assert_eq!(le.current_u64_le().unwrap(), v);
        assert_eq!(le.next_u64_le().unwrap(), v);
    }
}

#[test]
fn round_trip_i64() {
    for v in [0i64, i64::MAX, i64::MIN, -1, 0x0123_4567_89ab_cdef, -0x0123_4567_89ab_cdef] {
        let mut be = round_trip_at::<SliceRefBinReader>(leak(v.to_be_bytes().to_vec()));
        assert_eq!(be.i64_be_at(9).unwrap(), v);
        assert_eq!(be.current_i64_be().unwrap(), v);
        assert_eq!(be.next_i64_be().unwrap(), v);
        let mut le = round_trip_at::<SliceRefBinReader>(leak(v.to_le_bytes().to_vec()));
        assert_eq!(le.i64_le_at(9).unwrap(), v);
        assert_eq!(le.current_i64_le().unwrap(), v);
        assert_eq!(le.next_i64_le().unwrap(), v);
    }
}

#[test]
fn round_trip_u128() {
    for v in [
        0u128,
        u128::MAX,
        u128::MIN,
        0x0123_4567_89ab_cdef_fedc_ba98_7654_3210,
        1 << 127,
        (1 << 64) + 1,
    ] {
        let mut be = round_trip_at::<SliceRefBinReader>(leak(v.to_be_bytes().to_vec()));
        assert_eq!(be.u128_be_at(9).unwrap(), v);
        assert_eq!(be.current_u128_be().unwrap(), v);
        assert_eq!(be.next_u128_be().unwrap(), v);
        assert_eq!(be.current_offset(), 25);
        let mut le = round_trip_at::<SliceRefBinReader>(leak(v.to_le_bytes().to_vec()));
        assert_eq!(le.u128_le_at(9).unwrap(), v);
        assert_eq!(le.current_u128_le().unwrap(), v);
        assert_eq!(le.next_u128_le().unwrap(), v);
    }
}

#[test]
fn round_trip_i128() {
    for v in [
        0i128,
        i128::MAX,
        i128::MIN,
        -1,
        0x0123_4567_89ab_cdef_fedc_ba98_7654_3210,
        -0x0123_4567_89ab_cdef_fedc_ba98_7654_3210,
    ] {
        let mut be = round_trip_at::<SliceRefBinReader>(leak(v.to_be_bytes().to_vec()));
        assert_eq!(be.i128_be_at(9).unwrap(), v);
        assert_eq!(be.current_i128_be().unwrap(), v);
        assert_eq!(be.next_i128_be().unwrap(), v);
        let mut le = round_trip_at::<SliceRefBinReader>(leak(v.to_le_bytes().to_vec()));
        assert_eq!(le.i128_le_at(9).unwrap(), v);
        assert_eq!(le.current_i128_le().unwrap(), v);
        assert_eq!(le.next_i128_le().unwrap(), v);
    }
}

#[test]
fn round_trip_i8() {
    for v in [0i8, i8::MAX, i8::MIN, -1, 0x12] {
        let mut reader = round_trip_at::<SliceRefBinReader>(leak(v.to_ne_bytes().to_vec()));
        assert_eq!(reader.i8_ne_at(9).unwrap(), v);
        assert_eq!(reader.current_i8_ne().unwrap(), v);
        assert_eq!(reader.next_i8_ne().unwrap(), v);
        assert_eq!(reader.current_offset(), 10);
        let mut again = round_trip_at::<SliceRefBinReader>(leak(v.to_ne_bytes().to_vec()));
        assert_eq!(again.next_i8().unwrap(), v);
        assert!(matches!(again.next_i8(), Err(Error::NoMoreData)));
        assert!(matches!(again.i8_ne_at(9), Err(Error::NoMoreData)));
    }
}

#[test]
fn dispatching_reads_follow_the_reader() {
    let be = SliceRefBinReader::from_slice(&SIXTEEN, Endidness::Big).unwrap();
    assert_eq!(be.u16_at(2).unwrap(), 0x0203);
    assert_eq!(be.i16_at(2).unwrap(), 0x0203);
    assert_eq!(be.u32_at(2).unwrap(), 0x0203_0405);
    assert_eq!(be.i32_at(2).unwrap(), 0x0203_0405);
    assert_eq!(be.u64_at(2).unwrap(), 0x0203_0405_0607_0809);
    assert_eq!(be.i64_at(2).unwrap(), 0x0203_0405_0607_0809);
    assert_eq!(be.u128_at(0).unwrap(), 0x0001_0203_0405_0607_0809_0a0b_0c0d_0e0f);
    assert_eq!(be.i128_at(0).unwrap(), 0x0001_0203_0405_0607_0809_0a0b_0c0d_0e0f);
    let le = SliceRefBinReader::from_slice(&SIXTEEN, Endidness::Little).unwrap();
    assert_eq!(le.u16_at(2).unwrap(), 0x0302);
    assert_eq!(le.i16_at(2).unwrap(), 0x0302);
    assert_eq!(le.u32_at(2).unwrap(), 0x0504_0302);
    assert_eq!(le.i32_at(2).unwrap(), 0x0504_0302);
    assert_eq!(le.u64_at(2).unwrap(), 0x0908_0706_0504_0302);
    assert_eq!(le.i64_at(2).unwrap(), 0x0908_0706_0504_0302);
    assert_eq!(le.u128_at(0).unwrap(), 0x0f0e_0d0c_0b0a_0908_0706_0504_0302_0100);
    assert_eq!(le.i128_at(0).unwrap(), 0x0f0e_0d0c_0b0a_0908_0706_0504_0302_0100);
    assert_eq!(le.uint_at(1, 3, Endidness::Big).unwrap(), 0x010203);
    assert_eq!(le.uint_at(1, 3, Endidness::Little).unwrap(), 0x030201);
    assert_eq!(le.uint_at(1, 0, Endidness::Little).unwrap(), 0);
}

#[test]
fn negative_numbers_decode() {
    let data: &'static [u8] = &[0xff, 0xfe, 0x80, 0x00, 0xff, 0xff, 0xff, 0xff];
    let mut reader = SliceRefBinReader::from_slice(data, Endidness::Big).unwrap();
    assert_eq!(reader.i16_at(0).unwrap(), -2);
    assert_eq!(reader.i16_le_at(0).unwrap(), -257);
    assert_eq!(reader.i16_at(2).unwrap(), i16::MIN);
    assert_eq!(reader.i32_at(4).unwrap(), -1);
    assert_eq!(reader.i64_at(0).unwrap(), -0x0001_7fff_0000_0001);
    assert_eq!(reader.next_i8().unwrap(), -1);
    assert_eq!(reader.next_i16().unwrap(), -384);
}

fn advance_to_lands<B: BinReader<'static>>() {
    for offset in 50..=58usize {
        let mut reader = B::from_slice_with_offset(&EIGHT, 50, Endidness::Big).unwrap();
        reader.advance_to(offset).unwrap();
        assert_eq!(reader.current_offset(), offset);
        assert_eq!(reader.remaining(), 58 - offset);
    }
}

#[test]
fn advance_to_then_current_offset() {
    advance_to_lands::<SliceRefBinReader>();
    advance_to_lands::<RandomAccessBinReader>();
    advance_to_lands::<ConsumingBinReader>();
    advance_to_lands::<MmapBinReader>();
    advance_to_lands::<SliceAsRefBinReader<Vec<u8>>>();
}

#[test]
fn random_access_can_go_back() {
    let mut reader = RandomAccessBinReader::from_slice_with_offset(&EIGHT, 50, Endidness::Big)
        .unwrap();
    reader.advance_to(57).unwrap();
    assert_eq!(reader.next_u8().unwrap(), 0x17);
    reader.advance_to(50).unwrap();
    assert_eq!(reader.next_u8().unwrap(), 0x10);
    reader.advance_by(-1).unwrap();
    assert_eq!(reader.current_offset(), 50);
    reader.advance_by(8).unwrap();
    assert_eq!(reader.current_offset(), 58);
    reader.advance_by(-8).unwrap();
    assert_eq!(reader.current_offset(), 50);
    assert!(matches!(reader.advance_by(-1), Err(Error::OffsetTooSmall(49))));
    assert!(matches!(reader.advance_by(-50), Err(Error::OffsetTooSmall(0))));
    assert!(matches!(reader.advance_by(-51), Err(Error::OffsetTooSmall(0))));
    assert!(matches!(reader.advance_by(isize::MIN), Err(Error::OffsetTooSmall(0))));
    assert!(matches!(reader.advance_by(9), Err(Error::OffsetTooLarge(59))));
    assert!(matches!(
        reader.advance_by(isize::MAX),
        Err(Error::OffsetTooLarge(o)) if o == 50 + isize::MAX as usize
    ));
    assert_eq!(reader.current_offset(), 50);
    assert_eq!(reader.remaining(), 8);
}

#[test]
fn consuming_cannot_go_back() {
    let mut reader = ConsumingBinReader::from_slice_with_offset(&EIGHT, 50, Endidness::Big)
        .unwrap();
    assert_eq!(reader.lower_offset_limit(), 50);
    assert_eq!(reader.held_from(), 50);
    reader.advance_to(53).unwrap();
    assert_eq!(reader.current_offset(), 53);
    assert_eq!(reader.initial_offset(), 50);
    assert_eq!(reader.lower_offset_limit(), 50);
    assert_eq!(reader.held_from(), 53);
    assert_eq!(reader.upper_offset_limit(), 58);
    assert_eq!(reader.size(), 8);
    assert_eq!(reader.remaining(), 5);
    assert_eq!(reader.current_offset(), (reader.size() - reader.remaining()) + 50);
    assert_eq!(reader.as_ref(), &EIGHT[3..]);
    assert!(matches!(reader.validate_offset(50, 0), Ok(())));
    assert!(matches!(reader.validate_offset(52, 2), Ok(())));
    assert!(matches!(reader.validate_offset(49, 0), Err(Error::OffsetTooSmall(49))));
    assert!(matches!(reader.validate_access(50, 0), Err(Error::OffsetTooSmall(50))));
    assert!(matches!(reader.validate_access(53, 5), Ok(())));
    assert!(matches!(reader.advance_to(52), Err(Error::OffsetTooSmall(52))));
    assert!(matches!(reader.advance_to(50), Err(Error::OffsetTooSmall(50))));
    assert!(matches!(reader.advance_to(49), Err(Error::OffsetTooSmall(49))));
    assert!(matches!(reader.u8_at(52), Err(Error::OffsetTooSmall(52))));
    assert!(matches!(reader.u16_be_at(52), Err(Error::OffsetTooSmall(52))));
    assert!(matches!(reader.subseq(50, 2), Err(Error::OffsetTooSmall(50))));
    assert!(matches!(reader.range(52, 55), Err(Error::OffsetTooSmall(52))));
    assert!(matches!(reader.slice_reader(52, 55), Err(Error::OffsetTooSmall(52))));
    assert!(matches!(
        reader.slice_reader_retain_offset(50, 58),
        Err(Error::OffsetTooSmall(50))
    ));
    let mut untouched = [0xeeu8; 2];
    assert!(matches!(reader.bytes_at(52, &mut untouched), Err(Error::OffsetTooSmall(52))));
    assert_eq!(untouched, [0xee; 2]);
    assert!(matches!(reader.advance_by(-1), Err(Error::OffsetTooSmall(52))));
    assert!(matches!(reader.relative_offset(52), Err(Error::OffsetTooSmall(52))));
    assert_eq!(reader.current_offset(), 53);
    assert_eq!(reader.remaining(), 5);
    assert_eq!(reader.slice_reader(53, 55).unwrap().as_ref(), &EIGHT[3..5]);
    assert_eq!(reader.u8_at(53).unwrap(), 0x13);
    assert_eq!(reader.u8_at(57).unwrap(), 0x17);
    assert_eq!(reader.u16_be_at(54).unwrap(), 0x1415);
    assert_eq!(reader.next_u8().unwrap(), 0x13);
    assert_eq!(reader.current_offset(), 54);
    let head = reader.next_n_bytes(2).unwrap();
    assert_eq!(&head[..], &EIGHT[4..6]);
    assert_eq!(reader.current_offset(), 56);
    assert!(matches!(reader.next_n_bytes(3), Err(Error::NotEnoughData(3, 2))));
    assert_eq!(reader.current_offset(), 56);
    assert_eq!(reader.get_remaining().unwrap(), &EIGHT[6..]);
    let rest = reader.into_bytes();
    assert_eq!(&rest[..], &EIGHT[6..]);
}

#[test]
fn consuming_exhausts() {
    let mut reader = ConsumingBinReader::from_bytes(Bytes::from_static(&EIGHT), Endidness::Little)
        .unwrap();
    assert!(!reader.is_empty());
    assert_eq!(reader.next_u64().unwrap(), 0x1716_1514_1312_1110);
    assert!(reader.is_empty());
    assert_eq!(reader.remaining(), 0);
    assert_eq!(reader.current_offset(), 8);
    assert!(matches!(reader.next_u8(), Err(Error::NoMoreData)));
    assert!(matches!(reader.next_n_bytes(1), Err(Error::NoMoreData)));
    assert_eq!(reader.next_n_bytes(0).unwrap().len(), 0);
}

fn slices_keep_the_law<B: BinReader<'static>>() {
    let parent = B::from_slice_with_offset(&SIXTEEN, 40, Endidness::Little).unwrap();
    for start in 0..=16usize {
        for end in start..=16usize {
            let child = parent.slice_reader(40 + start, 40 + end).unwrap();
            assert_eq!(child.size(), end - start);
            assert_eq!(child.initial_offset(), 0);
            assert_eq!(child.current_offset(), 0);
            assert_eq!(child.endidness(), Endidness::Little);
            assert_eq!(child.as_ref(), &SIXTEEN[start..end]);
            let kept = parent.slice_reader_retain_offset(40 + start, 40 + end).unwrap();
            assert_eq!(kept.size(), end - start);
            assert_eq!(kept.initial_offset(), parent.initial_offset() + start);
            assert_eq!(kept.current_offset(), 40 + start);
            assert_eq!(kept.upper_offset_limit(), 40 + end);
            assert_eq!(kept.as_ref(), &SIXTEEN[start..end]);
            let moved = parent.slice_reader_with_offset(40 + start, 1000, 40 + end).unwrap();
            assert_eq!(moved.size(), end - start);
            assert_eq!(moved.initial_offset(), 1000);
            assert_eq!(moved.as_ref(), &SIXTEEN[start..end]);
        }
    }
}

#[test]
fn slicing_law() {
    slices_keep_the_law::<SliceRefBinReader>();
    slices_keep_the_law::<RandomAccessBinReader>();
    slices_keep_the_law::<ConsumingBinReader>();
    slices_keep_the_law::<MmapBinReader>();
    slices_keep_the_law::<SliceAsRefBinReader<Vec<u8>>>();
}

#[test]
fn slicing_law_zero_based_parent() {
    let parent = SliceRefBinReader::from_slice(&SIXTEEN, Endidness::Big).unwrap();
    let child = parent.slice_reader(4, 10).unwrap();
    assert_eq!(child.size(), 10 - 4);
    let kept = parent.slice_reader_retain_offset(4, 10).unwrap();
    assert_eq!(kept.initial_offset(), parent.initial_offset() + 4);
    assert_eq!(kept.u8_at(4).unwrap(), 4);
    assert_eq!(kept.u16_at(8).unwrap(), 0x0809);
    assert!(matches!(kept.u8_at(3), Err(Error::OffsetTooSmall(3))));
    assert!(matches!(kept.u8_at(10), Err(Error::OffsetTooLarge(10))));
}

#[test]
fn slicing_refusals() {
    let mut parent = SliceRefBinReader::from_slice_with_offset(&EIGHT, 10, Endidness::Big)
        .unwrap();
    assert!(matches!(parent.slice_reader(9, 12), Err(Error::OffsetTooSmall(9))));
    assert!(matches!(parent.slice_reader(19, 20), Err(Error::OffsetTooLarge(19))));
    assert!(matches!(parent.slice_reader(12, 19), Err(Error::NotEnoughData(7, 8))));
    assert!(matches!(parent.slice_reader(12, 11), Err(Error::OffsetTooSmall(11))));
    assert!(matches!(parent.range(12, 11), Err(Error::OffsetTooSmall(11))));
    assert!(matches!(
        parent.slice_reader_retain_offset(12, 19),
        Err(Error::NotEnoughData(7, 8))
    ));
    assert!(matches!(
        parent.slice_reader_with_offset(12, 0, 19),
        Err(Error::NotEnoughData(7, 8))
    ));
    parent.advance_to(18).unwrap();
    assert!(matches!(parent.slice_reader(10, 12), Err(Error::NoMoreData)));
    assert_eq!(parent.slice_reader(10, 10).unwrap().size(), 0);
    assert_eq!(parent.range(10, 10).unwrap().len(), 0);
}

#[test]
fn byte_ranges() {
    let mut reader = SliceRefBinReader::from_slice_with_offset(&EIGHT, 10, Endidness::Big)
        .unwrap();
    assert_eq!(reader.range(11, 14).unwrap(), &EIGHT[1..4]);
    assert_eq!(reader.subseq(11, 3).unwrap(), &EIGHT[1..4]);
    assert_eq!(reader.subseq(18, 0).unwrap().len(), 0);
    let mut buf = [0u8; 3];
    reader.bytes_at(15, &mut buf).unwrap();
    assert_eq!(buf, [0x15, 0x16, 0x17]);
    assert!(matches!(reader.bytes_at(16, &mut buf), Err(Error::NotEnoughData(3, 8))));
    assert_eq!(buf, [0x15, 0x16, 0x17]);
    assert_eq!(reader.current_offset(), 10);
    reader.next_bytes(&mut buf).unwrap();
    assert_eq!(buf, [0x10, 0x11, 0x12]);
    assert_eq!(reader.current_offset(), 13);
    assert_eq!(reader.current_u8().unwrap(), 0x13);
    assert_eq!(reader.get_remaining().unwrap(), &EIGHT[3..]);
    assert_eq!(reader.relative_offset(13).unwrap(), 0);
    assert_eq!(reader.relative_offset(18).unwrap(), 5);
    assert!(matches!(reader.relative_offset(12), Err(Error::OffsetTooSmall(12))));
    assert!(matches!(reader.relative_offset(19), Err(Error::OffsetTooLarge(19))));
    assert!(matches!(reader.relative_offset(9), Err(Error::OffsetTooSmall(9))));
    reader.advance_to(18).unwrap();
    assert!(matches!(reader.current_u8(), Err(Error::OffsetTooLarge(18))));
    let mut none = [0u8; 0];
    reader.next_bytes(&mut none).unwrap();
    assert_eq!(reader.current_offset(), 18);
}

#[test]
fn prefix_checks() {
    let mut reader = SliceRefBinReader::from_slice(&EIGHT, Endidness::Big).unwrap();
    assert!(reader.next_bytes_are(&[0x10, 0x11, 0x12]).unwrap());
    assert!(!reader.next_bytes_are(&[0x10, 0x11, 0x13]).unwrap());
    assert!(!reader.next_bytes_are(&[0x11]).unwrap());
    assert!(reader.next_bytes_are(&[]).unwrap());
    assert_eq!(reader.current_offset(), 0);
    reader.advance_to(6).unwrap();
    assert!(reader.next_bytes_are(&[0x16, 0x17]).unwrap());
    assert!(matches!(
        reader.next_bytes_are(&[0x16, 0x17, 0x18]),
        Err(Error::NotEnoughData(3, 2))
    ));
    reader.advance_to(8).unwrap();
    assert!(matches!(reader.next_bytes_are(&[0x10]), Err(Error::NoMoreData)));
    assert!(reader.next_bytes_are(&[]).unwrap());
}

#[test]
fn sub_readers_from_the_cursor() {
    let mut parent = RandomAccessBinReader::from_slice_with_offset(&SIXTEEN, 20, Endidness::Big)
        .unwrap();
    parent.advance_to(22).unwrap();
    {
        let mut child = parent.next_n_bytes_as_reader(4).unwrap();
        assert_eq!(child.initial_offset(), 0);
        assert_eq!(child.size(), 4);
        assert_eq!(child.endidness(), Endidness::Big);
        assert_eq!(child.next_u32().unwrap(), 0x0203_0405);
        assert!(child.is_empty());
    }
    assert_eq!(parent.current_offset(), 26);
    {
        let child = parent.next_n_bytes_as_reader_retain_offset(4).unwrap();
        assert_eq!(child.initial_offset(), 26);
        assert_eq!(child.current_offset(), 26);
        assert_eq!(child.upper_offset_limit(), 30);
        assert_eq!(child.u32_at(26).unwrap(), 0x0607_0809);
    }
    assert_eq!(parent.current_offset(), 30);
    assert_eq!(parent.next_n_bytes_as_reader(0).unwrap().size(), 0);
    assert_eq!(parent.current_offset(), 30);
}

#[test]
fn owned_readers_from_bytes() {
    let bytes = Bytes::from_static(&EIGHT);
    let mut reader = RandomAccessBinReader::from_bytes_with_offset(bytes.clone(), 3, Endidness::Little)
        .unwrap();
    assert_eq!(reader.size(), 8);
    assert_eq!(reader.current_offset(), 3);
    assert_eq!(reader.next_u16().unwrap(), 0x1110);
    assert_eq!(reader.as_ref(), &EIGHT[..]);
    let reader = RandomAccessBinReader::from_bytes(bytes.clone(), Endidness::Big).unwrap();
    assert_eq!(reader.initial_offset(), 0);
    assert_eq!(reader.u16_at(0).unwrap(), 0x1011);
    let reader = MmapBinReader::from_bytes_with_offset(bytes.clone(), 3, Endidness::Big).unwrap();
    assert_eq!(reader.as_ref(), &EIGHT[..]);
    assert_eq!(reader.current_offset(), 3);
    let reader = ConsumingBinReader::from_bytes_with_offset(bytes.clone(), 3, Endidness::Big)
        .unwrap();
    assert_eq!(reader.as_ref(), &EIGHT[..]);
    let made = RandomAccessBinReader::try_from_bytes_with_offset(bytes.clone(), 3, Endidness::Big);
    assert!(matches!(made, Ok(Ok(ref r)) if r.current_offset() == 3 && r.size() == 8));
    let made = RandomAccessBinReader::try_from_bytes_with_offset(
        bytes.clone(),
        usize::MAX - 8,
        Endidness::Big,
    );
    assert!(matches!(made, Ok(Ok(ref r)) if r.upper_offset_limit() == usize::MAX));
    let made = RandomAccessBinReader::try_from_bytes_with_offset(
        bytes.clone(),
        usize::MAX - 7,
        Endidness::Big,
    );
    assert!(matches!(made, Err(ref b) if b == &bytes));
}

#[test]
fn as_ref_reader_over_a_store() {
    let mut reader = SliceAsRefBinReader::_new(vec![9u8, 8, 7, 6], 2, Endidness::Big);
    assert_eq!(reader.size(), 4);
    assert_eq!(reader.current_offset(), 2);
    assert_eq!(reader.next_u16().unwrap(), 0x0908);
    assert_eq!(reader.as_ref(), &[9u8, 8, 7, 6][..]);
    assert_eq!(reader.next_n_bytes(2).unwrap(), &[7u8, 6][..]);
    assert!(reader.is_empty());
    let reader = SliceAsRefBinReader::_new(Bytes::from_static(&EIGHT), 0, Endidness::Little);
    assert_eq!(reader.u16_at(6).unwrap(), 0x1716);
}

#[test]
fn slice_reader_inherent_moves() {
    let mut reader = SliceRefBinReader::new(&EIGHT, 10, Endidness::Big);
    assert_eq!(reader.current_offset(), 10);
    reader.adj_pos(5);
    assert_eq!(reader.current_offset(), 15);
    reader.adj_pos(-2);
    assert_eq!(reader.current_offset(), 13);
    assert_eq!(reader.next_u8().unwrap(), 0x13);
    reader.adj_pos(4);
    assert_eq!(reader.current_offset(), 18);
    assert!(reader.is_empty());
    reader.adj_pos(-8);
    assert_eq!(reader.current_offset(), 10);
}

#[test]
fn mmap_reader_shows_what_it_was_given() {
    let mut reader = MmapBinReader::from_slice_with_offset(&SIXTEEN, 64, Endidness::Big).unwrap();
    assert_eq!(reader.size(), 16);
    assert_eq!(reader.as_ref(), &SIXTEEN[..]);
    assert_eq!(reader.u32_at(64 + 12).unwrap(), 0x0c0d_0e0f);
    assert_eq!(reader.next_n_bytes(4).unwrap(), &SIXTEEN[..4]);
    let empty: &'static [u8] = &[];
    let reader = MmapBinReader::from_slice(empty, Endidness::Big).unwrap();
    assert_eq!(reader.size(), 0);
    assert!(reader.is_empty());
    let mut writable = memmap2::MmapMut::map_anon(3).unwrap();
    writable.copy_from_slice(&[5, 6, 7]);
    let map = writable.make_read_only().unwrap();
    let reader = MmapBinReader::new(9, map, Endidness::Little);
    assert_eq!(reader.current_offset(), 9);
    assert_eq!(reader.u16_at(10).unwrap(), 0x0706);
    let map = memmap2::MmapMut::map_anon(3).unwrap().make_read_only().unwrap();
    assert!(MmapBinReader::try_new(usize::MAX - 3, map, Endidness::Big).is_ok());
    let map = memmap2::MmapMut::map_anon(3).unwrap().make_read_only().unwrap();
    let back = MmapBinReader::try_new(usize::MAX - 2, map, Endidness::Big);
    assert!(matches!(back, Err(ref m) if m.len() == 3));
}

#[test]
fn walk_takes_order_from_override_or_reader() {
    let mut reader = SliceRefBinReader::from_slice(&EIGHT, Endidness::Little).unwrap();
    reader.advance_to(3).unwrap();
    let walk = BorrowedBinReaderIter::new(&reader, None);
    assert_eq!(walk.endidness(), Endidness::Little);
    let walk = BorrowedBinReaderIter::new(&reader, Some(Endidness::Big));
    assert_eq!(walk.endidness(), Endidness::Big);
    let walk = BorrowedBinReaderIter::new(&reader, Some(Endidness::Unknown));
    assert_eq!(walk.endidness(), Endidness::Unknown);
}

#[test]
fn collector_gathers_chunks_in_order() {
    let mut collector = ByteCollector::new(Some(8));
    assert!(collector.feed(&[1, 2, 3]));
    assert!(collector.feed(&[4]));
    assert!(collector.feed(&[5, 6, 7, 8, 9]));
    assert!(!collector.feed(&[]));
    let bytes = collector.finish();
    assert_eq!(&bytes[..], &[1u8, 2, 3, 4, 5, 6, 7, 8, 9][..]);
    let mut collector = ByteCollector::new(None);
    assert!(!collector.feed(&[]));
    assert_eq!(collector.finish().len(), 0);
    let mut collector = ByteCollector::new(None);
    assert!(collector.feed(&[0xaa, 0xbb]));
    let mut reader = ConsumingBinReader::from_bytes(collector.finish(), Endidness::Big).unwrap();
    assert_eq!(reader.next_u16().unwrap(), 0xaabb);
}

#[test]
fn accessor_names() {
    assert_eq!(binreader::num_getters::Endidness::Big.short(), "be");
    assert_eq!(binreader::num_getters::Endidness::Little.short(), "le");
    assert_eq!(binreader::num_getters::Endidness::Native.short(), "ne");
    let table = numbers();
    let listed: Vec<(&str, u8)> = table.iter().map(|n| (n.ident(), n.width())).collect();
    assert_eq!(
        listed,
        vec![
            ("u16", 2),
            ("i16", 2),
            ("u32", 4),
            ("i32", 4),
            ("u64", 8),
            ("i64", 8),
            ("u128", 16),
            ("i128", 16),
        ]
    );
    assert_eq!(i8_number().ident(), "i8");
    assert_eq!(i8_number().width(), 1);
}

#[test]
fn template_identifiers_are_rewritten() {
    let big = binreader::num_getters::Endidness::Big;
    let little = binreader::num_getters::Endidness::Little;
    let info = NumberInfo::new("u32", 4);
    assert!(matches!(info.substitute("_numname_", big), Substitute::TypeName));
    assert!(matches!(info.substitute("_numwidth_", big), Substitute::WidthLiteral));
    assert!(matches!(
        info.substitute("numname_numend_at", big),
        Substitute::Renamed(ref s) if s == "u32_be_at"
    ));
    assert!(matches!(
        info.substitute("next_numname_numend", little),
        Substitute::Renamed(ref s) if s == "next_u32_le"
    ));
    assert!(matches!(
        info.substitute("current_numname_numend", little),
        Substitute::Renamed(ref s) if s == "current_u32_le"
    ));
    assert!(matches!(
        info.substitute("buf_numwidth", little),
        Substitute::Renamed(ref s) if s == "buf_4"
    ));
    assert!(matches!(
        info.substitute("from_numend_bytes", big),
        Substitute::Renamed(ref s) if s == "from_be_bytes"
    ));
    assert!(matches!(
        info.substitute("offset", big),
        Substitute::Renamed(ref s) if s == "offset"
    ));
    let wide = NumberInfo::new("i128", 16);
    assert!(matches!(
        wide.substitute("numwidth_numname", binreader::num_getters::Endidness::Native),
        Substitute::Renamed(ref s) if s == "16_i128"
    ));
}

#[test]
fn accessor_method_names() {
    let big = binreader::num_getters::Endidness::Big;
    let little = binreader::num_getters::Endidness::Little;
    let native = binreader::num_getters::Endidness::Native;
    let info = NumberInfo::new("u64", 8);
    assert_eq!(next_method_name(&info, big), "next_u64_be");
    assert_eq!(next_method_name(&info, little), "next_u64_le");
    assert_eq!(at_method_name(&info, big), "u64_be_at");
    assert_eq!(at_method_name(&info, little), "u64_le_at");
    assert_eq!(next_method_name(&i8_number(), native), "next_i8_ne");
    assert_eq!(at_method_name(&i8_number(), native), "i8_ne_at");
}

#[test]
fn templates_expand_in_order() {
    let big = binreader::num_getters::Endidness::Big;
    let little = binreader::num_getters::Endidness::Little;
    let native = binreader::num_getters::Endidness::Native;
    let names = ["u16", "i16", "u32", "i32", "u64", "i64", "u128", "i128"];
    let widths = [2u8, 2, 4, 4, 8, 8, 16, 16];
    for big_first in [true, false] {
        let order = expansion_order(big_first);
        assert_eq!(order.len(), 17);
        assert_eq!(order[0].0.ident(), "i8");
        assert_eq!(order[0].0.width(), 1);
        assert_eq!(order[0].1, native);
        for i in 0..8 {
            let (first, second) = (&order[1 + 2 * i], &order[2 + 2 * i]);
            assert_eq!(first.0.ident(), names[i]);
            assert_eq!(second.0.ident(), names[i]);
            assert_eq!(first.0.width(), widths[i]);
            assert_eq!(second.0.width(), widths[i]);
            assert_eq!(first.1, if big_first { big } else { little });
            assert_eq!(second.1, if big_first { little } else { big });
        }
    }
}

fn renamed(info: &NumberInfo, ident: &str) -> String {
    match info.substitute(ident, binreader::num_getters::Endidness::Big) {
        Substitute::Renamed(name) => name,
        other => panic!("{:?}", other),
    }
}

#[test]
fn placeholders_are_found_left_to_right() {
    let info = NumberInfo::new("u16", 2);
    assert_eq!(renamed(&info, "numendnumend"), "bebe");
    assert_eq!(renamed(&info, "numenumend"), "numebe");
    assert_eq!(renamed(&info, "nnumendd"), "nbed");
    assert_eq!(renamed(&info, "numen"), "numen");
    assert_eq!(renamed(&info, ""), "");
    assert_eq!(renamed(&info, "numnamenumname"), "u16u16");
    assert_eq!(renamed(&info, "numwidthnumwidth_numend"), "22_be");
    assert_eq!(renamed(&info, "_numname__"), "_u16__");
    assert_eq!(renamed(&info, "x_numwidth_"), "x_2_");
    let odd = NumberInfo::new("numend", 2);
    assert_eq!(renamed(&odd, "numname"), "numend");
    let nested = NumberInfo::new("numwidth", 7);
    assert_eq!(renamed(&nested, "numname"), "7");
}

#[test]
fn widths_are_written_in_decimal() {
    for (width, digits) in [
        (0u8, "0"),
        (1, "1"),
        (9, "9"),
        (10, "10"),
        (16, "16"),
        (99, "99"),
        (100, "100"),
        (109, "109"),
        (110, "110"),
        (200, "200"),
        (255, "255"),
    ] {
        let info = NumberInfo::new("t", width);
        assert_eq!(renamed(&info, "numwidth"), digits);
        assert_eq!(digits, width.to_string());
    }
}

#[test]
fn advance_by_aims_by_plain_sum() {
    let mut reader = SliceRefBinReader::from_slice_with_offset(&EIGHT, 0, Endidness::Big).unwrap();
    assert!(matches!(reader.advance_by(-1), Err(Error::OffsetTooSmall(0))));
    assert!(matches!(reader.advance_by(9), Err(Error::OffsetTooLarge(9))));
    assert_eq!(reader.current_offset(), 0);
    reader.advance_by(8).unwrap();
    assert_eq!(reader.current_offset(), 8);
    assert!(matches!(reader.advance_by(1), Err(Error::OffsetTooLarge(9))));
    assert!(matches!(reader.advance_by(-9), Err(Error::OffsetTooSmall(0))));
    reader.advance_by(0).unwrap();
    reader.advance_by(-8).unwrap();
    assert_eq!(reader.current_offset(), 0);
    let mut high =
        SliceRefBinReader::from_slice_with_offset(&EIGHT, usize::MAX - 8, Endidness::Big).unwrap();
    high.advance_by(8).unwrap();
    assert_eq!(high.current_offset(), usize::MAX);
    assert!(matches!(high.advance_by(1), Err(Error::OffsetTooLarge(usize::MAX))));
    assert!(matches!(high.advance_by(isize::MAX), Err(Error::OffsetTooLarge(usize::MAX))));
    assert!(matches!(
        high.advance_by(-9),
        Err(Error::OffsetTooSmall(o)) if o == usize::MAX - 9
    ));
    assert_eq!(high.current_offset(), usize::MAX);
    high.advance_by(-8).unwrap();
    assert_eq!(high.current_offset(), usize::MAX - 8);
}
