use dersp::codec::bytes::{be_decode, be_encode};
use dersp::codec::decode::ReadBuffer;
use dersp::codec::encode::{BufferOverflow, DataSize, SliceWriter, WriteBuffer};
use dersp::codec::{u24, Decode, Encode, Ignore, Opaque, SizeWrapper, Vector};

#[test]
fn integers_are_written_in_network_order() {
    let mut buffer = Vec::new();
    assert_eq!(0xABu8.encode(&mut buffer), Ok(1));
    assert_eq!(0x0102u16.encode(&mut buffer), Ok(2));
    assert_eq!(u24(0xFF030405).encode(&mut buffer), Ok(3));
    assert_eq!(0x06070809u32.encode(&mut buffer), Ok(4));
    assert_eq!(0x0A0B0C0D0E0F1011u64.encode(&mut buffer), Ok(8));
    assert_eq!(().encode(&mut buffer), Ok(0));
    assert_eq!(
        buffer,
        vec![
            0xAB, 1, 2, 3, 4, 5, 6, 7, 8, 9, 0x0A, 0x0B, 0x0C, 0x0D, 0x0E, 0x0F, 0x10, 0x11
        ]
    );
    assert_eq!(be_encode(0x0102, 4), vec![0, 0, 1, 2]);
    assert_eq!(be_encode(0x0102, 1), vec![2]);
    assert_eq!(be_encode(7, 0), Vec::<u8>::new());
    assert_eq!(be_encode(u64::MAX, 8), vec![0xFF; 8]);
    assert_eq!(be_decode(&[0, 0, 1, 2]), 0x0102);
    assert_eq!(be_decode(&[]), 0);
    assert_eq!(be_decode(&[0xFF; 8]), u64::MAX);
}

#[test]
fn integers_are_read_in_network_order() {
    let mut buffer: &[u8] = &[0xAB, 1, 2, 6, 7, 8, 9, 0xEE];
    assert_eq!(u8::decode(&mut buffer).unwrap(), 0xAB);
    assert_eq!(u16::decode(&mut buffer).unwrap(), 0x0102);
    assert_eq!(u32::decode(&mut buffer).unwrap(), 0x06070809);
    assert_eq!(<()>::decode(&mut buffer).unwrap(), ());
    assert_eq!(buffer, &[0xEE]);
    assert!(u16::decode(&mut buffer).is_err());
    assert_eq!(buffer, &[0xEE]);
    assert!(u32::decode(&mut buffer).is_err());
    assert_eq!(u8::decode(&mut buffer).unwrap(), 0xEE);
    assert!(u8::decode(&mut buffer).is_err());
}

#[test]
fn sizes_have_the_widths_of_their_types() {
    assert_eq!(<u8 as DataSize>::byte_size(), 1);
    assert_eq!(<u16 as DataSize>::byte_size(), 2);
    assert_eq!(<u24 as DataSize>::byte_size(), 3);
    assert_eq!(<u32 as DataSize>::byte_size(), 4);
}

#[test]
fn a_read_buffer_hands_out_its_bytes_from_the_front() {
    let mut buffer: &[u8] = &[1, 2, 3, 4, 5];
    assert!(!ReadBuffer::is_empty(&buffer));
    assert_eq!(buffer.available(), 5);
    assert_eq!(buffer.fill_buf(2).unwrap(), &[1, 2]);
    assert_eq!(buffer.available(), 3);
    assert!(buffer.fill_buf(4).is_err());
    assert_eq!(buffer.available(), 3);
    assert_eq!(buffer.fill_buf(0).unwrap(), &[] as &[u8]);
    assert_eq!(buffer.fill_all(), &[3, 4, 5]);
    assert!(ReadBuffer::is_empty(&buffer));
    assert_eq!(buffer.fill_all(), &[] as &[u8]);
}

#[test]
fn a_vector_grows_as_needed_and_a_slice_does_not() {
    let mut buffer = vec![9u8];
    assert_eq!(buffer.fill_from(&[1, 2]), Ok(()));
    assert_eq!(buffer.later_fill(2), Ok(3));
    assert_eq!(buffer.fill_from(&[5]), Ok(()));
    buffer.fill_skipped(3, &[3, 4]);
    assert_eq!(buffer, vec![9, 1, 2, 3, 4, 5]);

    let mut slice = [0xEE; 5];
    let mut writer = SliceWriter::new(&mut slice);
    assert_eq!(writer.position(), 0);
    assert_eq!(writer.fill_from(&[1, 2]), Ok(()));
    assert_eq!(writer.later_fill(2), Ok(2));
    assert_eq!(writer.position(), 4);
    assert_eq!(writer.fill_from(&[5, 6]), Err(BufferOverflow));
    assert_eq!(writer.later_fill(2), Err(BufferOverflow));
    assert_eq!(writer.position(), 4);
    assert_eq!(writer.fill_from(&[5]), Ok(()));
    writer.fill_skipped(2, &[3, 4]);
    assert_eq!(writer.fill_from(&[]), Ok(()));
    assert_eq!(writer.fill_from(&[7]), Err(BufferOverflow));
    assert_eq!(writer.into_slice(), [1, 2, 3, 4, 5]);
    assert_eq!(slice, [1, 2, 3, 4, 5]);
}

#[test]
fn a_length_wrapped_value_does_not_fit_a_slice_that_is_too_short() {
    let value = Vector::<u16, u8>::new(vec![1, 2, 3]);
    let mut slice = [0; 5];
    let mut writer = SliceWriter::new(&mut slice);
    assert_eq!(value.encode(&mut writer), Ok(5));
    assert_eq!(writer.into_slice(), [0, 3, 1, 2, 3]);
    assert_eq!(slice, [0, 3, 1, 2, 3]);

    let mut slice = [0xEE; 4];
    let mut writer = SliceWriter::new(&mut slice);
    assert_eq!(value.encode(&mut writer), Err(BufferOverflow));
    assert_eq!(writer.into_slice().len(), 4);

    let mut slice = [0; 1];
    let mut writer = SliceWriter::new(&mut slice);
    assert_eq!(value.encode(&mut writer), Err(BufferOverflow));
}

#[test]
fn an_opaque_byte_array_has_its_length_in_front() {
    let opaque = Opaque::<u16>::from(vec![7, 8, 9]);
    let mut buffer = Vec::new();
    assert_eq!(opaque.encode(&mut buffer), Ok(5));
    assert_eq!(buffer, vec![0, 3, 7, 8, 9]);
    assert_eq!(opaque.as_slice(), &[7, 8, 9]);
    assert_eq!(opaque.clone().into_inner(), vec![7, 8, 9]);

    let mut rest: &[u8] = &[0, 3, 7, 8, 9, 1];
    assert_eq!(Opaque::<u16>::decode(&mut rest).unwrap(), opaque);
    assert_eq!(rest, &[1]);
    assert!(Opaque::<u16>::decode(&mut &[0u8, 3, 7, 8][..]).is_err());
    assert!(Opaque::<u16>::decode(&mut &[0u8][..]).is_err());

    assert_eq!(Opaque::<u8>::new().into_inner(), Vec::<u8>::new());
    assert_eq!(Opaque::<u8>::default(), Opaque::<u8>::new());
    let mut buffer = Vec::new();
    assert_eq!(Opaque::<u32>::new().encode(&mut buffer), Ok(4));
    assert_eq!(buffer, vec![0, 0, 0, 0]);
    let mut buffer = Vec::new();
    assert_eq!(Opaque::<u24>::from(vec![1]).encode(&mut buffer), Ok(4));
    assert_eq!(buffer, vec![0, 0, 1, 1]);
}

#[test]
fn a_size_wrapper_has_to_be_filled_exactly() {
    let mut rest: &[u8] = &[2, 0, 7, 9];
    assert_eq!(
        SizeWrapper::<u8, u16>::decode(&mut rest).unwrap(),
        SizeWrapper::new(7u16)
    );
    assert_eq!(rest, &[9]);
    assert!(SizeWrapper::<u8, u16>::decode(&mut &[3u8, 0, 7, 9][..]).is_err());
    assert!(SizeWrapper::<u8, u16>::decode(&mut &[1u8, 0, 7, 9][..]).is_err());
    assert!(SizeWrapper::<u8, u16>::decode(&mut &[2u8, 0][..]).is_err());
    assert!(SizeWrapper::<u8, u16>::decode(&mut &[][..]).is_err());
    assert_eq!(*SizeWrapper::<u8, u16>::new(5).get(), 5);
    assert_eq!(SizeWrapper::<u8, u16>::new(5).into_inner(), 5);
    assert_eq!(SizeWrapper::<u8, u16>::default().into_inner(), 0);
    assert_eq!(
        SizeWrapper::<u8, Vec<u8>>::new(vec![1]).clone(),
        SizeWrapper::new(vec![1])
    );
}

#[test]
fn optional_and_trailing_values_read_to_the_end() {
    let mut buffer = Vec::new();
    assert_eq!(Some(0x0102u16).encode(&mut buffer), Ok(2));
    assert_eq!(None::<u16>.encode(&mut buffer), Ok(0));
    assert_eq!((0x03u8, 0x0405u16).encode(&mut buffer), Ok(3));
    assert_eq!([6u8, 7].encode(&mut buffer), Ok(2));
    assert_eq!((&8u8).encode(&mut buffer), Ok(1));
    assert_eq!(buffer, vec![1, 2, 3, 4, 5, 6, 7, 8]);

    let mut rest: &[u8] = &[1, 2];
    assert_eq!(Option::<u16>::decode(&mut rest).unwrap(), Some(0x0102));
    assert_eq!(Option::<u16>::decode(&mut rest).unwrap(), None);
    assert!(Option::<u16>::decode(&mut &[1u8][..]).is_err());

    let mut rest: &[u8] = &[0, 1, 0, 2, 0, 3];
    assert_eq!(Vec::<u16>::decode(&mut rest).unwrap(), vec![1, 2, 3]);
    assert!(rest.is_empty());
    assert!(Vec::<u16>::decode(&mut &[0u8, 1, 0][..]).is_err());
    assert_eq!(Vec::<u16>::decode(&mut &[][..]).unwrap(), Vec::<u16>::new());
    assert!(Vec::<()>::decode(&mut &[1u8][..]).is_err());

    let mut rest: &[u8] = &[1, 2, 3];
    assert_eq!(<[u8; 2]>::decode(&mut rest).unwrap(), [1, 2]);
    assert!(<[u8; 2]>::decode(&mut rest).is_err());
    assert_eq!(<[u8; 0]>::decode(&mut rest).unwrap(), []);

    let mut rest: &[u8] = &[1, 2, 3];
    assert!(Ignore::decode(&mut rest).is_ok());
    assert!(rest.is_empty());
}

#[test]
fn wrappers_give_way_to_what_they_hold() {
    let mut opaque = Opaque::<u8>::from(vec![1, 2, 3]);
    assert_eq!(opaque.len(), 3);
    assert_eq!(&opaque[..2], &[1, 2]);
    opaque[0] = 9;
    assert_eq!(opaque.clone().into_inner(), vec![9, 2, 3]);

    let mut wrapper = SizeWrapper::<u16, Vec<u8>>::new(vec![4, 5]);
    assert_eq!(wrapper.len(), 2);
    wrapper.push(6);
    assert_eq!(*wrapper, vec![4, 5, 6]);
    let mut buffer = Vec::new();
    assert_eq!(wrapper.encode(&mut buffer), Ok(5));
    assert_eq!(buffer, vec![0, 3, 4, 5, 6]);
}
