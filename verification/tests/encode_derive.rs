use dersp::codec::encode::{BufferOverflow, SliceWriter, WriteBuffer};
use dersp::codec::{Encode, Vector};

struct UnitStruct;

fn encode_unit_struct<W: WriteBuffer>(
    _value: &UnitStruct,
    _write_buffer: &mut W,
) -> Result<usize, W::Error> {
    Ok(0)
}

struct NamedFieldsStruct {
    three: u32,
    one: u8,
    two: u16,
}

fn encode_named_fields_struct<W: WriteBuffer>(
    value: &NamedFieldsStruct,
    write_buffer: &mut W,
) -> Result<usize, W::Error> {
    Ok(0 + Encode::encode(&value.three, write_buffer)?
        + Encode::encode(&value.one, write_buffer)?
        + Encode::encode(&value.two, write_buffer)?)
}

struct UnnamedFieldsStruct(u32, u16, u8);

fn encode_unnamed_fields_struct<W: WriteBuffer>(
    value: &UnnamedFieldsStruct,
    write_buffer: &mut W,
) -> Result<usize, W::Error> {
    Ok(0 + Encode::encode(&value.0, write_buffer)?
        + Encode::encode(&value.1, write_buffer)?
        + Encode::encode(&value.2, write_buffer)?)
}

#[test]
fn encode_derive_simple_fields() {
    let mut buffer = Vec::new();
    assert_eq!(encode_unit_struct(&UnitStruct, &mut buffer), Ok(0));
    assert_eq!(buffer, Vec::new());

    let mut buffer = Vec::new();
    let value = NamedFieldsStruct {
        one: 0x01,
        two: 0x0203,
        three: 0x0405_0607,
    };
    assert_eq!(encode_named_fields_struct(&value, &mut buffer), Ok(7));
    assert_eq!(buffer, vec![4, 5, 6, 7, 1, 2, 3]);

    let mut buffer = Vec::new();
    let value = UnnamedFieldsStruct(0x0405_0607, 0x0203, 0x01);
    assert_eq!(encode_unnamed_fields_struct(&value, &mut buffer), Ok(7));
    assert_eq!(buffer, vec![4, 5, 6, 7, 2, 3, 1]);
}

struct NamedWrapper<T> {
    value: T,
}

fn encode_named_wrapper<T: Encode, W: WriteBuffer>(
    value: &NamedWrapper<T>,
    write_buffer: &mut W,
) -> Result<usize, W::Error> {
    Ok(0 + Encode::encode(&value.value, write_buffer)?)
}

struct UnnamedWrapper<T>(T);

fn encode_unnamed_wrapper<T: Encode, W: WriteBuffer>(
    value: &UnnamedWrapper<T>,
    write_buffer: &mut W,
) -> Result<usize, W::Error> {
    Ok(0 + Encode::encode(&value.0, write_buffer)?)
}

struct Pair<L, R> {
    right: R,
    left: L,
}

fn encode_pair<L: Encode, R: Encode, W: WriteBuffer>(
    value: &Pair<L, R>,
    write_buffer: &mut W,
) -> Result<usize, W::Error> {
    Ok(0 + Encode::encode(&value.right, write_buffer)?
        + Encode::encode(&value.left, write_buffer)?)
}

#[test]
fn encode_derive_generic_fields() {
    let value = NamedWrapper { value: 0xaabbu16 };
    let mut buffer = Vec::new();
    assert_eq!(encode_named_wrapper(&value, &mut buffer), Ok(2));
    assert_eq!(buffer, vec![0xaa, 0xbb]);

    let mut buffer = Vec::new();
    assert_eq!(
        encode_unnamed_wrapper(&UnnamedWrapper(0xccddu16), &mut buffer),
        Ok(2)
    );
    assert_eq!(buffer, vec![0xcc, 0xdd]);

    let pair = Pair {
        left: 0xeeu8,
        right: 0xabbacdefu32,
    };
    let mut buffer = Vec::new();
    assert_eq!(encode_pair(&pair, &mut buffer), Ok(5));
    assert_eq!(buffer, vec![0xab, 0xba, 0xcd, 0xef, 0xee]);
}

#[test]
fn encode_derive_vectors() {
    let mut buffer = Vec::new();
    assert_eq!(
        Vector::<u8, u8>::new(vec![1, 2, 3, 4, 5, 6, 7]).encode(&mut buffer),
        Ok(8)
    );
    assert_eq!(buffer, vec![7, 1, 2, 3, 4, 5, 6, 7]);

    let matrix = Vector::<u16, _>::new(vec![Vector::<u8, u16>::new(vec![1, 2]); 3]);

    let mut buffer = Vec::new();
    assert_eq!(matrix.encode(&mut buffer), Ok(2 + (1 + 2 * 2) * 3));
    assert_eq!(
        buffer,
        vec![
            0,
            (1 + 2 * 2) * 3,
            2 * 2,
            0,
            1,
            0,
            2,
            2 * 2,
            0,
            1,
            0,
            2,
            2 * 2,
            0,
            1,
            0,
            2,
        ]
    );
}

struct SliceRef<'a>(&'a [u8]);

fn encode_slice_ref<W: WriteBuffer>(
    value: &SliceRef<'_>,
    write_buffer: &mut W,
) -> Result<usize, W::Error> {
    Ok(0 + Encode::encode(&value.0, write_buffer)?)
}

#[test]
fn encode_in_slice() {
    let mut slice = [0; 7];

    let mut view = SliceWriter::new(&mut slice);
    assert_eq!(0x01u8.encode(&mut view), Ok(1));
    assert_eq!(0x0203u16.encode(&mut view), Ok(2));
    assert_eq!(0x0405_0607u32.encode(&mut view), Ok(4));
    assert_eq!(0x08u8.encode(&mut view), Err(BufferOverflow));
    assert_eq!((&[][..]).encode(&mut view), Ok(0));
    assert_eq!(view.position(), 7);
    assert_eq!(view.into_slice(), [1, 2, 3, 4, 5, 6, 7]);
    assert_eq!(slice, [1, 2, 3, 4, 5, 6, 7]);

    let mut slice = [0; 2];
    let mut view = SliceWriter::new(&mut slice);
    assert_eq!(encode_slice_ref(&SliceRef(&[9, 10]), &mut view), Ok(2));
    assert_eq!(view.into_slice(), [9, 10]);
    assert_eq!(slice, [9, 10]);
}

enum UnknownUnnamed {
    Known,
    Unknown(u16),
}

fn encode_unknown_unnamed<W: WriteBuffer>(
    value: &UnknownUnnamed,
    write_buffer: &mut W,
) -> Result<usize, W::Error> {
    let tag = match value {
        UnknownUnnamed::Known { .. } => 5u16,
        UnknownUnnamed::Unknown(_0) => _0.clone(),
    };
    Ok(Encode::encode(&tag, write_buffer)?
        + match value {
            UnknownUnnamed::Known => 0,
            UnknownUnnamed::Unknown(_) => 0 + 0,
        })
}

enum UnknownNamed {
    Known,
    Unknown { tag: u32, extra: u16 },
}

fn encode_unknown_named<W: WriteBuffer>(
    value: &UnknownNamed,
    write_buffer: &mut W,
) -> Result<usize, W::Error> {
    let tag = match value {
        UnknownNamed::Known { .. } => 10u32,
        UnknownNamed::Unknown { tag, .. } => tag.clone(),
    };
    Ok(Encode::encode(&tag, write_buffer)?
        + match value {
            UnknownNamed::Known => 0,
            UnknownNamed::Unknown { extra, .. } => 0 + 0 + Encode::encode(extra, write_buffer)?,
        })
}

#[test]
fn encode_derive_enums_with_unknown_tags() {
    let mut buffer = Vec::new();
    assert_eq!(
        encode_unknown_unnamed(&UnknownUnnamed::Known, &mut buffer),
        Ok(2)
    );
    assert_eq!(
        encode_unknown_unnamed(&UnknownUnnamed::Unknown(0xffff), &mut buffer),
        Ok(2)
    );
    assert_eq!(buffer, vec![0, 5, 0xff, 0xff]);

    let mut buffer = Vec::new();
    assert_eq!(
        encode_unknown_named(&UnknownNamed::Known, &mut buffer),
        Ok(4)
    );
    assert_eq!(
        encode_unknown_named(
            &UnknownNamed::Unknown {
                tag: 0xaabbccdd,
                extra: 0x0102
            },
            &mut buffer
        ),
        Ok(6)
    );
    assert_eq!(
        buffer,
        vec![0, 0, 0, 10, 0xaa, 0xbb, 0xcc, 0xdd, 0x01, 0x02]
    );
}
