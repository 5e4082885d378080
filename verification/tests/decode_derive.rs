use std::convert::identity;

use dersp::codec::decode::{DecodeError, ReadBuffer};
use dersp::codec::{Decode, Vector};

#[derive(Debug, PartialEq, Eq)]
struct UnitStruct;

fn decode_unit_struct<R: ReadBuffer>(_read_buffer: &mut R) -> Result<UnitStruct, DecodeError> {
    Ok(UnitStruct)
}

#[derive(Debug, PartialEq, Eq)]
struct NamedFieldsStruct {
    one: u8,
    two: u16,
    three: u32,
}

fn decode_named_fields_struct<R: ReadBuffer>(
    read_buffer: &mut R,
) -> Result<NamedFieldsStruct, DecodeError> {
    Ok(NamedFieldsStruct {
        one: <u8 as Decode>::decode(read_buffer)?,
        two: <u16 as Decode>::decode(read_buffer)?,
        three: <u32 as Decode>::decode(read_buffer)?,
    })
}

#[derive(Debug, PartialEq, Eq)]
struct UnnamedFieldsStruct(u8, u16, u32);

fn decode_unnamed_fields_struct<R: ReadBuffer>(
    read_buffer: &mut R,
) -> Result<UnnamedFieldsStruct, DecodeError> {
    Ok(UnnamedFieldsStruct(
        <u8 as Decode>::decode(read_buffer)?,
        <u16 as Decode>::decode(read_buffer)?,
        <u32 as Decode>::decode(read_buffer)?,
    ))
}

#[test]
fn simple_fields() -> Result<(), DecodeError> {
    assert_eq!(decode_unit_struct(&mut (&[] as &[u8]))?, UnitStruct);

    let buffer: &[u8] = &[1, 2, 3, 4, 5, 6, 7];

    assert_eq!(
        decode_named_fields_struct(&mut identity(buffer))?,
        NamedFieldsStruct {
            one: 0x01,
            two: 0x0203,
            three: 0x0405_0607,
        }
    );

    assert_eq!(
        decode_unnamed_fields_struct(&mut identity(buffer))?,
        UnnamedFieldsStruct(0x01, 0x0203, 0x0405_0607)
    );

    Ok(())
}

#[derive(Debug, PartialEq, Eq)]
struct NamedWrapper<T> {
    value: T,
}

fn decode_named_wrapper<T: Decode, R: ReadBuffer>(
    read_buffer: &mut R,
) -> Result<NamedWrapper<T>, DecodeError> {
    Ok(NamedWrapper {
        value: <T as Decode>::decode(read_buffer)?,
    })
}

#[derive(Debug, PartialEq, Eq)]
struct UnnamedWrapper<T>(T);

fn decode_unnamed_wrapper<T: Decode, R: ReadBuffer>(
    read_buffer: &mut R,
) -> Result<UnnamedWrapper<T>, DecodeError> {
    Ok(UnnamedWrapper(<T as Decode>::decode(read_buffer)?))
}

#[derive(Debug, PartialEq, Eq)]
struct Pair<L, R> {
    left: L,
    right: R,
}

fn decode_pair<L: Decode, R: Decode, B: ReadBuffer>(
    read_buffer: &mut B,
) -> Result<Pair<L, R>, DecodeError> {
    Ok(Pair {
        left: <L as Decode>::decode(read_buffer)?,
        right: <R as Decode>::decode(read_buffer)?,
    })
}

#[test]
fn generic_fields() -> Result<(), DecodeError> {
    let buffer: &[u8] = &[0xaa, 0xbb];
    assert_eq!(
        decode_named_wrapper(&mut identity(buffer))?,
        NamedWrapper { value: 0xaabbu16 }
    );

    let buffer: &[u8] = &[0xcc, 0xdd];
    assert_eq!(
        decode_unnamed_wrapper(&mut identity(buffer))?,
        UnnamedWrapper(0xccddu16)
    );

    let buffer: &[u8] = &[0xee, 0xff];
    assert_eq!(
        decode_pair(&mut identity(buffer))?,
        Pair {
            left: 0xeeu8,
            right: 0xffu8
        }
    );

    Ok(())
}

#[test]
fn vectors() -> Result<(), DecodeError> {
    let buffer: &[u8] = &[7, 1, 2, 3, 4, 5, 6, 7];
    assert_eq!(
        Vector::<u8, u8>::decode(&mut identity(buffer))?,
        Vector::new(vec![1, 2, 3, 4, 5, 6, 7])
    );

    let buffer: &[u8] = &[
        0,
        (1 + 2 * 2) * 3,
        2 * 2,
        0,
        1,
        0,
        2,
        2 * 2,
        0,
        1,
        0,
        2,
        2 * 2,
        0,
        1,
        0,
        2,
    ];
    assert_eq!(
        Vector::decode(&mut identity(buffer))?,
        Vector::<u16, _>::new(vec![Vector::<u8, u16>::new(vec![1, 2]); 3])
    );
    Ok(())
}

#[derive(Debug, PartialEq, Eq)]
enum Simple {
    One,
    Two,
    Three,
    Unknown,
}

fn decode_simple<R: ReadBuffer>(read_buffer: &mut R) -> Result<Simple, DecodeError> {
    let tag: u8 = Decode::decode(read_buffer)?;
    match tag {
        1u8 => Ok(Simple::One),
        2 => Ok(Simple::Two),
        3 => Ok(Simple::Three),
        _unknown => Ok(Simple::Unknown),
    }
}

#[derive(Debug, PartialEq, Eq)]
enum UnknownUnnamed {
    Known,
    Unknown(u8),
}

fn decode_unknown_unnamed<R: ReadBuffer>(
    read_buffer: &mut R,
) -> Result<UnknownUnnamed, DecodeError> {
    let tag: u8 = Decode::decode(read_buffer)?;
    match tag {
        5 => Ok(UnknownUnnamed::Known),
        _unknown => Ok(UnknownUnnamed::Unknown(_unknown)),
    }
}

#[derive(Debug, PartialEq, Eq)]
enum UnknownNamed {
    Known { field: u8 },
    Unknown { first: u16, second: u8 },
}

fn decode_unknown_named<R: ReadBuffer>(read_buffer: &mut R) -> Result<UnknownNamed, DecodeError> {
    let tag: u16 = Decode::decode(read_buffer)?;
    match tag {
        5 => Ok(UnknownNamed::Known {
            field: <u8 as Decode>::decode(read_buffer)?,
        }),
        _unknown => Ok(UnknownNamed::Unknown {
            first: _unknown,
            second: <u8 as Decode>::decode(read_buffer)?,
        }),
    }
}

#[test]
fn enums_simple() -> Result<(), DecodeError> {
    let mut buffer: &[u8] = &[4, 2, 1, 3];
    assert_eq!(decode_simple(&mut buffer)?, Simple::Unknown);
    assert_eq!(decode_simple(&mut buffer)?, Simple::Two);
    assert_eq!(decode_simple(&mut buffer)?, Simple::One);
    assert_eq!(decode_simple(&mut buffer)?, Simple::Three);

    let mut buffer: &[u8] = &[5, 6];
    assert_eq!(decode_unknown_unnamed(&mut buffer)?, UnknownUnnamed::Known);
    assert_eq!(
        decode_unknown_unnamed(&mut buffer)?,
        UnknownUnnamed::Unknown(6)
    );

    let mut buffer: &[u8] = &[0, 5, 1, 7, 8, 9];
    assert_eq!(
        decode_unknown_named(&mut buffer)?,
        UnknownNamed::Known { field: 1 }
    );
    assert_eq!(
        decode_unknown_named(&mut buffer)?,
        UnknownNamed::Unknown {
            first: 0x0708,
            second: 9
        }
    );
    Ok(())
}
