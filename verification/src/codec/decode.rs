//! Network order decoding of types.
use crate::codec::bytes::{
    be_decode, be_value, lemma_be_value_bound, lemma_pow256_monotonic, lemma_pow256_values,
};
use crate::codec::encode::DataSize;
use crate::codec::{Ignore, Opaque, SizeWrapper};
use vstd::prelude::*;

verus! {

/// The error returned by a read buffer when it has insufficient bytes, and by a decoder
/// when the bytes do not spell a value.
#[derive(Debug)]
pub struct DecodeError;

/// A read buffer where data can be decoded from.
pub trait ReadBuffer {
    /// The bytes not yet handed out, next first.
    spec fn remaining(&self) -> Seq<u8>;

    /// Returns whether or not the current read buffer has any more bytes left to be extracted.
    fn is_empty(&self) -> (empty: bool)
        ensures
            empty == (self.remaining().len() == 0),
    ;

    /// How many bytes are left to be extracted.
    fn available(&self) -> (count: usize)
        ensures
            count == self.remaining().len(),
    ;

    /// Hand out the next `size` bytes of this read buffer, or none where fewer are left.
    fn fill_buf(&mut self, size: usize) -> (r: Result<&[u8], DecodeError>)
        ensures
            r is Ok <==> size <= old(self).remaining().len(),
            r matches Ok(bytes) ==> {
                &&& bytes@ == old(self).remaining().take(size as int)
                &&& final(self).remaining() == old(self).remaining().skip(size as int)
            },
            r is Err ==> final(self).remaining() == old(self).remaining(),
    ;

    /// Return all available bytes in this read buffer.
    fn fill_all(&mut self) -> (bytes: &[u8])
        ensures
            bytes@ == old(self).remaining(),
            final(self).remaining() == Seq::<u8>::empty(),
    ;
}

impl<'a> ReadBuffer for &'a [u8] {
    open spec fn remaining(&self) -> Seq<u8> {
        self@
    }

    fn is_empty(&self) -> (empty: bool) {
        self.len() == 0
    }

    fn available(&self) -> (count: usize) {
        self.len()
    }

    fn fill_buf(&mut self, size: usize) -> (r: Result<&[u8], DecodeError>) {
        if self.len() < size {
            return Err(DecodeError);
        }
        let (current, left) = self.split_at(size);
        *self = left;
        Ok(current)
    }

    fn fill_all(&mut self) -> (bytes: &[u8]) {
        let (current, left) = self.split_at(self.len());
        *self = left;
        current
    }
}

/// An interface for types that can be decoded from network ordered bytes.
pub trait Decode: Sized + DeepView {
    /// What `input` reads as from its front: the value, and how many bytes spell it.
    /// `None` where the front of `input` spells no value of this type.
    spec fn parse(input: Seq<u8>) -> Option<(<Self as DeepView>::V, nat)>;

    proof fn lemma_parse_in_bounds(input: Seq<u8>)
        ensures
            Self::parse(input) matches Some((_, used)) ==> used <= input.len(),
    ;

    /// Decode the current type from the given `read_buffer`, reading bytes from it in network
    /// order. Where that succeeds the bytes read are gone from the buffer; where it fails,
    /// those that it got as far as reading.
    fn decode<R: ReadBuffer>(read_buffer: &mut R) -> (r: Result<Self, DecodeError>)
        ensures
            match Self::parse(old(read_buffer).remaining()) {
                Some((value, used)) => {
                    &&& r matches Ok(decoded)
                    &&& decoded.deep_view() == value
                    &&& final(read_buffer).remaining() == old(read_buffer).remaining().skip(
                        used as int,
                    )
                },
                None => r is Err,
            },
            final(read_buffer).remaining().len() <= old(read_buffer).remaining().len(),
    ;
}

/// What `width` bytes in front of `input` spell as a number, where there are that many.
pub open spec fn parse_be(input: Seq<u8>, width: nat) -> Option<(nat, nat)> {
    if input.len() < width {
        None
    } else {
        Some((be_value(input.take(width as int)), width))
    }
}

/// Read a number of `width` bytes, at most 4, from the front of the buffer.
pub fn decode_be<R: ReadBuffer>(read_buffer: &mut R, width: usize) -> (r: Result<u32, DecodeError>)
    requires
        width <= 4,
    ensures
        match parse_be(old(read_buffer).remaining(), width as nat) {
            Some((value, used)) => {
                &&& r == Ok::<u32, DecodeError>(value as u32)
                &&& value <= u32::MAX
                &&& final(read_buffer).remaining() == old(read_buffer).remaining().skip(used as int)
            },
            None => r is Err && final(read_buffer).remaining() == old(read_buffer).remaining(),
        },
{
    let bytes = match read_buffer.fill_buf(width) {
        Ok(bytes) => bytes,
        Err(e) => {
            return Err(e);
        },
    };
    proof {
        lemma_be_value_bound(bytes@);
        lemma_pow256_monotonic(width as nat, 4);
        lemma_pow256_values();
    }
    let value = be_decode(bytes);
    Ok(value as u32)
}

impl Decode for u8 {
    open spec fn parse(input: Seq<u8>) -> Option<(u8, nat)> {
        if input.len() < 1 {
            None
        } else {
            Some((input[0], 1))
        }
    }

    proof fn lemma_parse_in_bounds(input: Seq<u8>) {
    }

    fn decode<R: ReadBuffer>(read_buffer: &mut R) -> (r: Result<Self, DecodeError>) {
        let bytes = match read_buffer.fill_buf(1) {
            Ok(bytes) => bytes,
            Err(e) => {
                return Err(e);
            },
        };
        Ok(bytes[0])
    }
}

impl Decode for u16 {
    open spec fn parse(input: Seq<u8>) -> Option<(u16, nat)> {
        match parse_be(input, 2) {
            Some((value, used)) => Some((value as u16, used)),
            None => None,
        }
    }

    proof fn lemma_parse_in_bounds(input: Seq<u8>) {
    }

    fn decode<R: ReadBuffer>(read_buffer: &mut R) -> (r: Result<Self, DecodeError>) {
        let ghost input = read_buffer.remaining();
        let value = match decode_be(read_buffer, 2) {
            Ok(value) => value,
            Err(e) => {
                return Err(e);
            },
        };
        proof {
            lemma_be_value_bound(input.take(2));
            lemma_pow256_values();
        }
        Ok(value as u16)
    }
}

impl Decode for u32 {
    open spec fn parse(input: Seq<u8>) -> Option<(u32, nat)> {
        match parse_be(input, 4) {
            Some((value, used)) => Some((value as u32, used)),
            None => None,
        }
    }

    proof fn lemma_parse_in_bounds(input: Seq<u8>) {
    }

    fn decode<R: ReadBuffer>(read_buffer: &mut R) -> (r: Result<Self, DecodeError>) {
        decode_be(read_buffer, 4)
    }
}

impl Decode for () {
    open spec fn parse(input: Seq<u8>) -> Option<((), nat)> {
        Some(((), 0))
    }

    proof fn lemma_parse_in_bounds(input: Seq<u8>) {
    }

    fn decode<R: ReadBuffer>(read_buffer: &mut R) -> (r: Result<Self, DecodeError>) {
        Ok(())
    }
}

impl<T: Decode> Decode for Option<T> {
    open spec fn parse(input: Seq<u8>) -> Option<(Option<T::V>, nat)> {
        if input.len() == 0 {
            Some((None, 0))
        } else {
            match T::parse(input) {
                Some((value, used)) => Some((Some(value), used)),
                None => None,
            }
        }
    }

    proof fn lemma_parse_in_bounds(input: Seq<u8>) {
        T::lemma_parse_in_bounds(input);
    }

    fn decode<R: ReadBuffer>(read_buffer: &mut R) -> (r: Result<Self, DecodeError>) {
        if read_buffer.is_empty() {
            Ok(None)
        } else {
            match T::decode(read_buffer) {
                Ok(value) => Ok(Some(value)),
                Err(e) => Err(e),
            }
        }
    }
}

impl<Size: DataSize> Decode for Opaque<Size> {
    open spec fn parse(input: Seq<u8>) -> Option<(Seq<u8>, nat)> {
        match parse_be(input, Size::spec_byte_size()) {
            Some((len, width)) => if input.len() - width < len {
                None
            } else {
                Some((input.subrange(width as int, (width + len) as int), width + len))
            },
            None => None,
        }
    }

    proof fn lemma_parse_in_bounds(input: Seq<u8>) {
    }

    fn decode<R: ReadBuffer>(read_buffer: &mut R) -> (r: Result<Self, DecodeError>) {
        let ghost input = read_buffer.remaining();
        proof {
            Size::lemma_byte_size();
        }
        let len = match decode_be(read_buffer, Size::byte_size()) {
            Ok(len) => len,
            Err(e) => {
                return Err(e);
            },
        };
        let bytes = match read_buffer.fill_buf(len as usize) {
            Ok(bytes) => bytes,
            Err(e) => {
                return Err(e);
            },
        };
        let held = vstd::slice::slice_to_vec(bytes);
        proof {
            let width = Size::spec_byte_size();
            assert(bytes@ =~= input.subrange(width as int, width + len));
        }
        Ok(Opaque::from(held))
    }
}

/// What all of `input` reads as, one `T` after the other; `None` where some part of it
/// spells no `T`, or one that takes no bytes.
pub open spec fn parse_many<T: Decode>(input: Seq<u8>) -> Option<Seq<T::V>>
    decreases input.len(),
{
    if input.len() == 0 {
        Some(Seq::empty())
    } else {
        match T::parse(input) {
            Some((value, used)) => if 0 < used <= input.len() {
                match parse_many::<T>(input.skip(used as int)) {
                    Some(rest) => Some(seq![value] + rest),
                    None => None,
                }
            } else {
                None
            },
            None => None,
        }
    }
}

/// All of `input` reads as its bytes, one after the other.
pub proof fn lemma_parse_many_bytes(input: Seq<u8>)
    ensures
        parse_many::<u8>(input) == Some(input),
    decreases input.len(),
{
    if input.len() > 0 {
        lemma_parse_many_bytes(input.skip(1));
    }
}

/// The views of `items`, in their order.
pub open spec fn views_of<T: DeepView>(items: Seq<T>) -> Seq<T::V> {
    Seq::new(items.len(), |i: int| items[i].deep_view())
}

impl<T: Decode> Decode for Vec<T> {
    open spec fn parse(input: Seq<u8>) -> Option<(Seq<T::V>, nat)> {
        match parse_many::<T>(input) {
            Some(values) => Some((values, input.len())),
            None => None,
        }
    }

    proof fn lemma_parse_in_bounds(input: Seq<u8>) {
    }

    fn decode<R: ReadBuffer>(read_buffer: &mut R) -> (r: Result<Self, DecodeError>) {
        let mut vector: Vec<T> = Vec::new();
        let ghost input = read_buffer.remaining();
        while !read_buffer.is_empty()
            invariant
                input == old(read_buffer).remaining(),
                read_buffer.remaining().len() <= input.len(),
                parse_many::<T>(input) == match parse_many::<T>(read_buffer.remaining()) {
                    Some(rest) => Some(views_of(vector@) + rest),
                    None => None,
                },
            ensures
                read_buffer.remaining().len() == 0,
            decreases read_buffer.remaining().len(),
        {
            let ghost before = read_buffer.remaining();
            let ghost taken = vector@;
            let left = read_buffer.available();
            proof {
                T::lemma_parse_in_bounds(before);
            }
            let value = match T::decode(read_buffer) {
                Ok(value) => value,
                Err(e) => {
                    return Err(e);
                },
            };
            if read_buffer.available() >= left {
                return Err(DecodeError);
            }
            vector.push(value);
            proof {
                match parse_many::<T>(read_buffer.remaining()) {
                    Some(rest) => {
                        assert(views_of(taken) + (seq![value.deep_view()] + rest) =~= views_of(
                            vector@,
                        ) + rest);
                    },
                    None => {},
                }
            }
        }
        Ok(vector)
    }
}

impl<Size: DataSize, T: Decode> Decode for SizeWrapper<Size, T> {
    open spec fn parse(input: Seq<u8>) -> Option<(T::V, nat)> {
        match parse_be(input, Size::spec_byte_size()) {
            Some((size, width)) => if input.len() - width < size {
                None
            } else {
                match T::parse(input.subrange(width as int, (width + size) as int)) {
                    Some((value, used)) => if used == size {
                        Some((value, width + size))
                    } else {
                        None
                    },
                    None => None,
                }
            },
            None => None,
        }
    }

    proof fn lemma_parse_in_bounds(input: Seq<u8>) {
    }

    fn decode<R: ReadBuffer>(read_buffer: &mut R) -> (r: Result<Self, DecodeError>) {
        let ghost input = read_buffer.remaining();
        proof {
            Size::lemma_byte_size();
        }
        let size = match decode_be(read_buffer, Size::byte_size()) {
            Ok(size) => size,
            Err(e) => {
                return Err(e);
            },
        };
        let mut left: &[u8] = match read_buffer.fill_buf(size as usize) {
            Ok(bytes) => bytes,
            Err(e) => {
                return Err(e);
            },
        };
        let ghost body = left@;
        proof {
            T::lemma_parse_in_bounds(body);
        }
        let decoded = T::decode(&mut left);
        let exhausted = left.is_empty();
        proof {
            let width = Size::spec_byte_size();
            assert(body =~= input.subrange(width as int, (width + size) as int));
        }
        match decoded {
            Ok(value) => if exhausted {
                Ok(SizeWrapper::new(value))
            } else {
                Err(DecodeError)
            },
            Err(e) => Err(e),
        }
    }
}

impl<const N: usize> Decode for [u8; N] {
    open spec fn parse(input: Seq<u8>) -> Option<(Seq<u8>, nat)> {
        if input.len() < N {
            None
        } else {
            Some((input.take(N as int), N as nat))
        }
    }

    proof fn lemma_parse_in_bounds(input: Seq<u8>) {
    }

    fn decode<R: ReadBuffer>(read_buffer: &mut R) -> (r: Result<Self, DecodeError>) {
        let bytes = match read_buffer.fill_buf(N) {
            Ok(bytes) => bytes,
            Err(e) => {
                return Err(e);
            },
        };
        let mut array: [u8; N] = vstd::array::array_fill_for_copy_types(0u8);
        let mut at: usize = 0;
        while at < N
            invariant
                at <= N,
                bytes@.len() == N,
                forall|i: int| 0 <= i < at ==> array@[i] == bytes@[i],
            decreases N - at,
        {
            array[at] = bytes[at];
            at = at + 1;
        }
        assert(array.deep_view() =~= bytes@);
        Ok(array)
    }
}

impl Decode for Ignore {
    open spec fn parse(input: Seq<u8>) -> Option<((), nat)> {
        Some(((), input.len()))
    }

    proof fn lemma_parse_in_bounds(input: Seq<u8>) {
    }

    fn decode<R: ReadBuffer>(read_buffer: &mut R) -> (r: Result<Self, DecodeError>) {
        let _ = read_buffer.fill_all();
        assert(read_buffer.remaining() =~= old(read_buffer).remaining().skip(
            old(read_buffer).remaining().len() as int,
        ));
        Ok(Ignore)
    }
}

} // verus!
