//! What holds of encoding and decoding together.
use crate::codec::bytes::{
    be_bytes, lemma_be_bytes_len, lemma_be_value_of_bytes, lemma_pow256_values, pow256,
};
use crate::codec::decode::{lemma_parse_many_bytes, parse_be, Decode};
use crate::codec::encode::{lemma_concat_wire_of_bytes, DataSize, Encode};
use crate::codec::{Opaque, SizeWrapper};
use vstd::prelude::*;

verus! {

/// Types whose decoder undoes their encoder.
pub trait RoundTrip: Encode + Decode {
    /// Whether `self` is the value that its own encoding stands for. A value that is not has
    /// an encoding, but reads back as another value.
    spec fn canonical(&self) -> bool;

    /// Whether this type reads to the end of its input, so that nothing can follow it.
    spec fn reads_to_end() -> bool;

    /// Decoding the encoding of `self`, with `rest` behind it, gives `self` back and takes
    /// exactly the bytes of the encoding.
    proof fn lemma_round_trip(&self, rest: Seq<u8>)
        requires
            self.encodable(),
            self.canonical(),
            Self::reads_to_end() ==> rest.len() == 0,
        ensures
            Self::parse(self.wire() + rest) == Some((self.deep_view(), self.wire().len())),
    ;
}

impl RoundTrip for u8 {
    open spec fn canonical(&self) -> bool {
        true
    }

    open spec fn reads_to_end() -> bool {
        false
    }

    proof fn lemma_round_trip(&self, rest: Seq<u8>) {
    }
}

impl RoundTrip for u16 {
    open spec fn canonical(&self) -> bool {
        true
    }

    open spec fn reads_to_end() -> bool {
        false
    }

    proof fn lemma_round_trip(&self, rest: Seq<u8>) {
        lemma_pow256_values();
        lemma_be_bytes_len(*self as nat, 2);
        lemma_be_value_of_bytes(*self as nat, 2);
        assert((self.wire() + rest).take(2) =~= self.wire());
    }
}

impl RoundTrip for u32 {
    open spec fn canonical(&self) -> bool {
        true
    }

    open spec fn reads_to_end() -> bool {
        false
    }

    proof fn lemma_round_trip(&self, rest: Seq<u8>) {
        lemma_pow256_values();
        lemma_be_bytes_len(*self as nat, 4);
        lemma_be_value_of_bytes(*self as nat, 4);
        assert((self.wire() + rest).take(4) =~= self.wire());
    }
}

impl<const N: usize> RoundTrip for [u8; N] {
    open spec fn canonical(&self) -> bool {
        true
    }

    open spec fn reads_to_end() -> bool {
        false
    }

    proof fn lemma_round_trip(&self, rest: Seq<u8>) {
    }
}

impl RoundTrip for Vec<u8> {
    open spec fn canonical(&self) -> bool {
        true
    }

    open spec fn reads_to_end() -> bool {
        true
    }

    proof fn lemma_round_trip(&self, rest: Seq<u8>) {
        lemma_concat_wire_of_bytes(self@);
        lemma_parse_many_bytes(self@);
    }
}

impl<Size: DataSize> RoundTrip for Opaque<Size> {
    open spec fn canonical(&self) -> bool {
        true
    }

    open spec fn reads_to_end() -> bool {
        false
    }

    proof fn lemma_round_trip(&self, rest: Seq<u8>) {
        let width = Size::spec_byte_size();
        let input = self.wire() + rest;
        lemma_be_bytes_len(self@.len(), width);
        lemma_be_value_of_bytes(self@.len(), width);
        assert(input.take(width as int) =~= be_bytes(self@.len(), width));
    }
}

impl<Size: DataSize, T: RoundTrip> RoundTrip for SizeWrapper<Size, T> {
    open spec fn canonical(&self) -> bool {
        self.value().canonical()
    }

    open spec fn reads_to_end() -> bool {
        false
    }

    proof fn lemma_round_trip(&self, rest: Seq<u8>) {
        let width = Size::spec_byte_size();
        let body = self.value().wire();
        let input = self.wire() + rest;
        lemma_be_bytes_len(body.len(), width);
        lemma_be_value_of_bytes(body.len(), width);
        assert(input.take(width as int) =~= be_bytes(body.len(), width));
        assert(input.subrange(width as int, (width + body.len()) as int) =~= body);
        self.value().lemma_round_trip(Seq::empty());
    }
}

/// Bytes behind a value, inside the length that is declared for it, make the whole unreadable:
/// a length-wrapped value has to fill its length exactly.
pub proof fn lemma_trailing_bytes_are_rejected<Size: DataSize, T: RoundTrip>(
    value: T,
    junk: Seq<u8>,
    rest: Seq<u8>,
)
    requires
        value.encodable(),
        value.canonical(),
        !T::reads_to_end(),
        junk.len() > 0,
        value.wire().len() + junk.len() < pow256(Size::spec_byte_size()),
    ensures
        SizeWrapper::<Size, T>::parse(
            be_bytes(value.wire().len() + junk.len(), Size::spec_byte_size()) + value.wire() + junk
                + rest,
        ) is None,
{
    let width = Size::spec_byte_size();
    let declared = value.wire().len() + junk.len();
    let input = be_bytes(declared, width) + value.wire() + junk + rest;
    lemma_be_bytes_len(declared, width);
    lemma_be_value_of_bytes(declared, width);
    assert(input.take(width as int) =~= be_bytes(declared, width));
    assert(input.subrange(width as int, (width + declared) as int) =~= value.wire() + junk);
    value.lemma_round_trip(junk);
}

/// Whatever the wrapped type is: where it reads less, or more, than the declared length
/// holds, the length-wrapped value does not decode.
pub proof fn lemma_length_wrapped_exact_consume<Size: DataSize, T: Decode>(input: Seq<u8>)
    requires
        parse_be(input, Size::spec_byte_size()) matches Some((size, width)) && size <= input.len()
            - width && (T::parse(input.subrange(width as int, (width + size) as int)) matches Some(
            (_, used),
        ) ==> used != size),
    ensures
        SizeWrapper::<Size, T>::parse(input) is None,
{
}

} // verus!
