//! Network order encoding of types.
use crate::codec::bytes::{
    be_bytes, be_encode, lemma_be_bytes_len, lemma_pow256_monotonic, lemma_pow256_values, pow256,
};
use crate::codec::{u24, Opaque, SizeWrapper};
use core::convert::Infallible;
use vstd::prelude::*;

verus! {

/// The error returned by a slice when it is full and no more data can be encoded into it.
#[derive(Debug, PartialEq, Eq)]
pub struct BufferOverflow;

/// Whether `len` more bytes go into a buffer with `room` left; `None` is room without end.
pub open spec fn has_room(room: Option<nat>, len: nat) -> bool {
    match room {
        Some(free) => len <= free,
        None => true,
    }
}

/// The room left once `len` bytes went in.
pub open spec fn room_after(room: Option<nat>, len: nat) -> Option<nat> {
    match room {
        Some(free) => Some((free - len) as nat),
        None => None,
    }
}

/// `after` starts with all of `before`.
pub open spec fn extends(after: Seq<u8>, before: Seq<u8>) -> bool {
    before.len() <= after.len() && after.subrange(0, before.len() as int) =~= before
}

/// Whether a buffer that held `before` bytes with `room_before` left stands for the same
/// memory as one that holds `after` bytes with `room_after` left: what it holds and what it
/// still takes add up to the same, or it grows as needed both times.
pub open spec fn same_capacity(
    before: nat,
    room_before: Option<nat>,
    after: nat,
    room_after: Option<nat>,
) -> bool {
    match (room_before, room_after) {
        (Some(free_before), Some(free_after)) => before + free_before == after + free_after,
        (None, None) => true,
        _ => false,
    }
}

/// A write buffer where data can be encoded into.
pub trait WriteBuffer {
    /// The error returned by this write buffer if it does not have any more space left to fill
    /// from a buffer.
    type Error;

    /// The bytes laid down so far, oldest first.
    spec fn written(&self) -> Seq<u8>;

    /// How many more bytes the buffer takes; `None` where it grows as needed.
    spec fn room(&self) -> Option<nat>;

    proof fn lemma_written_is_bounded(&self)
        ensures
            self.written().len() <= usize::MAX,
    ;

    /// Try to fill this write buffer with the bytes from `buffer`: all of them or none.
    fn fill_from(&mut self, buffer: &[u8]) -> (r: Result<(), Self::Error>)
        ensures
            r is Ok <==> has_room(old(self).room(), buffer@.len()),
            r is Ok ==> final(self).written() == old(self).written() + buffer@,
            r is Ok ==> final(self).room() == room_after(old(self).room(), buffer@.len()),
            r is Err ==> final(self).written() == old(self).written(),
            r is Err ==> final(self).room() == old(self).room(),
    ;

    /// Skip `len` bytes, which `fill_skipped` sets later, and return where they start.
    ///
    /// This can be used to prepend the size in bytes before some types that do not have their
    /// total size known in advance.
    fn later_fill(&mut self, len: usize) -> (r: Result<usize, Self::Error>)
        ensures
            r is Ok <==> has_room(old(self).room(), len as nat),
            r matches Ok(at) ==> {
                &&& at == old(self).written().len()
                &&& final(self).written().len() == at + len
                &&& extends(final(self).written(), old(self).written())
                &&& final(self).room() == room_after(old(self).room(), len as nat)
            },
            r is Err ==> final(self).written() == old(self).written(),
            r is Err ==> final(self).room() == old(self).room(),
    ;

    /// Set bytes that are laid down already, from position `at` on, to those of `buffer`.
    fn fill_skipped(&mut self, at: usize, buffer: &[u8])
        requires
            at + buffer@.len() <= old(self).written().len(),
        ensures
            final(self).written() == old(self).written().subrange(0, at as int) + buffer@ + old(
                self,
            ).written().skip(at + buffer@.len()),
            final(self).room() == old(self).room(),
    ;
}

impl WriteBuffer for Vec<u8> {
    type Error = Infallible;

    open spec fn written(&self) -> Seq<u8> {
        self@
    }

    open spec fn room(&self) -> Option<nat> {
        None
    }

    proof fn lemma_written_is_bounded(&self) {
        assert(self@.len() == self.len());
    }

    fn fill_from(&mut self, buffer: &[u8]) -> (r: Result<(), Self::Error>) {
        self.extend_from_slice(buffer);
        Ok(())
    }

    fn later_fill(&mut self, len: usize) -> (r: Result<usize, Self::Error>) {
        let at = self.len();
        let mut skipped: usize = 0;
        while skipped < len
            invariant
                skipped <= len,
                self@.len() == at + skipped,
                at == old(self)@.len(),
                self@.subrange(0, at as int) =~= old(self)@,
            decreases len - skipped,
        {
            self.push(0u8);
            skipped = skipped + 1;
        }
        Ok(at)
    }

    fn fill_skipped(&mut self, at: usize, buffer: &[u8]) {
        let mut done: usize = 0;
        assert(self@.len() == self.len());
        while done < buffer.len()
            invariant
                done <= buffer@.len(),
                at + buffer@.len() <= old(self)@.len() <= usize::MAX,
                self@.len() == old(self)@.len(),
                forall|i: int| 0 <= i < at ==> self@[i] == old(self)@[i],
                forall|i: int| 0 <= i < done ==> self@[at + i] == buffer@[i],
                forall|i: int| at + done <= i < self@.len() ==> self@[i] == old(self)@[i],
            decreases buffer@.len() - done,
        {
            self.set(at + done, buffer[done]);
            done = done + 1;
        }
        assert(self@ =~= old(self)@.subrange(0, at as int) + buffer@ + old(self)@.skip(
            at + buffer@.len(),
        ));
    }
}

/// A write buffer over a slice: it fills the slice from the front and fails where the slice
/// is full.
pub struct SliceWriter<'a> {
    buf: &'a mut [u8],
    pos: usize,
}

impl<'a> SliceWriter<'a> {
    #[verifier::type_invariant]
    spec fn inv(&self) -> bool {
        self.pos <= self.buf@.len()
    }

    /// A writer at the front of `buf`.
    pub fn new(buf: &'a mut [u8]) -> (writer: Self)
        ensures
            writer.written() == Seq::<u8>::empty(),
            writer.room() == Some(old(buf)@.len()),
    {
        SliceWriter { buf, pos: 0 }
    }

    /// The slice behind the writer, once the writing is over: the bytes that went in stand
    /// at its front, and it is as long as it was.
    pub fn into_slice(self) -> (slice: &'a mut [u8])
        ensures
            self.room() matches Some(room) && slice@.len() == self.written().len() + room,
            slice@.take(self.written().len() as int) == self.written(),
    {
        proof {
            use_type_invariant(&self);
        }
        let SliceWriter { buf, pos } = self;
        buf
    }

    /// How many bytes went in so far.
    pub fn position(&self) -> (pos: usize)
        ensures
            pos == self.written().len(),
    {
        proof {
            use_type_invariant(self);
        }
        self.pos
    }
}

impl<'a> WriteBuffer for SliceWriter<'a> {
    type Error = BufferOverflow;

    closed spec fn written(&self) -> Seq<u8> {
        if self.pos <= self.buf@.len() {
            self.buf@.subrange(0, self.pos as int)
        } else {
            Seq::empty()
        }
    }

    closed spec fn room(&self) -> Option<nat> {
        if self.pos <= self.buf@.len() {
            Some((self.buf@.len() - self.pos) as nat)
        } else {
            Some(0)
        }
    }

    proof fn lemma_written_is_bounded(&self) {
    }

    fn fill_from(&mut self, buffer: &[u8]) -> (r: Result<(), Self::Error>) {
        proof {
            use_type_invariant(&*self);
        }
        if self.buf.len() - self.pos < buffer.len() {
            return Err(BufferOverflow);
        }
        let start = self.pos;
        let mut done: usize = 0;
        while done < buffer.len()
            invariant
                done <= buffer@.len(),
                self.pos == start,
                start + buffer@.len() <= self.buf@.len() <= usize::MAX,
                self.buf@.len() == old(self).buf@.len(),
                forall|i: int| 0 <= i < start ==> self.buf@[i] == old(self).buf@[i],
                forall|i: int| 0 <= i < done ==> self.buf@[start + i] == buffer@[i],
            decreases buffer@.len() - done,
        {
            self.buf[start + done] = buffer[done];
            done = done + 1;
        }
        self.pos = start + buffer.len();
        Ok(())
    }

    fn later_fill(&mut self, len: usize) -> (r: Result<usize, Self::Error>) {
        proof {
            use_type_invariant(&*self);
        }
        if self.buf.len() - self.pos < len {
            return Err(BufferOverflow);
        }
        let at = self.pos;
        self.pos = at + len;
        Ok(at)
    }

    fn fill_skipped(&mut self, at: usize, buffer: &[u8]) {
        proof {
            use_type_invariant(&*self);
        }
        let mut done: usize = 0;
        while done < buffer.len()
            invariant
                done <= buffer@.len(),
                self.pos == old(self).pos,
                self.pos <= self.buf@.len(),
                at + buffer@.len() <= self.pos,
                self.buf@.len() == old(self).buf@.len(),
                forall|i: int| 0 <= i < at ==> self.buf@[i] == old(self).buf@[i],
                forall|i: int| 0 <= i < done ==> self.buf@[at + i] == buffer@[i],
                forall|i: int| at + done <= i < self.buf@.len() ==> self.buf@[i] == old(self).buf@[i],
            decreases buffer@.len() - done,
        {
            self.buf[at + done] = buffer[done];
            done = done + 1;
        }
        assert(self.written() =~= old(self).written().subrange(0, at as int) + buffer@ + old(
            self,
        ).written().skip(at + buffer@.len()));
    }
}

/// An interface for types that could represent sizes on the wire.
pub trait DataSize: Sized {
    /// The number of bytes this type uses on the wire.
    ///
    /// This needs to be known in advance, so they can be skipped during encoding until the total
    /// size is known.
    spec fn spec_byte_size() -> nat;

    proof fn lemma_byte_size()
        ensures
            1 <= Self::spec_byte_size() <= 4,
    ;

    /// The number of bytes this type uses on the wire.
    fn byte_size() -> (size: usize)
        ensures
            size == Self::spec_byte_size(),
    ;
}

impl DataSize for u8 {
    open spec fn spec_byte_size() -> nat {
        1
    }

    proof fn lemma_byte_size() {
    }

    fn byte_size() -> (size: usize) {
        1
    }
}

impl DataSize for u16 {
    open spec fn spec_byte_size() -> nat {
        2
    }

    proof fn lemma_byte_size() {
    }

    fn byte_size() -> (size: usize) {
        2
    }
}

impl DataSize for u24 {
    open spec fn spec_byte_size() -> nat {
        3
    }

    proof fn lemma_byte_size() {
    }

    fn byte_size() -> (size: usize) {
        3
    }
}

impl DataSize for u32 {
    open spec fn spec_byte_size() -> nat {
        4
    }

    proof fn lemma_byte_size() {
    }

    fn byte_size() -> (size: usize) {
        4
    }
}

/// An interface for types that can be encoded in network order.
pub trait Encode {
    /// The bytes that stand for `self` on the wire.
    spec fn wire(&self) -> Seq<u8>;

    /// Whether `self` has an encoding at all: a size in front must hold the length it counts.
    spec fn encodable(&self) -> bool;

    /// Encode `self` into the `WriteBuffer` in network order, and return how many bytes that
    /// took.
    ///
    /// This can only fail if the write buffer has less room than the encoding needs. What it
    /// held before then stays in front, and what was laid down behind it of `self` is taken
    /// from the room that was left.
    fn encode<W: WriteBuffer>(&self, write_buffer: &mut W) -> (r: Result<usize, W::Error>)
        requires
            self.encodable(),
        ensures
            r is Ok <==> has_room(old(write_buffer).room(), self.wire().len()),
            r matches Ok(count) ==> {
                &&& count == self.wire().len()
                &&& final(write_buffer).written() == old(write_buffer).written() + self.wire()
                &&& final(write_buffer).room() == room_after(
                    old(write_buffer).room(),
                    self.wire().len(),
                )
            },
            r is Err ==> extends(final(write_buffer).written(), old(write_buffer).written()),
            r is Err ==> same_capacity(
                old(write_buffer).written().len(),
                old(write_buffer).room(),
                final(write_buffer).written().len(),
                final(write_buffer).room(),
            ),
    ;
}

impl Encode for u8 {
    open spec fn wire(&self) -> Seq<u8> {
        seq![*self]
    }

    open spec fn encodable(&self) -> bool {
        true
    }

    fn encode<W: WriteBuffer>(&self, write_buffer: &mut W) -> (r: Result<usize, W::Error>) {
        let bytes: [u8; 1] = [*self];
        write_buffer.fill_from(bytes.as_slice())?;
        Ok(1)
    }
}

impl Encode for u16 {
    open spec fn wire(&self) -> Seq<u8> {
        be_bytes(*self as nat, 2)
    }

    open spec fn encodable(&self) -> bool {
        true
    }

    fn encode<W: WriteBuffer>(&self, write_buffer: &mut W) -> (r: Result<usize, W::Error>) {
        let bytes = be_encode(*self as u64, 2);
        proof {
            lemma_be_bytes_len(*self as nat, 2);
        }
        write_buffer.fill_from(bytes.as_slice())?;
        Ok(2)
    }
}

impl Encode for u24 {
    open spec fn wire(&self) -> Seq<u8> {
        be_bytes(self.0 as nat, 3)
    }

    open spec fn encodable(&self) -> bool {
        true
    }

    fn encode<W: WriteBuffer>(&self, write_buffer: &mut W) -> (r: Result<usize, W::Error>) {
        let bytes = be_encode(self.0 as u64, 3);
        proof {
            lemma_be_bytes_len(self.0 as nat, 3);
        }
        write_buffer.fill_from(bytes.as_slice())?;
        Ok(3)
    }
}

impl Encode for u32 {
    open spec fn wire(&self) -> Seq<u8> {
        be_bytes(*self as nat, 4)
    }

    open spec fn encodable(&self) -> bool {
        true
    }

    fn encode<W: WriteBuffer>(&self, write_buffer: &mut W) -> (r: Result<usize, W::Error>) {
        let bytes = be_encode(*self as u64, 4);
        proof {
            lemma_be_bytes_len(*self as nat, 4);
        }
        write_buffer.fill_from(bytes.as_slice())?;
        Ok(4)
    }
}

impl Encode for u64 {
    open spec fn wire(&self) -> Seq<u8> {
        be_bytes(*self as nat, 8)
    }

    open spec fn encodable(&self) -> bool {
        true
    }

    fn encode<W: WriteBuffer>(&self, write_buffer: &mut W) -> (r: Result<usize, W::Error>) {
        let bytes = be_encode(*self, 8);
        proof {
            lemma_be_bytes_len(*self as nat, 8);
        }
        write_buffer.fill_from(bytes.as_slice())?;
        Ok(8)
    }
}

impl Encode for () {
    open spec fn wire(&self) -> Seq<u8> {
        Seq::empty()
    }

    open spec fn encodable(&self) -> bool {
        true
    }

    fn encode<W: WriteBuffer>(&self, write_buffer: &mut W) -> (r: Result<usize, W::Error>) {
        Ok(0)
    }
}

impl<T: Encode> Encode for Option<T> {
    open spec fn wire(&self) -> Seq<u8> {
        match self {
            Some(value) => value.wire(),
            None => Seq::empty(),
        }
    }

    open spec fn encodable(&self) -> bool {
        match self {
            Some(value) => value.encodable(),
            None => true,
        }
    }

    fn encode<W: WriteBuffer>(&self, write_buffer: &mut W) -> (r: Result<usize, W::Error>) {
        match self {
            Some(value) => value.encode(write_buffer),
            None => {
                Ok(0)
            },
        }
    }
}

impl<'a, T: Encode + ?Sized> Encode for &'a T {
    open spec fn wire(&self) -> Seq<u8> {
        (**self).wire()
    }

    open spec fn encodable(&self) -> bool {
        (**self).encodable()
    }

    fn encode<W: WriteBuffer>(&self, write_buffer: &mut W) -> (r: Result<usize, W::Error>) {
        (*self).encode(write_buffer)
    }
}

impl<Size: DataSize> Encode for Opaque<Size> {
    open spec fn wire(&self) -> Seq<u8> {
        be_bytes(self@.len(), Size::spec_byte_size()) + self@
    }

    open spec fn encodable(&self) -> bool {
        self@.len() < pow256(Size::spec_byte_size())
    }

    fn encode<W: WriteBuffer>(&self, write_buffer: &mut W) -> (r: Result<usize, W::Error>) {
        let width = Size::byte_size();
        let bytes = self.as_slice();
        proof {
            Size::lemma_byte_size();
            lemma_pow256_monotonic(Size::spec_byte_size(), 4);
            lemma_pow256_values();
            lemma_be_bytes_len(self@.len(), Size::spec_byte_size());
        }
        let size = be_encode(bytes.len() as u64, width);
        let ghost before = write_buffer.written();
        match write_buffer.fill_from(size.as_slice()) {
            Ok(()) => {},
            Err(e) => {
                return Err(e);
            },
        }
        match write_buffer.fill_from(bytes) {
            Ok(()) => {},
            Err(e) => {
                return Err(e);
            },
        }
        proof {
            write_buffer.lemma_written_is_bounded();
        }
        Ok(width + bytes.len())
    }
}

/// The encodings of `items`, one after the other.
pub open spec fn concat_wire<T: Encode>(items: Seq<T>) -> Seq<u8>
    decreases items.len(),
{
    if items.len() == 0 {
        Seq::empty()
    } else {
        concat_wire(items.drop_last()) + items.last().wire()
    }
}

/// Whether each of `items` has an encoding.
pub open spec fn all_encodable<T: Encode>(items: Seq<T>) -> bool {
    forall|i: int| 0 <= i < items.len() ==> (#[trigger] items[i]).encodable()
}

/// The encoding of the first `count` items is no longer than that of all of them.
pub proof fn lemma_concat_wire_grows<T: Encode>(items: Seq<T>, count: int)
    requires
        0 <= count <= items.len(),
    ensures
        concat_wire(items.take(count)).len() <= concat_wire(items).len(),
    decreases items.len() - count,
{
    if count < items.len() {
        lemma_concat_wire_grows(items, count + 1);
        assert(items.take(count + 1).drop_last() =~= items.take(count));
    } else {
        assert(items.take(count) =~= items);
    }
}

/// Bytes one after the other are their own encoding.
pub proof fn lemma_concat_wire_of_bytes(items: Seq<u8>)
    ensures
        concat_wire(items) == items,
    decreases items.len(),
{
    if items.len() > 0 {
        lemma_concat_wire_of_bytes(items.drop_last());
    }
}

impl<T: Encode> Encode for Vec<T> {
    open spec fn wire(&self) -> Seq<u8> {
        concat_wire(self@)
    }

    open spec fn encodable(&self) -> bool {
        all_encodable(self@)
    }

    fn encode<W: WriteBuffer>(&self, write_buffer: &mut W) -> (r: Result<usize, W::Error>) {
        let mut total: usize = 0;
        let mut at: usize = 0;
        while at < self.len()
            invariant
                at <= self@.len(),
                all_encodable(self@),
                total == concat_wire(self@.take(at as int)).len(),
                has_room(old(write_buffer).room(), total as nat),
                write_buffer.written() == old(write_buffer).written() + concat_wire(
                    self@.take(at as int),
                ),
                write_buffer.room() == room_after(old(write_buffer).room(), total as nat),
            decreases self@.len() - at,
        {
            let ghost before = write_buffer.written();
            proof {
                assert(self@.take(at + 1).drop_last() =~= self@.take(at as int));
                lemma_concat_wire_grows(self@, at + 1);
            }
            match self[at].encode(write_buffer) {
                Ok(count) => {
                    proof {
                        write_buffer.lemma_written_is_bounded();
                        assert(write_buffer.written() =~= old(write_buffer).written()
                            + concat_wire(self@.take(at + 1)));
                    }
                    total = total + count;
                },
                Err(e) => {
                    return Err(e);
                },
            }
            at = at + 1;
        }
        assert(self@.take(at as int) =~= self@);
        Ok(total)
    }
}

impl<Size: DataSize, T: Encode> Encode for SizeWrapper<Size, T> {
    open spec fn wire(&self) -> Seq<u8> {
        be_bytes(self.value().wire().len(), Size::spec_byte_size()) + self.value().wire()
    }

    open spec fn encodable(&self) -> bool {
        self.value().encodable() && self.value().wire().len() < pow256(Size::spec_byte_size())
    }

    fn encode<W: WriteBuffer>(&self, write_buffer: &mut W) -> (r: Result<usize, W::Error>) {
        let width = Size::byte_size();
        let ghost before = write_buffer.written();
        proof {
            Size::lemma_byte_size();
            lemma_pow256_monotonic(Size::spec_byte_size(), 4);
            lemma_pow256_values();
            lemma_be_bytes_len(self.value().wire().len(), Size::spec_byte_size());
        }
        let at = match write_buffer.later_fill(width) {
            Ok(at) => at,
            Err(e) => {
                return Err(e);
            },
        };
        let ghost skipped = write_buffer.written();
        let total = match self.get().encode(write_buffer) {
            Ok(total) => total,
            Err(e) => {
                return Err(e);
            },
        };
        let size = be_encode(total as u64, width);
        write_buffer.fill_skipped(at, size.as_slice());
        proof {
            write_buffer.lemma_written_is_bounded();
        }
        Ok(total + width)
    }
}

impl<const N: usize> Encode for [u8; N] {
    open spec fn wire(&self) -> Seq<u8> {
        self@
    }

    open spec fn encodable(&self) -> bool {
        true
    }

    fn encode<W: WriteBuffer>(&self, write_buffer: &mut W) -> (r: Result<usize, W::Error>) {
        write_buffer.fill_from(self.as_slice())?;
        Ok(N)
    }
}

impl Encode for [u8] {
    open spec fn wire(&self) -> Seq<u8> {
        self@
    }

    open spec fn encodable(&self) -> bool {
        true
    }

    fn encode<W: WriteBuffer>(&self, write_buffer: &mut W) -> (r: Result<usize, W::Error>) {
        write_buffer.fill_from(self)?;
        Ok(self.len())
    }
}

impl<A: Encode, B: Encode> Encode for (A, B) {
    open spec fn wire(&self) -> Seq<u8> {
        self.0.wire() + self.1.wire()
    }

    open spec fn encodable(&self) -> bool {
        self.0.encodable() && self.1.encodable()
    }

    fn encode<W: WriteBuffer>(&self, write_buffer: &mut W) -> (r: Result<usize, W::Error>) {
        let ghost before = write_buffer.written();
        let first = match self.0.encode(write_buffer) {
            Ok(count) => count,
            Err(e) => {
                return Err(e);
            },
        };
        let second = match self.1.encode(write_buffer) {
            Ok(count) => count,
            Err(e) => {
                return Err(e);
            },
        };
        proof {
            write_buffer.lemma_written_is_bounded();
        }
        Ok(first + second)
    }
}

} // verus!
