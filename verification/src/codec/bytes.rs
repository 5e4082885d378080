//! Big-endian ("network order") integers as byte sequences.
use vstd::prelude::*;

verus! {

/// `256` raised to `width`: how many values `width` bytes can tell apart.
pub open spec fn pow256(width: nat) -> nat
    decreases width,
{
    if width == 0 {
        1
    } else {
        256 * pow256((width - 1) as nat)
    }
}

/// The low `width` bytes of `value`, most significant first.
pub open spec fn be_bytes(value: nat, width: nat) -> Seq<u8>
    decreases width,
{
    if width == 0 {
        Seq::empty()
    } else {
        be_bytes(value / 256, (width - 1) as nat).push((value % 256) as u8)
    }
}

/// The number that `bytes` spell, most significant first.
pub open spec fn be_value(bytes: Seq<u8>) -> nat
    decreases bytes.len(),
{
    if bytes.len() == 0 {
        0
    } else {
        be_value(bytes.drop_last()) * 256 + bytes.last() as nat
    }
}

/// The powers of 256 that the widths in use need.
pub proof fn lemma_pow256_values()
    ensures
        pow256(0) == 1,
        pow256(1) == 0x100,
        pow256(2) == 0x1_0000,
        pow256(3) == 0x100_0000,
        pow256(4) == 0x1_0000_0000,
        pow256(8) == 0x1_0000_0000_0000_0000,
{
    assert(pow256(0) == 1);
    assert(pow256(1) == 0x100);
    assert(pow256(2) == 0x1_0000);
    assert(pow256(3) == 0x100_0000);
    assert(pow256(4) == 0x1_0000_0000);
    assert(pow256(5) == 0x100_0000_0000);
    assert(pow256(6) == 0x1_0000_0000_0000);
    assert(pow256(7) == 0x100_0000_0000_0000);
}

/// A power of 256 is at least one, and grows with its exponent.
pub proof fn lemma_pow256_monotonic(a: nat, b: nat)
    requires
        a <= b,
    ensures
        1 <= pow256(a) <= pow256(b),
    decreases b,
{
    if b == 0 {
    } else if a == b {
        lemma_pow256_monotonic((a - 1) as nat, (b - 1) as nat);
    } else {
        lemma_pow256_monotonic(a, (b - 1) as nat);
    }
}

/// A number written in `width` bytes takes `width` bytes.
pub proof fn lemma_be_bytes_len(value: nat, width: nat)
    ensures
        be_bytes(value, width).len() == width,
    decreases width,
{
    if width > 0 {
        lemma_be_bytes_len(value / 256, (width - 1) as nat);
    }
}

/// What `bytes` hold is below 256 to the power of their count.
pub proof fn lemma_be_value_bound(bytes: Seq<u8>)
    ensures
        be_value(bytes) < pow256(bytes.len()),
    decreases bytes.len(),
{
    if bytes.len() > 0 {
        lemma_be_value_bound(bytes.drop_last());
    }
}

/// Reading back what was written gives the number, as far as the width holds it.
pub proof fn lemma_be_value_of_bytes(value: nat, width: nat)
    requires
        value < pow256(width),
    ensures
        be_value(be_bytes(value, width)) == value,
    decreases width,
{
    if width > 0 {
        let front = be_bytes(value / 256, (width - 1) as nat);
        lemma_be_value_of_bytes(value / 256, (width - 1) as nat);
        assert(be_bytes(value, width).drop_last() =~= front);
    }
}

/// Writing what was read gives the same bytes.
pub proof fn lemma_be_bytes_of_value(bytes: Seq<u8>)
    ensures
        be_bytes(be_value(bytes), bytes.len()) == bytes,
    decreases bytes.len(),
{
    if bytes.len() > 0 {
        lemma_be_bytes_of_value(bytes.drop_last());
    }
}

/// Four bytes in network order, byte by byte.
pub proof fn lemma_be_bytes_4(value: nat)
    ensures
        be_bytes(value, 4) == seq![
            (value / 0x100_0000 % 256) as u8,
            (value / 0x1_0000 % 256) as u8,
            (value / 0x100 % 256) as u8,
            (value % 256) as u8,
        ],
{
    reveal_with_fuel(be_bytes, 5);
    assert(be_bytes(value, 4) =~= seq![
        (value / 0x100_0000 % 256) as u8,
        (value / 0x1_0000 % 256) as u8,
        (value / 0x100 % 256) as u8,
        (value % 256) as u8,
    ]);
}

/// The low `width` bytes of `value` in network order; `width` is at most 8.
pub fn be_encode(value: u64, width: usize) -> (bytes: Vec<u8>)
    requires
        width <= 8,
    ensures
        bytes@ == be_bytes(value as nat, width as nat),
{
    let mut bytes: Vec<u8> = Vec::new();
    let mut filled: usize = 0;
    while filled < width
        invariant
            filled <= width,
            bytes@.len() == filled,
        decreases width - filled,
    {
        bytes.push(0u8);
        filled = filled + 1;
    }
    let mut rest: u64 = value;
    let mut at: usize = width;
    while at > 0
        invariant
            at <= width,
            bytes@.len() == width,
            be_bytes(value as nat, width as nat) == be_bytes(rest as nat, at as nat) + bytes@.subrange(
                at as int,
                width as int,
            ),
        decreases at,
    {
        let low: u8 = (rest % 256) as u8;
        let ghost before = bytes@;
        at = at - 1;
        bytes.set(at, low);
        proof {
            let head = be_bytes((rest / 256) as nat, at as nat);
            lemma_be_bytes_len((rest / 256) as nat, at as nat);
            assert(head.push(low) + before.subrange(at + 1, width as int) =~= head + bytes@.subrange(
                at as int,
                width as int,
            ));
        }
        rest = rest / 256;
    }
    bytes
}

/// The number that up to 8 bytes spell in network order.
pub fn be_decode(bytes: &[u8]) -> (value: u64)
    requires
        bytes@.len() <= 8,
    ensures
        value == be_value(bytes@),
{
    let mut value: u64 = 0;
    let mut at: usize = 0;
    while at < bytes.len()
        invariant
            at <= bytes@.len() <= 8,
            value == be_value(bytes@.take(at as int)),
        decreases bytes@.len() - at,
    {
        proof {
            let next = bytes@.take(at + 1);
            assert(next.drop_last() =~= bytes@.take(at as int));
            lemma_be_value_bound(next);
            lemma_pow256_monotonic((at + 1) as nat, 8);
            lemma_pow256_values();
        }
        value = value * 256 + bytes[at] as u64;
        at = at + 1;
    }
    assert(bytes@.take(at as int) =~= bytes@);
    value
}

} // verus!
