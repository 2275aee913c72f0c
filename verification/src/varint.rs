//! Minecraft's VarInt: an unsigned 32-bit value written seven bits per byte,
//! least significant group first, with the high bit set on every byte but the
//! last. A reader accepts at most five bytes.

use vstd::prelude::*;

verus! {

/// `128` raised to the power `k`.
pub open spec fn pow128(k: nat) -> nat
    decreases k,
{
    if k == 0 {
        1
    } else {
        128 * pow128((k - 1) as nat)
    }
}

/// The shortest encoding of `value`.
pub open spec fn varint_bytes(value: nat) -> Seq<u8>
    decreases value,
{
    if value < 128 {
        seq![value as u8]
    } else {
        seq![(value % 128 + 128) as u8] + varint_bytes(value / 128)
    }
}

/// Reads a VarInt from `bytes`, of which `depth` groups were read before.
/// `Ok(None)` means that the input ends inside the VarInt; `Err` that its
/// fifth byte carries more than the four bits left of a `u32`. A success gives
/// the value and the number of bytes it took.
pub open spec fn decode_varint_at(bytes: Seq<u8>, depth: nat) -> Result<Option<(nat, nat)>, ()>
    decreases 4 - depth,
{
    if bytes.len() == 0 {
        Ok(None)
    } else if depth >= 4 {
        if bytes[0] < 16 {
            Ok(Some((bytes[0] as nat, 1)))
        } else {
            Err(())
        }
    } else if bytes[0] < 128 {
        Ok(Some((bytes[0] as nat, 1)))
    } else {
        match decode_varint_at(bytes.drop_first(), depth + 1) {
            Ok(Some((v, n))) => Ok(Some(((bytes[0] - 128) as nat + 128 * v, n + 1))),
            other => other,
        }
    }
}

/// Reads a VarInt from the start of `bytes`.
pub open spec fn decode_varint(bytes: Seq<u8>) -> Result<Option<(nat, nat)>, ()> {
    decode_varint_at(bytes, 0)
}

/// The result of a read of which the first `depth` groups, worth `value`,
/// were taken off before `rest` was read.
pub open spec fn resume(rest: Result<Option<(nat, nat)>, ()>, value: nat, depth: nat) -> Result<
    Option<(nat, nat)>,
    (),
> {
    match rest {
        Ok(Some((v, n))) => Ok(Some((value + pow128(depth) * v, n + depth))),
        other => other,
    }
}

/// The value of the low seven bits of the first `n` bytes, least significant
/// group first.
pub open spec fn groups_value(bytes: Seq<u8>, n: nat) -> nat
    decreases n,
{
    if n == 0 {
        0
    } else {
        groups_value(bytes, (n - 1) as nat) + ((bytes[n - 1] % 128) as nat) * pow128(
            (n - 1) as nat,
        )
    }
}

/// The powers of 128 that five VarInt groups reach.
pub proof fn lemma_pow128_bounds()
    ensures
        pow128(0) == 1,
        pow128(1) == 128,
        pow128(2) == 16384,
        pow128(3) == 2097152,
        pow128(4) == 268435456,
{
    lemma_pow128_values();
}

proof fn lemma_pow128_values()
    ensures
        pow128(0) == 1,
        pow128(1) == 128,
        pow128(2) == 16384,
        pow128(3) == 2097152,
        pow128(4) == 268435456,
        pow128(5) == 34359738368,
{
    reveal_with_fuel(pow128, 6);
}

/// A successful read takes between one and five bytes, all of them present,
/// and its value fits the groups that remain at `depth`.
proof fn lemma_decode_bounds(bytes: Seq<u8>, depth: nat)
    requires
        depth <= 4,
    ensures
        decode_varint_at(bytes, depth) matches Ok(Some((v, n))) ==> {
            &&& 1 <= n <= 5 - depth
            &&& n <= bytes.len()
            &&& v < 16 * pow128((4 - depth) as nat)
        },
    decreases 4 - depth,
{
    lemma_pow128_values();
    if bytes.len() > 0 && depth < 4 && bytes[0] >= 128 {
        lemma_decode_bounds(bytes.drop_first(), depth + 1);
        if let Ok(Some((v, n))) = decode_varint_at(bytes.drop_first(), depth + 1) {
            assert(pow128((4 - depth) as nat) == 128 * pow128((4 - (depth + 1)) as nat));
            let b = (bytes[0] - 128) as nat;
            assert(b + 128 * v < 16 * pow128((4 - depth) as nat))
                by (nonlinear_arith)
                requires
                    b < 128,
                    v < 16 * pow128((4 - (depth + 1)) as nat),
                    pow128((4 - depth) as nat) == 128 * pow128((4 - (depth + 1)) as nat),
            ;
        }
    }
}

/// A decoded VarInt fits in a `u32` and takes at most five bytes.
pub proof fn lemma_decode_fits(bytes: Seq<u8>)
    ensures
        decode_varint(bytes) matches Ok(Some((v, n))) ==> {
            &&& v <= u32::MAX
            &&& 1 <= n <= 5
            &&& n <= bytes.len()
        },
{
    lemma_decode_bounds(bytes, 0);
    lemma_pow128_values();
}

/// Taking off one continuation byte at `depth` leaves the rest to be read at
/// `depth + 1`.
proof fn lemma_decode_step(bytes: Seq<u8>, i: nat, value: nat)
    requires
        i < 4,
        i < bytes.len(),
        bytes[i as int] >= 128,
    ensures
        resume(decode_varint_at(bytes.skip(i as int), i), value, i) == resume(
            decode_varint_at(bytes.skip((i + 1) as int), i + 1),
            value + ((bytes[i as int] - 128) as nat) * pow128(i),
            i + 1,
        ),
{
    let s = bytes.skip(i as int);
    assert(s.drop_first() =~= bytes.skip((i + 1) as int));
    assert(s[0] == bytes[i as int]);
    let b = (bytes[i as int] - 128) as nat;
    assert(pow128(i + 1) == 128 * pow128(i));
    if let Ok(Some((v, n))) = decode_varint_at(bytes.skip((i + 1) as int), i + 1) {
        let p = pow128(i);
        assert(value + p * (b + 128 * v) == value + b * p + (128 * p) * v) by (nonlinear_arith);
    }
}

/// Or-ing in the next group of seven bits adds its value.
proof fn lemma_add_group(value: u32, group: u32, i: u32)
    requires
        i < 5,
        group < 128,
        i == 4 ==> group < 16,
        value < pow128(i as nat),
    ensures
        (value | (group << (7 * i))) as nat == value + group * pow128(i as nat),
        value + group * pow128(i as nat) < pow128((i + 1) as nat),
{
    lemma_pow128_values();
    if i == 0 {
        assert(value == 0);
        assert(0u32 | (group << 0u32) == group) by (bit_vector);
    } else if i == 1 {
        assert(value < 128 && group < 128 ==> (value | (group << 7u32)) == value + group * 128)
            by (bit_vector);
    } else if i == 2 {
        assert(value < 16384 && group < 128 ==> (value | (group << 14u32)) == value + group
            * 16384) by (bit_vector);
    } else if i == 3 {
        assert(value < 2097152 && group < 128 ==> (value | (group << 21u32)) == value + group
            * 2097152) by (bit_vector);
    } else {
        assert(value < 268435456 && group < 16 ==> (value | (group << 28u32)) == value + group
            * 268435456) by (bit_vector);
    }
}

/// Writes `value` as a VarInt.
pub fn varint(value: u32) -> (bytes: Vec<u8>)
    ensures
        bytes@ == varint_bytes(value as nat),
{
    let mut rest = value;
    let mut bytes: Vec<u8> = Vec::new();
    loop
        invariant
            bytes@ + varint_bytes(rest as nat) == varint_bytes(value as nat),
        decreases rest,
    {
        assert(rest & 127 == rest % 128) by (bit_vector);
        assert(rest >> 7 == rest / 128) by (bit_vector);
        let byte = (rest & 127) as u8;
        let ghost before = rest;
        rest = rest >> 7;
        if rest == 0 {
            bytes.push(byte);
            assert(varint_bytes(before as nat) == seq![byte]);
            assert(bytes@ =~= varint_bytes(value as nat));
            return bytes;
        }
        assert(byte < 128 ==> byte | 128 == byte + 128) by (bit_vector);
        bytes.push(byte | 128);
        assert(varint_bytes(before as nat) == seq![(byte + 128) as u8] + varint_bytes(
            rest as nat,
        ));
        assert(bytes@ + varint_bytes(rest as nat) =~= bytes@.drop_last() + varint_bytes(
            before as nat,
        ));
    }
}

/// Reads a VarInt from the start of `bytes`: `Ok(None)` if they end first,
/// else its value and the number of bytes that it takes.
pub fn read_varint(bytes: &[u8]) -> (read: Result<Option<(u32, usize)>, String>)
    ensures
        match decode_varint(bytes@) {
            Ok(None) => read matches Ok(None),
            Ok(Some((v, n))) => read matches Ok(Some((rv, rn))) && rv == v && rn == n,
            Err(()) => read matches Err(e) && e@ == "Invalid VarInt"@,
        },
{
    let mut value: u32 = 0;
    let mut i: usize = 0;
    proof {
        lemma_pow128_values();
        assert(bytes@.skip(0) =~= bytes@);
    }
    while i < 5
        invariant
            i <= 4,
            value < pow128(i as nat),
            value == groups_value(bytes@, i as nat),
            forall|j: int| 0 <= j < i ==> bytes@[j] >= 128,
            i <= bytes@.len(),
            decode_varint(bytes@) == resume(
                decode_varint_at(bytes@.skip(i as int), i as nat),
                value as nat,
                i as nat,
            ),
        decreases 5 - i,
    {
        proof {
            lemma_pow128_values();
        }
        if i >= bytes.len() {
            assert(bytes@.skip(i as int).len() == 0);
            return Ok(None);
        }
        let byte = bytes[i];
        let ghost rest = bytes@.skip(i as int);
        assert(rest[0] == byte);
        if i == 4 && byte & 0xf0 != 0 {
            assert(byte & 0xf0 != 0 ==> byte >= 16) by (bit_vector);
            return Err(String::from_str("Invalid VarInt"));
        }
        let group: u32 = (byte & 127) as u32;
        assert(byte & 127 == byte % 128) by (bit_vector);
        assert(byte & 0xf0 == 0 ==> byte < 16) by (bit_vector);
        proof {
            lemma_add_group(value, group, i as u32);
        }
        let ghost old_value = value;
        value = value | (group << (7 * i as u32));
        assert(groups_value(bytes@, (i + 1) as nat) == old_value + group * pow128(i as nat));
        if byte & 128 == 0 {
            assert(byte & 128 == 0 ==> byte < 128) by (bit_vector);
            assert(group == byte);
            assert(rest.len() > 0);
            assert(decode_varint_at(rest, i as nat) == Ok::<Option<(nat, nat)>, ()>(
                Some((byte as nat, 1)),
            ));
            assert(pow128(i as nat) * group == group * pow128(i as nat)) by (nonlinear_arith);
            return Ok(Some((value, i + 1)));
        }
        assert(byte & 128 != 0 ==> byte >= 128) by (bit_vector);
        proof {
            lemma_decode_step(bytes@, i as nat, old_value as nat);
            assert(group == byte - 128);
        }
        i = i + 1;
    }
    Err(String::from_str("Invalid VarInt"))
}

/// The shortest encoding of a `u32` takes one to five bytes, and reading it
/// back, whatever follows it, gives the value and that length.
pub proof fn lemma_varint_roundtrip(value: nat, rest: Seq<u8>)
    requires
        value <= u32::MAX,
    ensures
        1 <= varint_bytes(value).len() <= 5,
        decode_varint(varint_bytes(value) + rest) == Ok::<Option<(nat, nat)>, ()>(
            Some((value, varint_bytes(value).len())),
        ),
{
    lemma_pow128_values();
    lemma_roundtrip_at(value, rest, 0);
}

proof fn lemma_roundtrip_at(value: nat, rest: Seq<u8>, depth: nat)
    requires
        depth <= 4,
        value < 16 * pow128((4 - depth) as nat),
    ensures
        1 <= varint_bytes(value).len() <= 5 - depth,
        decode_varint_at(varint_bytes(value) + rest, depth) == Ok::<Option<(nat, nat)>, ()>(
            Some((value, varint_bytes(value).len())),
        ),
    decreases 4 - depth,
{
    lemma_pow128_values();
    let s = varint_bytes(value) + rest;
    if value < 128 {
        assert(s[0] == value as u8);
        if depth >= 4 {
            assert(value < 16);
        }
    } else {
        assert(depth < 4) by {
            if depth >= 4 {
                assert(value < 16);
            }
        }
        assert(pow128((4 - depth) as nat) == 128 * pow128((4 - (depth + 1)) as nat));
        assert(value / 128 < 16 * pow128((4 - (depth + 1)) as nat)) by (nonlinear_arith)
            requires
                value < 16 * pow128((4 - depth) as nat),
                pow128((4 - depth) as nat) == 128 * pow128((4 - (depth + 1)) as nat),
        ;
        lemma_roundtrip_at(value / 128, rest, depth + 1);
        assert(s[0] == (value % 128 + 128) as u8);
        assert(s.drop_first() =~= varint_bytes(value / 128) + rest);
        assert(value == value % 128 + 128 * (value / 128));
    }
}

} // verus!
