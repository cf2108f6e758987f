//! The bit layout of an identifier: which bits hold the timestamp, the node
//! identifier and the sequence number, and what number the three make.

use crate::config::TsidConfig;
use vstd::arithmetic::div_mod::lemma_div_denominator;
use vstd::arithmetic::div_mod::lemma_fundamental_div_mod;
use vstd::arithmetic::div_mod::lemma_fundamental_div_mod_converse;
use vstd::arithmetic::div_mod::lemma_small_mod;
use vstd::arithmetic::power2::lemma2_to64;
use vstd::arithmetic::power2::lemma2_to64_rest;
use vstd::arithmetic::power2::lemma_pow2_adds;
use vstd::arithmetic::power2::lemma_pow2_pos;
use vstd::arithmetic::power2::lemma_pow2_strictly_increases;
use vstd::arithmetic::power2::pow2;
use vstd::bits::lemma_u32_pow2_no_overflow;
use vstd::bits::lemma_u32_shl_is_mul;
use vstd::bits::lemma_u64_pow2_no_overflow;
use vstd::bits::lemma_u64_low_bits_mask_is_mod;
use vstd::bits::lemma_u64_shl_is_mul;
use vstd::bits::lemma_u64_shr_is_div;
use vstd::bits::low_bits_mask;
use vstd::prelude::*;

verus! {

/// The identifier whose fields are `timestamp`, `node` and `sequence`, where
/// the sequence field has `sequence_bits` bits: the timestamp stands above
/// the low 22 bits, the node above the sequence.
pub open spec fn compose(sequence_bits: nat, timestamp: nat, node: nat, sequence: nat) -> nat {
    timestamp * pow2(22) + node * pow2(sequence_bits) + sequence
}

/// The timestamp field of `id`: what stands above the low 22 bits.
pub open spec fn timestamp_field(id: nat) -> nat {
    id / pow2(22)
}

/// The node field of `id`: the bits between the sequence and the timestamp.
pub open spec fn node_field(sequence_bits: nat, id: nat) -> nat {
    (id / pow2(sequence_bits)) % pow2((22 - sequence_bits) as nat)
}

/// The sequence field of `id`: its low `sequence_bits` bits.
pub open spec fn sequence_field(sequence_bits: nat, id: nat) -> nat {
    id % pow2(sequence_bits)
}

/// The three fields are within the widths of a layout whose sequence field
/// has `sequence_bits` bits.
pub open spec fn fields_in_range(sequence_bits: nat, timestamp: nat, node: nat, sequence: nat) -> bool {
    &&& 2 <= sequence_bits <= 21
    &&& timestamp < pow2(42)
    &&& node < pow2((22 - sequence_bits) as nat)
    &&& sequence < pow2(sequence_bits)
}

/// The low 22 bits of an identifier made of fields in range stay below
/// `2^22`.
pub proof fn lemma_low_part_bound(sequence_bits: nat, node: nat, sequence: nat)
    requires
        2 <= sequence_bits <= 21,
        node < pow2((22 - sequence_bits) as nat),
        sequence < pow2(sequence_bits),
    ensures
        node * pow2(sequence_bits) + sequence < pow2(22),
        pow2(22) == pow2((22 - sequence_bits) as nat) * pow2(sequence_bits),
        pow2(22) == 0x40_0000,
{
    let p = pow2(sequence_bits) as int;
    let q = pow2((22 - sequence_bits) as nat) as int;
    lemma_pow2_adds((22 - sequence_bits) as nat, sequence_bits);
    lemma_pow2_pos(sequence_bits);
    lemma2_to64();
    assert((node + 1) * p <= q * p) by (nonlinear_arith)
        requires
            node + 1 <= q,
            p > 0,
    ;
    assert((node + 1) * p == node * p + p) by (nonlinear_arith);
}

/// Packing fields that are in range and taking the identifier apart again
/// gives the same three fields, and the identifier fits in 64 bits.
pub proof fn lemma_fields_round_trip(sequence_bits: nat, timestamp: nat, node: nat, sequence: nat)
    requires
        fields_in_range(sequence_bits, timestamp, node, sequence),
    ensures
        compose(sequence_bits, timestamp, node, sequence) <= u64::MAX,
        timestamp_field(compose(sequence_bits, timestamp, node, sequence)) == timestamp,
        node_field(sequence_bits, compose(sequence_bits, timestamp, node, sequence)) == node,
        sequence_field(sequence_bits, compose(sequence_bits, timestamp, node, sequence)) == sequence,
{
    let p = pow2(sequence_bits) as int;
    let q = pow2((22 - sequence_bits) as nat) as int;
    let id = compose(sequence_bits, timestamp, node, sequence) as int;
    let low = node * p + sequence;
    lemma_low_part_bound(sequence_bits, node, sequence);
    lemma2_to64_rest();
    lemma_pow2_pos(sequence_bits);
    lemma_pow2_pos((22 - sequence_bits) as nat);
    assert(id == timestamp * 0x40_0000 + low);
    lemma_fundamental_div_mod_converse(id, 0x40_0000, timestamp as int, low);
    let upper = timestamp * q + node;
    assert(id == upper * p + sequence) by (nonlinear_arith)
        requires
            id == timestamp * (q * p) + node * p + sequence,
            upper == timestamp * q + node,
    ;
    lemma_fundamental_div_mod_converse(id, p, upper, sequence as int);
    lemma_fundamental_div_mod_converse(upper, q, timestamp as int, node as int);
}

/// The three fields fill the identifier: every 64-bit value is what its own
/// fields make, so two values with the same three fields are one value.
pub proof fn lemma_fields_make_identifier(sequence_bits: nat, id: nat)
    requires
        2 <= sequence_bits <= 21,
    ensures
        compose(
            sequence_bits,
            timestamp_field(id),
            node_field(sequence_bits, id),
            sequence_field(sequence_bits, id),
        ) == id,
{
    let p = pow2(sequence_bits) as int;
    let q = pow2((22 - sequence_bits) as nat) as int;
    let upper = id as int / p;
    lemma_pow2_adds((22 - sequence_bits) as nat, sequence_bits);
    lemma_pow2_pos(sequence_bits);
    lemma_pow2_pos((22 - sequence_bits) as nat);
    lemma_fundamental_div_mod(id as int, p);
    lemma_fundamental_div_mod(upper, q);
    lemma_div_denominator(id as int, p, q);
    assert((upper / q) * (q * p) + (upper % q) * p + id as int % p == id) by (nonlinear_arith)
        requires
            id == p * upper + id as int % p,
            upper == q * (upper / q) + upper % q,
    ;
    assert(p * q == q * p) by (nonlinear_arith);
}

/// Identifiers order as their fields do: first by timestamp, then, on one
/// node, by sequence.
pub proof fn lemma_compose_ordered(
    sequence_bits: nat,
    node: nat,
    timestamp_a: nat,
    sequence_a: nat,
    timestamp_b: nat,
    sequence_b: nat,
)
    requires
        fields_in_range(sequence_bits, timestamp_a, node, sequence_a),
        fields_in_range(sequence_bits, timestamp_b, node, sequence_b),
        timestamp_a < timestamp_b || (timestamp_a == timestamp_b && sequence_a < sequence_b),
    ensures
        compose(sequence_bits, timestamp_a, node, sequence_a) < compose(
            sequence_bits,
            timestamp_b,
            node,
            sequence_b,
        ),
{
    lemma_low_part_bound(sequence_bits, node, sequence_a);
    lemma_low_part_bound(sequence_bits, node, sequence_b);
}

/// Shifts and masks derived from a configuration.
#[derive(Debug, Clone, Copy)]
pub struct BitConfig {
    pub node_shift: u8,
    pub timestamp_shift: u8,
    pub sequence_mask: u32,
    pub node_mask: u32,
    pub timestamp_mask: u64,
    pub max_sequence: u32,
    pub max_node: u32,
}

impl BitConfig {
    /// The width of the sequence field.
    pub open spec fn sequence_bits(&self) -> nat {
        self.node_shift as nat
    }

    /// The width of the node field.
    pub open spec fn node_bits(&self) -> nat {
        (22 - self.node_shift) as nat
    }

    /// The sequence field has 2 to 21 bits, the node field the rest of the
    /// low 22, the timestamp the 42 bits above them; each mask is the
    /// largest value of its field.
    pub open spec fn wf(&self) -> bool {
        &&& 2 <= self.node_shift <= 21
        &&& self.timestamp_shift == 22
        &&& self.sequence_mask == pow2(self.sequence_bits()) - 1
        &&& self.node_mask == pow2(self.node_bits()) - 1
        &&& self.timestamp_mask == pow2(42) - 1
        &&& self.max_sequence == self.sequence_mask
        &&& self.max_node == self.node_mask
    }

    /// This is the layout that `config` asks for.
    pub open spec fn derived_from(&self, config: TsidConfig) -> bool {
        &&& self.wf()
        &&& self.node_shift == config.spec_sequence_bits()
    }

    /// The identifier that packing `timestamp`, `node` and `sequence`
    /// yields: each field is first cut down to its width.
    pub open spec fn pack(&self, timestamp: u64, node: u32, sequence: u32) -> nat {
        compose(
            self.sequence_bits(),
            timestamp as nat % pow2(42),
            node as nat % pow2(self.node_bits()),
            sequence as nat % pow2(self.sequence_bits()),
        )
    }
}

/// Fields within their widths are packed as they are.
pub proof fn lemma_pack_in_range(layout: BitConfig, timestamp: u64, node: u32, sequence: u32)
    requires
        layout.wf(),
        timestamp < pow2(42),
        node <= layout.max_node,
        sequence <= layout.max_sequence,
    ensures
        fields_in_range(layout.sequence_bits(), timestamp as nat, node as nat, sequence as nat),
        layout.pack(timestamp, node, sequence) == compose(
            layout.sequence_bits(),
            timestamp as nat,
            node as nat,
            sequence as nat,
        ),
{
    lemma_small_mod(timestamp as nat, pow2(42));
    lemma_small_mod(node as nat, pow2(layout.node_bits()));
    lemma_small_mod(sequence as nat, pow2(layout.sequence_bits()));
}

/// Packing a timestamp, a node identifier and a sequence number that fit
/// their fields, then taking the identifier apart, gives the three back.
pub proof fn lemma_pack_round_trip(layout: BitConfig, timestamp: u64, node: u32, sequence: u32)
    requires
        layout.wf(),
        timestamp < pow2(42),
        node <= layout.max_node,
        sequence <= layout.max_sequence,
    ensures
        layout.pack(timestamp, node, sequence) <= u64::MAX,
        timestamp_field(layout.pack(timestamp, node, sequence)) == timestamp,
        node_field(layout.sequence_bits(), layout.pack(timestamp, node, sequence)) == node,
        sequence_field(layout.sequence_bits(), layout.pack(timestamp, node, sequence)) == sequence,
{
    lemma_pack_in_range(layout, timestamp, node, sequence);
    lemma_fields_round_trip(layout.sequence_bits(), timestamp as nat, node as nat, sequence as nat);
}

/// The limits of a layout as numbers: the timestamp field holds 42 bits, the
/// sequence field at most 21 and the node field at most 20.
pub proof fn lemma_layout_limits(layout: BitConfig)
    requires
        layout.wf(),
    ensures
        layout.timestamp_mask == 0x3FF_FFFF_FFFF,
        layout.max_sequence <= 0x1F_FFFF,
        layout.max_node <= 0xF_FFFF,
{
    lemma2_to64();
    lemma2_to64_rest();
    if layout.sequence_bits() < 21 {
        lemma_pow2_strictly_increases(layout.sequence_bits(), 21);
    }
    if layout.node_bits() < 20 {
        lemma_pow2_strictly_increases(layout.node_bits(), 20);
    }
}

impl TsidConfig {
    /// Derives the shifts and masks of the three fields.
    pub fn create_bit_config(&self) -> (layout: BitConfig)
        requires
            self.wf(),
        ensures
            layout.derived_from(*self),
            layout.sequence_bits() == self.spec_sequence_bits(),
            layout.node_bits() == self.spec_node_bits(),
    {
        let sequence_bits: u8 = self.sequence_bits();
        let node_bits: u8 = self.node_bits();
        let timestamp_shift: u8 = node_bits + sequence_bits;
        proof {
            lemma_u32_pow2_no_overflow(sequence_bits as nat);
            lemma_u32_pow2_no_overflow(node_bits as nat);
            lemma_u32_shl_is_mul(1u32, sequence_bits as u32);
            lemma_u32_shl_is_mul(1u32, node_bits as u32);
            lemma_pow2_pos(sequence_bits as nat);
            lemma_pow2_pos(node_bits as nat);
            lemma2_to64_rest();
            assert((1u64 << 42) == 0x400_0000_0000u64) by (bit_vector);
        }
        let sequence_mask: u32 = (1u32 << (sequence_bits as u32)) - 1;
        let node_mask: u32 = (1u32 << (node_bits as u32)) - 1;
        let timestamp_mask: u64 = (1u64 << 42) - 1;
        BitConfig {
            node_shift: sequence_bits,
            timestamp_shift,
            sequence_mask,
            node_mask,
            timestamp_mask,
            max_sequence: sequence_mask,
            max_node: node_mask,
        }
    }
}


/// Masking with the largest value of a `bits`-bit field keeps the low `bits`
/// bits.
pub proof fn lemma_mask_keeps_low_bits(x: u64, bits: nat, mask: u64)
    requires
        bits < 64,
        mask == pow2(bits) - 1,
    ensures
        (x & mask) == x as nat % pow2(bits),
        (x & mask) < pow2(bits),
        x < pow2(bits) ==> (x & mask) == x,
{
    lemma_u64_low_bits_mask_is_mod(x, bits);
    lemma_u64_pow2_no_overflow(bits);
    lemma_pow2_pos(bits);
    assert(low_bits_mask(bits) as u64 == mask);
    assert(pow2(bits) as u64 == pow2(bits));
    if x < pow2(bits) {
        lemma_small_mod(x as nat, pow2(bits));
    }
}

/// Where the low `k` bits of one operand are clear and the other stays below
/// `2^k`, `|` is addition.
pub proof fn lemma_or_adds(high: u64, low: u64, k: u64)
    requires
        k < 64,
        low < pow2(k as nat),
        high * pow2(k as nat) <= u64::MAX,
    ensures
        ((high << k) | low) == high * pow2(k as nat) + low,
{
    lemma_u64_pow2_no_overflow(k as nat);
    lemma_u64_shl_is_mul(1u64, k);
    lemma_u64_shl_is_mul(high, k);
    assert(k < 64 && low < (1u64 << k) ==> ((high << k) | low) == (high << k) + low) by (bit_vector);
}

/// What the shifts and masks of a layout compute from fields in range is
/// the identifier that the three fields make.
pub proof fn lemma_pack_bits(layout: BitConfig, timestamp: u64, node: u64, sequence: u64)
    requires
        layout.wf(),
        fields_in_range(layout.sequence_bits(), timestamp as nat, node as nat, sequence as nat),
    ensures
        ((timestamp << 22u64) | ((node << (layout.node_shift as u64)) | sequence)) == compose(
            layout.sequence_bits(),
            timestamp as nat,
            node as nat,
            sequence as nat,
        ),
{
    let bits = layout.sequence_bits();
    lemma_fields_round_trip(bits, timestamp as nat, node as nat, sequence as nat);
    lemma_low_part_bound(bits, node as nat, sequence as nat);
    lemma_or_adds(node, sequence, layout.node_shift as u64);
    let low: u64 = (node << (layout.node_shift as u64)) | sequence;
    lemma_or_adds(timestamp, low, 22u64);
}

/// What the shifts and masks of a layout read from an identifier are its
/// three fields, each within its width.
pub proof fn lemma_unpack_bits(layout: BitConfig, id: u64)
    requires
        layout.wf(),
    ensures
        ((id >> 22u64) & layout.timestamp_mask) == timestamp_field(id as nat),
        ((id >> (layout.node_shift as u64)) & (layout.node_mask as u64)) == node_field(
            layout.sequence_bits(),
            id as nat,
        ),
        (id & (layout.sequence_mask as u64)) == sequence_field(layout.sequence_bits(), id as nat),
        timestamp_field(id as nat) < pow2(42),
        node_field(layout.sequence_bits(), id as nat) <= layout.max_node,
        sequence_field(layout.sequence_bits(), id as nat) <= layout.max_sequence,
{
    lemma2_to64();
    lemma2_to64_rest();
    lemma_u64_shr_is_div(id, 22u64);
    lemma_u64_shr_is_div(id, layout.node_shift as u64);
    lemma_mask_keeps_low_bits(id >> 22u64, 42, layout.timestamp_mask);
    lemma_mask_keeps_low_bits(
        id >> (layout.node_shift as u64),
        layout.node_bits(),
        layout.node_mask as u64,
    );
    lemma_mask_keeps_low_bits(id, layout.sequence_bits(), layout.sequence_mask as u64);
}

} // verus!
