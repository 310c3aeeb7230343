//! Section keys and block-coordinate arithmetic.
//!
//! A section is a 16x16x16 cube of blocks. Sections are addressed by one
//! `i64` key that packs the three section coordinates into disjoint bit
//! fields: `i` in the top 22 bits, `k` in the middle 22 bits and `j` in the
//! low 20 bits.

use vstd::prelude::*;

verus! {

/// Width of the `i` and `k` fields of a section key.
pub const HORIZONTAL_KEY_BITS: u32 = 22;

/// Width of the `j` field of a section key.
pub const VERTICAL_KEY_BITS: u32 = 20;

/// The `i` field of a packed key: its top 22 bits.
pub open spec fn key_field_i(key: i64) -> int {
    ((key as u64) / 0x400_0000_0000u64) as int
}

/// The `k` field of a packed key: bits 20 to 41.
pub open spec fn key_field_k(key: i64) -> int {
    (((key as u64) / 0x10_0000u64) % 0x40_0000u64) as int
}

/// The `j` field of a packed key: its low 20 bits.
pub open spec fn key_field_j(key: i64) -> int {
    ((key as u64) % 0x10_0000u64) as int
}

/// The low 22 bits of a coordinate, read as a two's-complement word.
pub open spec fn low22(c: i32) -> int {
    ((c as u32) % 0x40_0000u32) as int
}

/// The low 20 bits of a coordinate, read as a two's-complement word.
pub open spec fn low20(c: i32) -> int {
    ((c as u32) % 0x10_0000u32) as int
}

/// The key of section `(i, j, k)`: each field holds the low bits of its
/// coordinate.
pub open spec fn is_section_key(key: i64, i: i32, j: i32, k: i32) -> bool {
    &&& key_field_i(key) == low22(i)
    &&& key_field_k(key) == low22(k)
    &&& key_field_j(key) == low20(j)
}

/// Packs section coordinates into one key.
pub fn pack_section_pos(i: i32, j: i32, k: i32) -> (key: i64)
    ensures
        is_section_key(key, i, j, k),
        key == section_key(i, j, k),
{
    let mut l: i64 = 0;
    l = l | (((i as i64) & 4194303i64) << 42u64);
    l = l | ((j as i64) & 1048575i64);
    let key: i64 = l | (((k as i64) & 4194303i64) << 20u64);
    assert(
        (key as u64) / 0x400_0000_0000u64 == (i as u32) % 0x40_0000u32
        && ((key as u64) / 0x10_0000u64) % 0x40_0000u64 == (k as u32) % 0x40_0000u32
        && (key as u64) % 0x10_0000u64 == (j as u32) % 0x10_0000u32
    ) by (bit_vector)
        requires
            key == ((0i64 | (((i as i64) & 4194303i64) << 42u64)) | ((j as i64) & 1048575i64))
                | (((k as i64) & 4194303i64) << 20u64),
    ;
    assert(key == (((((i as i64) & 4194303i64) << 42u64) | ((j as i64) & 1048575i64))
        | (((k as i64) & 4194303i64) << 20u64))) by (bit_vector)
        requires
            key == ((0i64 | (((i as i64) & 4194303i64) << 42u64)) | ((j as i64) & 1048575i64))
                | (((k as i64) & 4194303i64) << 20u64),
    ;
    key
}

/// Two sections share a key exactly when their coordinates agree in the
/// bits that the key keeps.
pub proof fn lemma_section_key_identifies_low_bits(
    key1: i64, i1: i32, j1: i32, k1: i32,
    key2: i64, i2: i32, j2: i32, k2: i32,
)
    requires
        is_section_key(key1, i1, j1, k1),
        is_section_key(key2, i2, j2, k2),
    ensures
        key1 == key2 <==> (low22(i1) == low22(i2) && low20(j1) == low20(j2) && low22(k1) == low22(k2)),
{
    assert(
        ((key1 as u64) / 0x400_0000_0000u64 == (key2 as u64) / 0x400_0000_0000u64
            && ((key1 as u64) / 0x10_0000u64) % 0x40_0000u64 == ((key2 as u64) / 0x10_0000u64) % 0x40_0000u64
            && (key1 as u64) % 0x10_0000u64 == (key2 as u64) % 0x10_0000u64)
        ==> key1 == key2
    ) by (bit_vector);
}

/// Within the horizontal range of 22-bit and the vertical range of 20-bit
/// two's-complement coordinates, distinct sections have distinct keys.
pub proof fn lemma_section_key_injective(
    i1: i32, j1: i32, k1: i32,
    i2: i32, j2: i32, k2: i32,
)
    requires
        -0x20_0000 <= i1 < 0x20_0000, -0x20_0000 <= i2 < 0x20_0000,
        -0x20_0000 <= k1 < 0x20_0000, -0x20_0000 <= k2 < 0x20_0000,
        -0x8_0000 <= j1 < 0x8_0000, -0x8_0000 <= j2 < 0x8_0000,
    ensures
        section_key(i1, j1, k1) == section_key(i2, j2, k2) <==> (i1 == i2 && j1 == j2 && k1 == k2),
{
    lemma_section_key_meaning(i1, j1, k1);
    lemma_section_key_meaning(i2, j2, k2);
    lemma_section_key_identifies_low_bits(
        section_key(i1, j1, k1), i1, j1, k1,
        section_key(i2, j2, k2), i2, j2, k2,
    );
    assert((-0x20_0000i32 <= i1 < 0x20_0000i32 && -0x20_0000i32 <= i2 < 0x20_0000i32
        && (i1 as u32) % 0x40_0000u32 == (i2 as u32) % 0x40_0000u32) ==> i1 == i2) by (bit_vector);
    assert((-0x20_0000i32 <= k1 < 0x20_0000i32 && -0x20_0000i32 <= k2 < 0x20_0000i32
        && (k1 as u32) % 0x40_0000u32 == (k2 as u32) % 0x40_0000u32) ==> k1 == k2) by (bit_vector);
    assert((-0x8_0000i32 <= j1 < 0x8_0000i32 && -0x8_0000i32 <= j2 < 0x8_0000i32
        && (j1 as u32) % 0x10_0000u32 == (j2 as u32) % 0x10_0000u32) ==> j1 == j2) by (bit_vector);
}

/// The key of section `(i, j, k)`.
pub open spec fn section_key(i: i32, j: i32, k: i32) -> i64 {
    (((((i as i64) & 4194303i64) << 42u64) | ((j as i64) & 1048575i64))
        | (((k as i64) & 4194303i64) << 20u64)) as i64
}

/// `section_key` is a key of its section.
pub proof fn lemma_section_key_meaning(i: i32, j: i32, k: i32)
    ensures
        is_section_key(section_key(i, j, k), i, j, k),
{
    let key = section_key(i, j, k);
    assert(
        (key as u64) / 0x400_0000_0000u64 == (i as u32) % 0x40_0000u32
        && ((key as u64) / 0x10_0000u64) % 0x40_0000u64 == (k as u32) % 0x40_0000u32
        && (key as u64) % 0x10_0000u64 == (j as u32) % 0x10_0000u32
    ) by (bit_vector)
        requires
            key == (((((i as i64) & 4194303i64) << 42u64) | ((j as i64) & 1048575i64))
                | (((k as i64) & 4194303i64) << 20u64)),
    ;
}

/// The sections whose terrain the universe tracks: 1,875,000 sections
/// each way horizontally from the origin, 128 vertically.
pub open spec fn in_terrain_domain(x: i32, y: i32, z: i32) -> bool {
    -1_875_000 <= x <= 1_875_000 && -1_875_000 <= z <= 1_875_000 && -128 <= y <= 128
}

/// Whether section `(x, y, z)` lies in the region of the world whose
/// terrain the universe tracks.
pub fn is_inside_terrain_domain(x: i32, y: i32, z: i32) -> (inside: bool)
    ensures
        inside == in_terrain_domain(x, y, z),
{
    x >= -1_875_000 && x <= 1_875_000 && z >= -1_875_000 && z <= 1_875_000 && y >= -128 && y <= 128
}

} // verus!
