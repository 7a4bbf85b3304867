use vstd::prelude::*;
use crate::permutation::{
    fy_permutation, identity_indices, identity_seq, inverse_permutation, is_permutation,
    permutation_fy,
};
use crate::quantize::{QuantizedNormalsOct, QuantizedPositions, QuantizedUVs};

verus! {

/// Bytes per packed vertex: three signed position lanes, two normal lanes and
/// two texture-coordinate lanes, 16 bits each.
pub const VERTEX_STRIDE: usize = 14;

/// The packed output: the interleaved vertex buffer in permuted order, the
/// index buffer remapped to the new slots, and the position metadata copied
/// from the quantized positions (`pos_scale` and `pos_offset` hold
/// single-precision bit patterns).
pub struct PackedMesh {
    pub interleaved: Vec<u8>,
    pub vertex_count: usize,
    pub indices: Vec<u32>,
    pub pos_scale: [u32; 3],
    pub pos_offset: [u32; 3],
    pub perm_seed: u64,
}

/// Little-endian bytes of a 16-bit value.
pub open spec fn le16(v: u16) -> Seq<u8> {
    seq![(v % 256) as u8, (v / 256) as u8]
}

/// The 14 bytes that describe vertex `v`: position x, y, z as two's-complement
/// lanes, then normal u, v, then texture u, v, each little-endian.
pub open spec fn vertex_record(pos: Seq<i16>, nor: Seq<u16>, uv: Seq<u16>, v: int) -> Seq<u8> {
    le16(pos[3 * v] as u16) + le16(pos[3 * v + 1] as u16) + le16(pos[3 * v + 2] as u16) + le16(
        nor[2 * v],
    ) + le16(nor[2 * v + 1]) + le16(uv[2 * v]) + le16(uv[2 * v + 1])
}

/// The records of the vertices `perm[0]`, ..., `perm[m - 1]`, one after another.
pub open spec fn interleave(pos: Seq<i16>, nor: Seq<u16>, uv: Seq<u16>, perm: Seq<u32>, m: nat) -> Seq<
    u8,
>
    decreases m,
{
    if m == 0 {
        Seq::empty()
    } else {
        interleave(pos, nor, uv, perm, (m - 1) as nat) + vertex_record(
            pos,
            nor,
            uv,
            perm[m - 1] as int,
        )
    }
}

/// The bytes of slot `k` of an interleaved buffer.
pub open spec fn slot_bytes(buf: Seq<u8>, k: int) -> Seq<u8> {
    buf.subrange(k * VERTEX_STRIDE as int, k * VERTEX_STRIDE as int + VERTEX_STRIDE as int)
}

/// Every slot of the interleaved buffer holds the record of the vertex that
/// the permutation places there.
pub proof fn lemma_interleave_slots(
    pos: Seq<i16>,
    nor: Seq<u16>,
    uv: Seq<u16>,
    perm: Seq<u32>,
    m: nat,
)
    ensures
        interleave(pos, nor, uv, perm, m).len() == m * VERTEX_STRIDE,
        forall|k: int|
            0 <= k < m ==> #[trigger] slot_bytes(interleave(pos, nor, uv, perm, m), k)
                == vertex_record(pos, nor, uv, perm[k] as int),
    decreases m,
{
    if m > 0 {
        let prev = interleave(pos, nor, uv, perm, (m - 1) as nat);
        let cur = interleave(pos, nor, uv, perm, m);
        lemma_interleave_slots(pos, nor, uv, perm, (m - 1) as nat);
        assert(vertex_record(pos, nor, uv, perm[m - 1] as int).len() == 14);
        assert(cur.len() == m * VERTEX_STRIDE) by (nonlinear_arith)
            requires
                cur.len() == prev.len() + 14,
                prev.len() == (m - 1) * 14,
        ;
        assert forall|k: int| 0 <= k < m implies #[trigger] slot_bytes(cur, k) == vertex_record(
            pos,
            nor,
            uv,
            perm[k] as int,
        ) by {
            if k < m - 1 {
                assert(k * 14 + 14 <= (m - 1) * 14) by (nonlinear_arith)
                    requires
                        k < m - 1,
                ;
                assert(slot_bytes(cur, k) =~= slot_bytes(prev, k));
            } else {
                assert(k * 14 == prev.len());
                assert(slot_bytes(cur, k) =~= vertex_record(pos, nor, uv, perm[k] as int));
            }
        }
    }
}

/// Appends a signed 16-bit value as two little-endian two's-complement bytes.
pub fn push_i16_le(buf: &mut Vec<u8>, v: i16)
    ensures
        final(buf)@ == old(buf)@ + le16(v as u16),
{
    push_u16_le(buf, v as u16);
}

/// Appends an unsigned 16-bit value as two little-endian bytes.
pub fn push_u16_le(buf: &mut Vec<u8>, v: u16)
    ensures
        final(buf)@ == old(buf)@ + le16(v),
{
    let ghost start = buf@;
    buf.push((v % 256) as u8);
    buf.push((v / 256) as u8);
    assert(buf@ =~= start + le16(v));
}

proof fn lemma_lane_in_bounds(v: int, n: int, len: int, w: int, j: int)
    requires
        0 <= v < n,
        0 <= j < w,
        w * n <= len,
    ensures
        0 <= w * v + j < len,
        v * w == w * v,
{
    assert(w * v + j < w * n && v * w == w * v) by (nonlinear_arith)
        requires
            0 <= v < n,
            0 <= j < w,
    ;
}

/// Reorders the vertices by the seeded permutation into one interleaved
/// buffer, and remaps the index buffer so that each index addresses the new
/// slot of the vertex it named. Without an index buffer the identity
/// `0..vertex_count` is emitted.
pub fn pack_interleave_permute(
    qpos: &QuantizedPositions,
    qnor: &QuantizedNormalsOct,
    quv: &QuantizedUVs,
    indices: Option<&[u32]>,
    perm_seed: u64,
) -> (r: PackedMesh)
    requires
        qnor.data@.len() == 2 * (qpos.data@.len() / 3),
        quv.data@.len() == 2 * (qpos.data@.len() / 3),
        qpos.data@.len() / 3 <= u32::MAX,
        match indices {
            Some(idx) => forall|k: int| 0 <= k < idx@.len() ==> (#[trigger] idx@[k] as int) < qpos.data@.len() / 3,
            None => true,
        },
    ensures
        r.vertex_count == qpos.data@.len() / 3,
        r.interleaved@ == interleave(
            qpos.data@,
            qnor.data@,
            quv.data@,
            fy_permutation(r.vertex_count as nat, perm_seed),
            r.vertex_count as nat,
        ),
        r.interleaved@.len() == r.vertex_count * VERTEX_STRIDE,
        forall|k: int|
            0 <= k < r.vertex_count ==> #[trigger] slot_bytes(r.interleaved@, k) == vertex_record(
                qpos.data@,
                qnor.data@,
                quv.data@,
                fy_permutation(r.vertex_count as nat, perm_seed)[k] as int,
            ),
        match indices {
            Some(idx) => {
                &&& r.indices@.len() == idx@.len()
                &&& forall|k: int|
                    0 <= k < idx@.len() ==> (#[trigger] r.indices@[k] as int) < r.vertex_count
                        && fy_permutation(r.vertex_count as nat, perm_seed)[r.indices@[k] as int]
                        == idx@[k]
                &&& forall|k: int|
                    0 <= k < idx@.len() ==> #[trigger] slot_bytes(r.interleaved@, r.indices@[k] as int)
                        == vertex_record(qpos.data@, qnor.data@, quv.data@, idx@[k] as int)
            },
            None => r.indices@ == identity_seq(r.vertex_count as nat),
        },
        r.pos_scale == qpos.scale,
        r.pos_offset == qpos.offset,
        r.perm_seed == perm_seed,
{
    let vertex_count = qpos.data.len() / 3;
    let perm = permutation_fy(vertex_count, perm_seed);
    let inv = inverse_permutation(perm.as_slice());
    let ghost pos = qpos.data@;
    let ghost nor = qnor.data@;
    let ghost uv = quv.data@;

    let pos_len = qpos.data.len();
    let mut interleaved: Vec<u8> = Vec::new();
    let mut new_idx: usize = 0;
    while new_idx < vertex_count
        invariant
            vertex_count == pos.len() / 3,
            pos_len == pos.len(),
            nor.len() == 2 * vertex_count,
            uv.len() == 2 * vertex_count,
            pos == qpos.data@,
            nor == qnor.data@,
            uv == quv.data@,
            perm@.len() == vertex_count,
            is_permutation(perm@),
            new_idx <= vertex_count,
            interleaved@ == interleave(pos, nor, uv, perm@, new_idx as nat),
        decreases vertex_count - new_idx,
    {
        let old_idx = perm[new_idx] as usize;
        proof {
            assert(3 * vertex_count <= pos.len()) by (nonlinear_arith)
                requires
                    vertex_count == pos.len() / 3,
            ;
            lemma_lane_in_bounds(old_idx as int, vertex_count as int, pos.len() as int, 3, 2);
            lemma_lane_in_bounds(old_idx as int, vertex_count as int, nor.len() as int, 2, 1);
        }
        let ghost start = interleaved@;

        push_i16_le(&mut interleaved, qpos.data[old_idx * 3]);
        push_i16_le(&mut interleaved, qpos.data[old_idx * 3 + 1]);
        push_i16_le(&mut interleaved, qpos.data[old_idx * 3 + 2]);

        push_u16_le(&mut interleaved, qnor.data[old_idx * 2]);
        push_u16_le(&mut interleaved, qnor.data[old_idx * 2 + 1]);

        push_u16_le(&mut interleaved, quv.data[old_idx * 2]);
        push_u16_le(&mut interleaved, quv.data[old_idx * 2 + 1]);

        assert(interleaved@ =~= start + vertex_record(pos, nor, uv, old_idx as int));
        new_idx += 1;
    }
    proof {
        lemma_interleave_slots(pos, nor, uv, perm@, vertex_count as nat);
    }

    let remapped_indices = match indices {
        Some(idx) => {
            let mut out: Vec<u32> = Vec::with_capacity(idx.len());
            let mut k: usize = 0;
            while k < idx.len()
                invariant
                    k <= idx@.len(),
                    out@.len() == k,
                    inv@.len() == vertex_count,
                    forall|j: int| 0 <= j < idx@.len() ==> (#[trigger] idx@[j] as int) < vertex_count,
                    forall|j: int| 0 <= j < k ==> #[trigger] out@[j] == inv@[idx@[j] as int],
                decreases idx@.len() - k,
            {
                out.push(inv[idx[k] as usize]);
                k += 1;
            }
            out
        },
        None => identity_indices(vertex_count),
    };

    PackedMesh {
        interleaved,
        vertex_count,
        indices: remapped_indices,
        pos_scale: qpos.scale,
        pos_offset: qpos.offset,
        perm_seed,
    }
}

} // verus!
