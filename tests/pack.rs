use meshguard::pack::{pack_interleave_permute, push_i16_le, push_u16_le, PackedMesh, VERTEX_STRIDE};
use meshguard::quantize::{QuantizedNormalsOct, QuantizedPositions, QuantizedUVs};

// Quantized form of positions [[0,1,2],[10,20,30],[-1,0.5,100]], normals
// [[0,0,1],[1,0,0],[0.577,0.577,0.577]] and UVs [[0,0],[0.5,0.75],[1,1]].
fn sample() -> (QuantizedPositions, QuantizedNormalsOct, QuantizedUVs) {
    let scale = [
        ((11.0f64 / 65535.0) as f32).to_bits(),
        ((19.5f64 / 65535.0) as f32).to_bits(),
        ((98.0f64 / 65535.0) as f32).to_bits(),
    ];
    let offset = [(-1.0f32).to_bits(), 0.5f32.to_bits(), 2.0f32.to_bits()];
    let qpos = QuantizedPositions {
        data: vec![-26810, -31088, -32768, 32767, 32767, -14044, -32768, -32768, 32767],
        scale,
        offset,
    };
    let qnor = QuantizedNormalsOct { data: vec![32768, 32768, 65535, 32768, 43690, 43690] };
    let quv = QuantizedUVs { data: vec![0, 0, 32768, 49151, 65535, 65535] };
    (qpos, qnor, quv)
}

fn record(q: &(QuantizedPositions, QuantizedNormalsOct, QuantizedUVs), v: usize) -> Vec<u8> {
    let mut out = Vec::new();
    for a in 0..3 {
        out.extend_from_slice(&q.0.data[v * 3 + a].to_le_bytes());
    }
    for a in 0..2 {
        out.extend_from_slice(&q.1.data[v * 2 + a].to_le_bytes());
    }
    for a in 0..2 {
        out.extend_from_slice(&q.2.data[v * 2 + a].to_le_bytes());
    }
    out
}

fn slot(packed: &PackedMesh, k: usize) -> Vec<u8> {
    packed.interleaved[k * VERTEX_STRIDE..(k + 1) * VERTEX_STRIDE].to_vec()
}

#[test]
fn pack_round_lengths() {
    let (qpos, qnor, quv) = sample();
    let idx = vec![0u32, 1, 2];
    let packed = pack_interleave_permute(&qpos, &qnor, &quv, Some(&idx), 0x1234_5678_9ABC_DEF0);

    assert_eq!(packed.vertex_count, 3);
    assert_eq!(packed.interleaved.len(), 3 * 14);
    assert_eq!(packed.indices.len(), 3);
}

#[test]
fn scenario_indices_form_a_permutation() {
    let (qpos, qnor, quv) = sample();
    let idx = vec![0u32, 1, 2];
    let packed = pack_interleave_permute(&qpos, &qnor, &quv, Some(&idx), 0x1234_5678_9ABC_DEF0);
    let mut sorted = packed.indices.clone();
    sorted.sort();
    assert_eq!(sorted, vec![0, 1, 2]);
    // the seed moves vertex 1 to slot 0, vertex 2 to slot 1, vertex 0 to slot 2
    assert_eq!(packed.indices, vec![2, 0, 1]);
}

#[test]
fn scenario_exact_bytes() {
    let q = sample();
    let packed = pack_interleave_permute(&q.0, &q.1, &q.2, None, 0x1234_5678_9ABC_DEF0);
    let mut expected = record(&q, 1);
    expected.extend(record(&q, 2));
    expected.extend(record(&q, 0));
    assert_eq!(packed.interleaved, expected);
    assert_eq!(
        slot(&packed, 0),
        vec![0xFF, 0x7F, 0xFF, 0x7F, 0x24, 0xC9, 0xFF, 0xFF, 0x00, 0x80, 0x00, 0x80, 0xFF, 0xBF]
    );
}

#[test]
fn remapped_index_addresses_original_vertex() {
    let q = sample();
    let idx = vec![2u32, 0, 1, 1, 2, 0, 2];
    let packed = pack_interleave_permute(&q.0, &q.1, &q.2, Some(&idx), 99);
    assert_eq!(packed.indices.len(), idx.len());
    for (k, &old) in idx.iter().enumerate() {
        assert_eq!(slot(&packed, packed.indices[k] as usize), record(&q, old as usize));
    }
}

#[test]
fn no_indices_gives_identity() {
    let q = sample();
    let packed = pack_interleave_permute(&q.0, &q.1, &q.2, None, 7);
    assert_eq!(packed.indices, vec![0, 1, 2]);
}

#[test]
fn metadata_is_copied() {
    let q = sample();
    let packed = pack_interleave_permute(&q.0, &q.1, &q.2, None, 0xDEAD_BEEF_CAFE_BABE);
    assert_eq!(packed.pos_scale, q.0.scale);
    assert_eq!(packed.pos_offset, q.0.offset);
    assert_eq!(packed.perm_seed, 0xDEAD_BEEF_CAFE_BABE);
    assert_eq!(f32::from_bits(packed.pos_offset[0]), -1.0);
}

#[test]
fn packing_is_deterministic() {
    let q = sample();
    let idx = vec![0u32, 2, 1];
    let a = pack_interleave_permute(&q.0, &q.1, &q.2, Some(&idx), 42);
    let b = pack_interleave_permute(&q.0, &q.1, &q.2, Some(&idx), 42);
    assert_eq!(a.interleaved, b.interleaved);
    assert_eq!(a.indices, b.indices);
}

#[test]
fn empty_mesh_packs_to_nothing() {
    let qpos = QuantizedPositions { data: vec![], scale: [1, 2, 3], offset: [4, 5, 6] };
    let qnor = QuantizedNormalsOct { data: vec![] };
    let quv = QuantizedUVs { data: vec![] };
    let packed = pack_interleave_permute(&qpos, &qnor, &quv, None, 0);
    assert_eq!(packed.vertex_count, 0);
    assert!(packed.interleaved.is_empty());
    assert!(packed.indices.is_empty());
}

#[test]
fn trailing_position_lanes_are_ignored() {
    let qpos = QuantizedPositions { data: vec![1, 2, 3, 4], scale: [0; 3], offset: [0; 3] };
    let qnor = QuantizedNormalsOct { data: vec![5, 6] };
    let quv = QuantizedUVs { data: vec![7, 8] };
    let packed = pack_interleave_permute(&qpos, &qnor, &quv, None, 3);
    assert_eq!(packed.vertex_count, 1);
    assert_eq!(packed.interleaved, vec![1, 0, 2, 0, 3, 0, 5, 0, 6, 0, 7, 0, 8, 0]);
}

#[test]
fn buffer_size_is_fourteen_per_vertex() {
    let n = 50usize;
    let qpos = QuantizedPositions { data: vec![0; n * 3], scale: [0; 3], offset: [0; 3] };
    let qnor = QuantizedNormalsOct { data: vec![0; n * 2] };
    let quv = QuantizedUVs { data: vec![0; n * 2] };
    let packed = pack_interleave_permute(&qpos, &qnor, &quv, None, 11);
    assert_eq!(packed.interleaved.len(), n * 14);
}

#[test]
fn push_lanes_little_endian() {
    let mut buf = vec![9u8];
    push_i16_le(&mut buf, -2);
    push_u16_le(&mut buf, 0x1234);
    push_i16_le(&mut buf, -32768);
    assert_eq!(buf, vec![9, 0xFE, 0xFF, 0x34, 0x12, 0x00, 0x80]);
}
