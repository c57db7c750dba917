use wasm_occlusion::alpha::blend_alpha;
use wasm_occlusion::memory::Memory;

fn write_bytes(m: &mut Memory, addr: usize, data: &[u8]) {
    for (k, b) in data.iter().enumerate() {
        m.store(addr + k, *b);
    }
}

fn read_bytes(m: &Memory, addr: usize, n: usize) -> Vec<u8> {
    let mut out = Vec::new();
    for k in 0..n {
        out.push(m.load(addr + k));
    }
    out
}

fn snapshot(m: &Memory) -> Vec<u8> {
    read_bytes(m, 0, m.size())
}

#[test]
fn opaque_occluder_blanks_alpha() {
    let mut m = Memory::new();
    let t = m.reserve(4);
    let o = m.reserve(4);
    write_bytes(&mut m, t, &[10, 20, 30, 200]);
    write_bytes(&mut m, o, &[0, 0, 0, 255]);
    m.alpha_composite_inplace(t, o, 4);
    assert_eq!(read_bytes(&m, t, 4), vec![10, 20, 30, 0]);
}

#[test]
fn transparent_occluder_changes_nothing() {
    let mut m = Memory::new();
    let t = m.reserve(4);
    let o = m.reserve(4);
    write_bytes(&mut m, t, &[10, 20, 30, 200]);
    write_bytes(&mut m, o, &[0, 0, 0, 0]);
    m.alpha_composite_inplace(t, o, 4);
    assert_eq!(read_bytes(&m, t, 4), vec![10, 20, 30, 200]);
}

#[test]
fn half_opaque_occluder_floors() {
    let mut m = Memory::new();
    let t = m.reserve(4);
    let o = m.reserve(4);
    write_bytes(&mut m, t, &[1, 2, 3, 200]);
    write_bytes(&mut m, o, &[9, 9, 9, 128]);
    m.alpha_composite_inplace(t, o, 4);
    // 200 * (255 - 128) / 255 = 25400 / 255 = 99 with the division truncating
    assert_eq!(m.load(t + 3), 99);
    assert_eq!(read_bytes(&m, t, 3), vec![1, 2, 3]);
}

#[test]
fn null_target_is_a_no_op() {
    let mut m = Memory::new();
    let o = m.reserve(200);
    write_bytes(&mut m, o, &[255; 200]);
    let before = snapshot(&m);
    m.alpha_composite_inplace(0, o, 100);
    assert_eq!(snapshot(&m), before);
}

#[test]
fn null_occluder_is_a_no_op() {
    let mut m = Memory::new();
    let t = m.reserve(200);
    write_bytes(&mut m, t, &[200; 200]);
    let before = snapshot(&m);
    m.alpha_composite_inplace(t, 0, 100);
    assert_eq!(snapshot(&m), before);
}

#[test]
fn zero_length_is_a_no_op() {
    let mut m = Memory::new();
    let t = m.reserve(8);
    let o = m.reserve(8);
    write_bytes(&mut m, t, &[1, 2, 3, 4, 5, 6, 7, 8]);
    write_bytes(&mut m, o, &[255; 8]);
    let before = snapshot(&m);
    m.alpha_composite_inplace(t, o, 0);
    assert_eq!(snapshot(&m), before);
}

#[test]
fn partial_trailing_pixel_is_skipped() {
    let mut m = Memory::new();
    let t = m.reserve(8);
    let o = m.reserve(8);
    write_bytes(&mut m, t, &[10, 20, 30, 200, 40, 50, 60, 200]);
    write_bytes(&mut m, o, &[0, 0, 0, 255, 0, 0, 0, 255]);
    // len 6 covers one pixel and a half: only the alpha at offset 3 is
    // processed; offset 7 would be the next alpha but 7 >= 6
    m.alpha_composite_inplace(t, o, 6);
    assert_eq!(read_bytes(&m, t, 8), vec![10, 20, 30, 0, 40, 50, 60, 200]);
}

#[test]
fn only_alpha_bytes_change() {
    let mut m = Memory::new();
    let t = m.reserve(16);
    let o = m.reserve(16);
    let target: Vec<u8> = (0..16).map(|k| 10 + k as u8).collect();
    write_bytes(&mut m, t, &target);
    write_bytes(&mut m, o, &[255; 16]);
    m.alpha_composite_inplace(t, o, 16);
    let after = read_bytes(&m, t, 16);
    for k in 0..16 {
        if k % 4 == 3 {
            assert_eq!(after[k], 0);
        } else {
            assert_eq!(after[k], target[k]);
        }
    }
    // the occluder buffer itself is untouched
    assert_eq!(read_bytes(&m, o, 16), vec![255; 16]);
}

#[test]
fn consecutive_reservations_do_not_overlap() {
    let mut m = Memory::new();
    let n = 64;
    let a1 = m.reserve(n);
    let a2 = m.reserve(n);
    assert_ne!(a1, 0);
    assert_ne!(a2, 0);
    // [a1, a1 + n) and [a2, a2 + n) are disjoint
    assert!(a1 + n <= a2 || a2 + n <= a1);
}

#[test]
fn reset_discards_all_reservations() {
    let mut m = Memory::new();
    let a1 = m.reserve(32);
    assert!(m.size() >= 32);
    m.reset();
    assert_eq!(m.size(), 1);
    // a reservation made after the reset may reuse the old addresses
    let a2 = m.reserve(32);
    assert_eq!(a1, a2);
}

#[test]
fn blend_alpha_exact_values() {
    assert_eq!(blend_alpha(200, 128), 99);
    assert_eq!(blend_alpha(200, 255), 0);
    assert_eq!(blend_alpha(200, 0), 200);
    assert_eq!(blend_alpha(255, 255), 0);
    assert_eq!(blend_alpha(255, 0), 255);
    assert_eq!(blend_alpha(0, 77), 0);
}

#[test]
fn blend_alpha_matches_formula_everywhere() {
    for ta in 0..=255u32 {
        for oa in 0..=255u32 {
            let expect = (ta * (255 - oa)) / 255;
            assert_eq!(blend_alpha(ta as u8, oa as u8) as u32, expect);
        }
    }
}
