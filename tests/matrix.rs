use exercises::matrix::{matrix_sum, random_matrix};

#[test]
fn sums_all_bytes() {
    let m = vec![[255u8; 64]; 64];
    assert_eq!(matrix_sum(&m), 255 * 64 * 64);
    let mut n = vec![[0u8; 64]; 3];
    n[1][5] = 7;
    n[2][63] = 9;
    assert_eq!(matrix_sum(&n), 16);
    assert_eq!(matrix_sum(&Vec::new()), 0);
}

#[test]
fn random_matrix_is_square() {
    let m = random_matrix();
    assert_eq!(m.len(), 64);
    let total: u32 = m.iter().flatten().map(|&b| u32::from(b)).sum();
    assert_eq!(matrix_sum(&m), total);
}
