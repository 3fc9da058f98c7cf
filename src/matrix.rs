use vstd::prelude::*;

verus! {

broadcast use vstd::array::group_array_axioms;

/// Sum of the bytes `s`.
pub open spec fn bytes_total(s: Seq<u8>) -> int
    decreases s.len(),
{
    if s.len() == 0 {
        0
    } else {
        bytes_total(s.drop_last()) + s.last()
    }
}

/// Sum of all the bytes of the rows `m`.
pub open spec fn rows_total(m: Seq<[u8; 64]>) -> int
    decreases m.len(),
{
    if m.len() == 0 {
        0
    } else {
        rows_total(m.drop_last()) + bytes_total(m.last()@)
    }
}

proof fn lemma_bytes_total_bound(s: Seq<u8>)
    ensures
        0 <= bytes_total(s) <= 255 * s.len(),
    decreases s.len(),
{
    if s.len() > 0 {
        lemma_bytes_total_bound(s.drop_last());
    }
}

proof fn lemma_rows_total_bound(m: Seq<[u8; 64]>)
    ensures
        0 <= rows_total(m) <= 16320 * m.len(),
    decreases m.len(),
{
    if m.len() > 0 {
        lemma_rows_total_bound(m.drop_last());
        lemma_bytes_total_bound(m.last()@);
        assert(m.last()@.len() == 64);
    }
}

/// Relies on rand's `RngCore::fill_bytes` on `thread_rng`: 64 random bytes.
#[verifier::external_body]
fn random_row() -> [u8; 64] {
    let mut row = [0u8; 64];
    rand::RngCore::fill_bytes(&mut rand::thread_rng(), &mut row);
    row
}

/// A 64 by 64 matrix of random bytes.
pub fn random_matrix() -> (r: Vec<[u8; 64]>)
    ensures
        r@.len() == 64,
{
    let mut m: Vec<[u8; 64]> = Vec::new();
    while m.len() < 64
        invariant
            m@.len() <= 64,
        decreases 64 - m@.len(),
    {
        m.push(random_row());
    }
    m
}

/// Sum of all the bytes of the rows `m`.
pub fn matrix_sum(m: &Vec<[u8; 64]>) -> (r: u32)
    requires
        m@.len() <= 64,
    ensures
        r == rows_total(m@),
{
    let mut total: u32 = 0;
    let mut i: usize = 0;
    while i < m.len()
        invariant
            m@.len() <= 64,
            i <= m@.len(),
            total == rows_total(m@.subrange(0, i as int)),
        decreases m@.len() - i,
    {
        let row = &m[i];
        let mut row_total: u32 = 0;
        let mut j: usize = 0;
        while j < 64
            invariant
                j <= 64,
                row_total == bytes_total(row@.subrange(0, j as int)),
            decreases 64 - j,
        {
            proof {
                assert(row@.subrange(0, j + 1).drop_last() =~= row@.subrange(0, j as int));
                lemma_bytes_total_bound(row@.subrange(0, j as int));
            }
            row_total = row_total + row[j] as u32;
            j = j + 1;
        }
        proof {
            assert(row@.subrange(0, 64) =~= row@);
            assert(m@.subrange(0, i + 1).drop_last() =~= m@.subrange(0, i as int));
            lemma_rows_total_bound(m@.subrange(0, i as int));
            lemma_bytes_total_bound(row@);
        }
        total = total + row_total;
        i = i + 1;
    }
    proof {
        assert(m@.subrange(0, m@.len() as int) =~= m@);
    }
    total
}

} // verus!
