use vstd::prelude::*;

verus! {

/// One part of a multipart upload: its 1-based number and the byte range
/// of the object it carries.
#[derive(PartialEq, Eq, Structural, Debug, Clone, Copy)]
pub struct PartRange {
    pub number: u64,
    pub offset: u64,
    pub length: u64,
}

/// Objects larger than the chunk size go up in parts; the others in a single
/// request.
pub open spec fn uses_multipart(size: u64, chunk_size: u64) -> bool {
    size > chunk_size
}

/// Number of parts: the size divided by the chunk size, rounded up.
pub open spec fn part_count(size: u64, chunk_size: u64) -> nat
    recommends
        chunk_size > 0,
{
    if size % chunk_size == 0 {
        (size / chunk_size) as nat
    } else {
        (size / chunk_size + 1) as nat
    }
}

/// Length of part `i` (0-based): a full chunk, or what is left of the object.
pub open spec fn part_length(size: u64, chunk_size: u64, i: int) -> int {
    if size - i * chunk_size < chunk_size {
        size - i * chunk_size
    } else {
        chunk_size as int
    }
}

/// The parts of an object of `size` bytes, in order.
pub open spec fn part_plan(size: u64, chunk_size: u64) -> Seq<PartRange> {
    Seq::new(
        part_count(size, chunk_size),
        |i: int|
            PartRange {
                number: (i + 1) as u64,
                offset: (i * chunk_size) as u64,
                length: part_length(size, chunk_size, i) as u64,
            },
    )
}

/// Sum of the lengths of the parts.
pub open spec fn total_length(parts: Seq<PartRange>) -> int
    decreases parts.len(),
{
    if parts.len() == 0 {
        0
    } else {
        total_length(parts.drop_last()) + parts.last().length
    }
}

proof fn lemma_count_bounds(size: u64, chunk_size: u64)
    requires
        chunk_size > 0,
    ensures
        part_count(size, chunk_size) * chunk_size >= size,
        forall|i: int|
            0 <= i < part_count(size, chunk_size) ==> #[trigger] (i * chunk_size) < size,
        part_count(size, chunk_size) <= size,
        size > chunk_size ==> part_count(size, chunk_size) >= 2,
{
    let q = size / chunk_size;
    let r = size % chunk_size;
    assert(size == q * chunk_size + r && 0 <= r < chunk_size) by (nonlinear_arith)
        requires
            chunk_size > 0,
            q == size / chunk_size,
            r == size % chunk_size,
    ;
    let n = part_count(size, chunk_size) as int;
    assert(n * chunk_size >= size && (n - 1) * chunk_size < size) by (nonlinear_arith)
        requires
            size == q * chunk_size + r,
            0 <= r < chunk_size,
            n == (if r == 0 { q as int } else { q + 1 }),
    ;
    assert forall|i: int| 0 <= i < n implies #[trigger] (i * chunk_size) < size by {
        assert(i * chunk_size <= (n - 1) * chunk_size) by (nonlinear_arith)
            requires
                i <= n - 1,
                chunk_size > 0,
        ;
    }
    assert(n <= size) by (nonlinear_arith)
        requires
            (n - 1) * chunk_size < size,
            chunk_size >= 1,
            n >= 0,
    ;
    if size > chunk_size {
        assert(n >= 2) by (nonlinear_arith)
            requires
                n * chunk_size >= size,
                size > chunk_size,
                chunk_size > 0,
                n >= 0,
        ;
    }
}

proof fn lemma_prefix_total(size: u64, chunk_size: u64, n: int)
    requires
        chunk_size > 0,
        0 <= n <= part_count(size, chunk_size),
    ensures
        total_length(part_plan(size, chunk_size).take(n)) == if n * chunk_size <= size {
            n * chunk_size
        } else {
            size as int
        },
    decreases n,
{
    lemma_count_bounds(size, chunk_size);
    let p = part_plan(size, chunk_size);
    if n > 0 {
        lemma_prefix_total(size, chunk_size, n - 1);
        assert(p.take(n).drop_last() == p.take(n - 1));
        assert((n - 1) * chunk_size < size);
        assert(n * chunk_size == (n - 1) * chunk_size + chunk_size) by (nonlinear_arith);
        assert(p.take(n).last() == p[n - 1]);
        assert(p[n - 1].length == part_length(size, chunk_size, n - 1));
    } else {
        assert(p.take(n).len() == 0);
        assert(n * chunk_size == 0);
    }
}

pub proof fn lemma_part_count_at_most_size(size: u64, chunk_size: u64)
    requires
        chunk_size > 0,
    ensures
        part_count(size, chunk_size) <= size,
        size > chunk_size ==> part_count(size, chunk_size) >= 2,
{
    lemma_count_bounds(size, chunk_size);
}

/// An object larger than the chunk size goes up in at least two parts,
/// numbered contiguously from 1, each no longer than the chunk size and
/// none empty, each starting where the previous one ends, and together
/// exactly as long as the object.
pub proof fn law_multipart_parts(size: u64, chunk_size: u64)
    requires
        chunk_size > 0,
        uses_multipart(size, chunk_size),
    ensures
        part_plan(size, chunk_size).len() >= 2,
        forall|i: int|
            0 <= i < part_plan(size, chunk_size).len() ==> {
                &&& (#[trigger] part_plan(size, chunk_size)[i]).number == i + 1
                &&& 0 < part_plan(size, chunk_size)[i].length <= chunk_size
            },
        part_plan(size, chunk_size)[0].offset == 0,
        forall|i: int|
            0 < i < part_plan(size, chunk_size).len() ==> (#[trigger] part_plan(
                size,
                chunk_size,
            )[i]).offset == part_plan(size, chunk_size)[i - 1].offset + part_plan(
                size,
                chunk_size,
            )[i - 1].length,
        total_length(part_plan(size, chunk_size)) == size,
{
    lemma_count_bounds(size, chunk_size);
    let p = part_plan(size, chunk_size);
    let n = p.len() as int;
    assert forall|i: int| 0 <= i < n implies {
        &&& (#[trigger] p[i]).number == i + 1
        &&& 0 < p[i].length <= chunk_size
    } by {
        assert(i * chunk_size < size);
    }
    assert forall|i: int| 0 < i < n implies (#[trigger] p[i]).offset == p[i - 1].offset + p[i
        - 1].length by {
        assert((i - 1) * chunk_size < size);
        assert(i * chunk_size < size);
        assert(i * chunk_size == (i - 1) * chunk_size + chunk_size) by (nonlinear_arith);
    }
    lemma_prefix_total(size, chunk_size, n);
    assert(p.take(n) == p);
}

/// The parts of an object of `size` bytes cut into chunks of `chunk_size`.
pub fn plan_parts(size: u64, chunk_size: u64) -> (r: Vec<PartRange>)
    requires
        chunk_size > 0,
    ensures
        r@ == part_plan(size, chunk_size),
{
    proof {
        lemma_count_bounds(size, chunk_size);
    }
    let count: u64 = if size % chunk_size == 0 {
        size / chunk_size
    } else {
        size / chunk_size + 1
    };
    let mut parts: Vec<PartRange> = Vec::new();
    let mut i: u64 = 0;
    while i < count
        invariant
            chunk_size > 0,
            count == part_count(size, chunk_size),
            i <= count,
            forall|j: int| 0 <= j < count ==> #[trigger] (j * chunk_size) < size,
            parts@ == part_plan(size, chunk_size).take(i as int),
        decreases count - i,
    {
        assert(i * chunk_size < size);
        let offset: u64 = i * chunk_size;
        let length: u64 = if size - offset < chunk_size {
            size - offset
        } else {
            chunk_size
        };
        parts.push(PartRange { number: i + 1, offset, length });
        proof {
            assert(parts@ =~= part_plan(size, chunk_size).take(i as int + 1));
        }
        i = i + 1;
    }
    assert(parts@ =~= part_plan(size, chunk_size));
    parts
}

} // verus!
