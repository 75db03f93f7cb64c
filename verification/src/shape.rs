//! The number of samples of a field, from its extents.

use vstd::prelude::*;

verus! {

/// The product of the extents: the number of samples. It is 1 for a field
/// without dimensions and 0 where an extent is 0.
pub open spec fn product(sizes: Seq<usize>) -> nat
    decreases sizes.len(),
{
    if sizes.len() == 0 {
        1
    } else {
        product(sizes.drop_last()) * (sizes.last() as nat)
    }
}

/// An extent of 0 makes the product 0.
pub proof fn product_with_zero(sizes: Seq<usize>, at: int)
    requires
        0 <= at < sizes.len(),
        sizes[at] == 0,
    ensures
        product(sizes) == 0,
    decreases sizes.len(),
{
    if at < sizes.len() - 1 {
        product_with_zero(sizes.drop_last(), at);
        assert(product(sizes.drop_last()) * sizes.last() == 0) by (nonlinear_arith)
            requires
                product(sizes.drop_last()) == 0,
        ;
    } else {
        assert(product(sizes.drop_last()) * sizes.last() == 0) by (nonlinear_arith)
            requires
                sizes.last() == 0,
        ;
    }
}

/// Where no extent is 0, the product of the first `n` extents is positive
/// and at most the product of all.
pub proof fn product_grows(sizes: Seq<usize>, n: int)
    requires
        0 <= n <= sizes.len(),
        forall|i: int| 0 <= i < sizes.len() ==> sizes[i] > 0,
    ensures
        0 < product(sizes.take(n)) <= product(sizes),
    decreases sizes.len() - n,
{
    if n == sizes.len() {
        assert(sizes.take(n) =~= sizes);
        product_positive(sizes);
    } else {
        product_grows(sizes, n + 1);
        let next = sizes.take(n + 1);
        assert(next.drop_last() =~= sizes.take(n));
        assert(next.last() == sizes[n]);
        product_positive(sizes.take(n));
        assert(product(sizes.take(n)) <= product(sizes.take(n)) * sizes[n]) by (nonlinear_arith)
            requires
                sizes[n] > 0,
                product(sizes.take(n)) > 0,
        ;
    }
}

/// Where no extent is 0, the product is positive.
pub proof fn product_positive(sizes: Seq<usize>)
    requires
        forall|i: int| 0 <= i < sizes.len() ==> sizes[i] > 0,
    ensures
        product(sizes) > 0,
    decreases sizes.len(),
{
    if sizes.len() > 0 {
        product_positive(sizes.drop_last());
        assert(product(sizes.drop_last()) * sizes.last() > 0) by (nonlinear_arith)
            requires
                product(sizes.drop_last()) > 0,
                sizes.last() > 0,
        ;
    }
}

/// The number of samples of a field with these extents, where that number
/// fits the machine's word; `None` where it does not.
pub fn element_count(sizes: &[usize]) -> (r: Option<usize>)
    ensures
        match r {
            Some(n) => n == product(sizes@),
            None => product(sizes@) > usize::MAX,
        },
{
    let mut k: usize = 0;
    while k < sizes.len()
        invariant
            k <= sizes.len(),
            forall|i: int| 0 <= i < k ==> sizes@[i] > 0,
        decreases sizes.len() - k,
    {
        if sizes[k] == 0 {
            proof {
                product_with_zero(sizes@, k as int);
            }
            return Some(0);
        }
        k += 1;
    }
    let mut n: usize = 1;
    let mut i: usize = 0;
    assert(sizes@.take(0) =~= Seq::<usize>::empty());
    while i < sizes.len()
        invariant
            i <= sizes.len(),
            forall|j: int| 0 <= j < sizes.len() ==> sizes@[j] > 0,
            n == product(sizes@.take(i as int)),
        decreases sizes.len() - i,
    {
        let ghost next = sizes@.take(i + 1);
        proof {
            assert(next.drop_last() =~= sizes@.take(i as int));
            assert(next.last() == sizes@[i as int]);
            product_grows(sizes@, i + 1);
        }
        match n.checked_mul(sizes[i]) {
            Some(m) => {
                n = m;
            },
            None => {
                return None;
            },
        }
        i += 1;
    }
    assert(sizes@.take(i as int) =~= sizes@);
    Some(n)
}

/// The number of samples of a field with these extents, where that many
/// samples of `width` bytes each take no more than `len` bytes; `None`
/// where they take more.
pub fn count_within(sizes: &[usize], width: usize, len: usize) -> (r: Option<usize>)
    requires
        width > 0,
    ensures
        match r {
            Some(n) => n == product(sizes@) && n * width <= len,
            None => product(sizes@) * width > len,
        },
{
    let ghost all = product(sizes@);
    match element_count(sizes) {
        None => {
            assert(all * width > len) by (nonlinear_arith)
                requires
                    all > len,
                    width >= 1,
            ;
            None
        },
        Some(n) => {
            let room: usize = len / width;
            if n > room {
                assert(n * width > len) by (nonlinear_arith)
                    requires
                        n >= room + 1,
                        room == len as int / width as int,
                        width >= 1,
                ;
                None
            } else {
                assert(n * width <= len) by (nonlinear_arith)
                    requires
                        n <= room,
                        room == len as int / width as int,
                        width >= 1,
                ;
                Some(n)
            }
        },
    }
}

} // verus!
