//! How many work groups a compute dispatch needs.

use vstd::prelude::*;

verus! {

/// The number of work groups of `group_size` invocations that one dispatch
/// needs so that every one of `items` items gets an invocation: `items`
/// divided by `group_size`, rounded up.
pub fn group_count(items: usize, group_size: usize) -> (r: usize)
    requires
        group_size > 0,
    ensures
        r == items / group_size + if items % group_size == 0 { 0int } else { 1int },
        r * group_size >= items,
        r == 0 || (r - 1) * group_size < items,
{
    let r = if items % group_size == 0 {
        items / group_size
    } else {
        assert(items / group_size < usize::MAX) by (nonlinear_arith)
            requires
                group_size > 0,
                items % group_size != 0,
                items <= usize::MAX,
        {
            assert(group_size > 1);
            assert(items / group_size <= items / 2) by (nonlinear_arith)
                requires
                    group_size >= 2,
                    items >= 0,
            ;
        }
        items / group_size + 1
    };
    proof {
        let q = items / group_size;
        let m = items % group_size;
        assert(q * group_size + m == items && 0 <= m < group_size) by (nonlinear_arith)
            requires
                group_size > 0,
                q == items / group_size,
                m == items % group_size,
        ;
        if m == 0 {
            assert(r * group_size == items);
            if r > 0 {
                assert((r - 1) * group_size == r * group_size - group_size) by (nonlinear_arith);
            }
        } else {
            assert(r * group_size == q * group_size + group_size) by (nonlinear_arith)
                requires
                    r == q + 1,
            ;
            assert((r - 1) * group_size == q * group_size);
        }
    }
    r
}

} // verus!
