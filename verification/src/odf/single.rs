//! Where decimals vanish: a number that single precision cannot tell from zero is zero.

use vstd::prelude::*;
use crate::chars::chars_of;

verus! {

/// The digits behind the point of half the least number of single precision. A number that
/// is no more than this is rounded to zero.
pub const TINY: &'static str = "000000000000000000000000000000000000000000000700649232162408535461864791644958065640130970938257885878534141944895541342930300743319094181060791015625";

/// The digit in place `i` behind the point, of digits whose point stands before the one at
/// `k`.
pub open spec fn place(d: Seq<char>, k: int, i: int) -> char {
    if 0 <= k + i < d.len() {
        d[k + i]
    } else {
        '0'
    }
}

/// From place `i` on, the digits make no more than those of `TINY` do.
pub open spec fn no_more(d: Seq<char>, k: int, i: int) -> bool
    decreases TINY@.len() - i,
{
    if i >= TINY@.len() {
        forall|j: int| 0 <= j < d.len() && k + i <= j ==> #[trigger] d[j] == '0'
    } else if place(d, k, i) != TINY@[i] {
        place(d, k, i) < TINY@[i]
    } else {
        no_more(d, k, i + 1)
    }
}

/// What stands behind the point, from the digit at `k` on, is zero in single precision.
pub open spec fn vanishes(d: Seq<char>, k: int) -> bool {
    no_more(d, k, 0)
}

/// Digits that stand too far behind the point to matter do so wherever they stand.
pub proof fn lemma_far_down(d: Seq<char>, k: int, m: int)
    requires
        k <= -1000,
        m <= -1000,
    ensures
        vanishes(d, k) == vanishes(d, m),
{
    reveal_strlit("000000000000000000000000000000000000000000000700649232162408535461864791644958065640130970938257885878534141944895541342930300743319094181060791015625");
    lemma_far_down_from(d, k, m, 0);
}

proof fn lemma_far_down_from(d: Seq<char>, k: int, m: int, i: int)
    requires
        k <= -1000,
        m <= -1000,
        0 <= i <= TINY@.len() <= 1000,
    ensures
        no_more(d, k, i) == no_more(d, m, i),
    decreases TINY@.len() - i,
{
    if i < TINY@.len() {
        lemma_far_down_from(d, k, m, i + 1);
    } else {
        assert(no_more(d, k, i) ==> no_more(d, m, i));
        assert(no_more(d, m, i) ==> no_more(d, k, i));
    }
}

/// Whether what stands behind the point is zero in single precision.
pub fn is_tiny(d: &Vec<char>, k: i128) -> (r: bool)
    requires
        -0x4000_0000_0000_0000_0000_0000_0000 < k < 0x4000_0000_0000_0000_0000_0000_0000,
    ensures
        r == vanishes(d@, k as int),
{
    let t: Vec<char> = chars_of(TINY);
    let total: i128 = d.len() as i128;
    let mut i: usize = 0;
    while i < t.len()
        invariant
            t@ == TINY@,
            total == d@.len(),
            total <= usize::MAX,
            i <= t@.len(),
            -0x4000_0000_0000_0000_0000_0000_0000 < k < 0x4000_0000_0000_0000_0000_0000_0000,
            vanishes(d@, k as int) == no_more(d@, k as int, i as int),
        decreases t@.len() - i,
    {
        let at: i128 = k + i as i128;
        let c: char = if 0 <= at && at < total {
            d[at as usize]
        } else {
            '0'
        };
        assert(c == place(d@, k as int, i as int));
        if c != t[i] {
            return c < t[i];
        }
        i = i + 1;
    }
    let from: i128 = k + i as i128;
    let mut j: i128 = if from < 0 {
        0
    } else {
        from
    };
    while j < total
        invariant
            total == d@.len(),
            total <= usize::MAX,
            0 <= j,
            i == TINY@.len(),
            from == k + i,
            from <= j,
            vanishes(d@, k as int) == no_more(d@, k as int, i as int),
            forall|m: int| 0 <= m < d@.len() && from <= m < j ==> #[trigger] d@[m] == '0',
        decreases total - j,
    {
        if d[j as usize] != '0' {
            assert(d@[j as int] != '0');
            return false;
        }
        j = j + 1;
    }
    true
}

} // verus!
