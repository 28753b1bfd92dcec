//! Tooltip page counter arithmetic, shared by the daemon and the `page`
//! wheel command.
//!
//! The counter is a single integer in the page file; the wrap bound is the
//! published page count. The read-modify-write itself (under a lock) is done
//! by the caller; this module decides the new value.

use vstd::prelude::*;

verus! {

/// Direction of a single page step.
#[derive(Debug, Clone, Copy, PartialEq, Eq, Structural)]
pub enum PageDirection {
    /// Advance to the next page, wrapping against the page count.
    Next,
    /// Step to the previous page, wrapping against the page count.
    Prev,
}

impl PageDirection {
    /// The signed step of a direction.
    pub open spec fn step(self) -> int {
        match self {
            PageDirection::Next => 1,
            PageDirection::Prev => -1,
        }
    }

    /// Returns the signed delta applied to the counter (`+1` for next, `-1`
    /// for prev).
    pub fn delta(self) -> (r: i64)
        ensures
            r == self.step(),
    {
        match self {
            PageDirection::Next => 1,
            PageDirection::Prev => -1,
        }
    }
}

/// A counter value read as a signed 64-bit integer, as the step does.
pub open spec fn as_signed(v: usize) -> int {
    (v as i64) as int
}

/// The magnitude of an integer.
pub open spec fn magnitude(v: int) -> int {
    if v < 0 {
        -v
    } else {
        v
    }
}

/// Whether a step is defined: the sum fits in 64 bits, and the remainder of
/// the smallest 64-bit value by minus one is not asked for.
pub open spec fn step_defined(page: usize, npages: usize, direction: PageDirection) -> bool {
    &&& i64::MIN <= as_signed(page) + direction.step() <= i64::MAX
    &&& !(as_signed(page) + direction.step() == i64::MIN && as_signed(npages) == -1)
}

/// The counter after one step: `page + delta`, wrapped into
/// `0..npages`; `None` (nothing to do) with at most one page.
pub open spec fn stepped(page: usize, npages: usize, direction: PageDirection) -> Option<int> {
    if npages <= 1 {
        None
    } else {
        Some((as_signed(page) + direction.step()) % magnitude(as_signed(npages)))
    }
}

/// `x` modulo `m`, the remainder taken in `0..m`.
fn euclid_mod(x: i128, m: u128) -> (r: u128)
    requires
        m > 0,
        -0x1_0000_0000_0000_0000_0000 < x < 0x1_0000_0000_0000_0000_0000,
        m < 0x1_0000_0000_0000_0000_0000,
    ensures
        r as int == (x as int) % (m as int),
        r < m,
{
    if x >= 0 {
        (x as u128) % m
    } else {
        let y: u128 = (-x) as u128;
        let k: u128 = y % m;
        proof {
            let q = (y as int) / (m as int);
            vstd::arithmetic::div_mod::lemma_fundamental_div_mod(y as int, m as int);
            if k == 0 {
                assert(x as int == (-q) * (m as int) + 0) by (nonlinear_arith)
                    requires
                        y as int == (m as int) * q + (k as int),
                        k == 0,
                        x as int == -(y as int),
                ;
                vstd::arithmetic::div_mod::lemma_fundamental_div_mod_converse(x as int, m as int, -q, 0);
            } else {
                assert(x as int == (-q - 1) * (m as int) + ((m - k) as int)) by (nonlinear_arith)
                    requires
                        y as int == (m as int) * q + (k as int),
                        x as int == -(y as int),
                        k < m,
                ;
                vstd::arithmetic::div_mod::lemma_fundamental_div_mod_converse(
                    x as int,
                    m as int,
                    -q - 1,
                    (m - k) as int,
                );
            }
        }
        if k == 0 {
            0
        } else {
            m - k
        }
    }
}

/// Whether a step is defined (see [`step_defined`]): what a caller tests
/// before [`step_target`].
pub fn step_defined_for(page: usize, npages: usize, direction: PageDirection) -> (r: bool)
    ensures
        r == step_defined(page, npages, direction),
{
    let p: i64 = page as i64;
    let n: i64 = npages as i64;
    let d: i64 = direction.delta();
    if d > 0 {
        p < i64::MAX
    } else {
        p > i64::MIN && !(p == i64::MIN + 1 && n == -1)
    }
}

/// The counter after one step in `direction` (see [`stepped`]); `None`
/// when there is at most one page and nothing is written.
pub fn step_target(page: usize, npages: usize, direction: PageDirection) -> (r: Option<usize>)
    requires
        npages > 1 ==> step_defined(page, npages, direction),
    ensures
        match stepped(page, npages, direction) {
            Some(v) => r == Some(v as usize) && 0 <= v <= usize::MAX,
            None => r is None,
        },
{
    if npages <= 1 {
        return None;
    }
    let p: i64 = page as i64;
    let x: i128 = (p as i128) + (direction.delta() as i128);
    let n: i64 = npages as i64;
    let m: u128 = if n < 0 {
        (-(n as i128)) as u128
    } else {
        n as u128
    };
    proof {
        if n == 0 {
            assert(npages as i64 == 0);
            assert(npages > 1);
            assert((npages as i64) != 0) by (bit_vector)
                requires
                    npages > 1,
                    npages <= 0xFFFF_FFFF_FFFF_FFFF,
            ;
        }
    }
    let r = euclid_mod(x, m);
    assert(r < m);
    assert(m <= npages) by (bit_vector)
        requires
            m == (if (npages as i64) < 0 {
                (-((npages as i64) as i128)) as u128
            } else {
                (npages as i64) as u128
            }),
            npages > 1,
    ;
    Some(r as usize)
}

/// Scrolling one notch forward and then one back returns to the page shown
/// before, for a counter inside the page range.
pub proof fn lemma_next_then_prev(page: usize, npages: usize)
    requires
        1 < npages <= i64::MAX,
        page < npages,
    ensures
        stepped(page, npages, PageDirection::Next) matches Some(v) && (stepped(
            v as usize,
            npages,
            PageDirection::Prev,
        ) == Some(page as int)),
{
    let n = npages as int;
    assert(as_signed(page) == page as int);
    assert(as_signed(npages) == n);
    let v = (page as int + 1) % n;
    assert(0 <= v < n);
    assert(as_signed(v as usize) == v);
    if page as int + 1 == n {
        assert(v == 0) by {
            vstd::arithmetic::div_mod::lemma_fundamental_div_mod_converse(page as int + 1, n, 1, 0);
        }
        vstd::arithmetic::div_mod::lemma_fundamental_div_mod_converse(-1, n, -1, n - 1);
    } else {
        vstd::arithmetic::div_mod::lemma_fundamental_div_mod_converse(page as int + 1, n, 0, page as int + 1);
        vstd::arithmetic::div_mod::lemma_fundamental_div_mod_converse(page as int, n, 0, page as int);
    }
}

} // verus!
