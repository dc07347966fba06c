//! Laws of the allocator over whole histories of operations.
//!
//! Each operation is abstracted as a step on the model; the exec methods'
//! contracts state that they perform exactly these steps.  The lemmas here
//! say what every reachable state satisfies: the frontier ordering, the
//! accounting identities, the monotonicity of the frontiers, and the bulk
//! reclamation of the byte region.

use vstd::prelude::*;
use vstd::arithmetic::power2::pow2;
use vstd::arithmetic::power2::lemma_pow2_pos;
use vstd::arithmetic::mul::lemma_mul_nonnegative;
use crate::early::RegionModel;
use crate::align::round_down;
use crate::align::lemma_round_up;
use crate::align::lemma_round_down_any;

verus! {

/// One allocator operation, by its inputs alone.
pub ghost enum Op {
    AllocBytes { size: int, align: int },
    DeallocBytes,
    AllocPages { num_pages: int, align_pow2: int },
    DeallocPages,
}

impl Op {
    /// The inputs the corresponding exec method admits: sizes and counts
    /// that a machine word can carry, a positive byte alignment, and room
    /// for one more live allocation.
    pub open spec fn admissible(self, m: RegionModel) -> bool {
        match self {
            Op::AllocBytes { size, align } => size >= 0 && align >= 1 && m.b_count < usize::MAX,
            Op::DeallocBytes => true,
            Op::AllocPages { num_pages, align_pow2 } => num_pages >= 0 && align_pow2 >= 0,
            Op::DeallocPages => true,
        }
    }
}

/// What one operation does to the model: exactly what the exec methods'
/// contracts state.  A request that fails, or whose inputs the method does
/// not admit, leaves the state unchanged.
pub open spec fn step(m: RegionModel, op: Op) -> RegionModel {
    match op {
        Op::AllocBytes { size, align } => if op.admissible(m) && m.byte_alloc_fits(size, align)
            && m.byte_alloc_addr(align) != 0 {
            m.byte_alloc_commit(size, align)
        } else {
            m
        },
        Op::DeallocBytes => m.byte_dealloc_step(),
        Op::AllocPages { num_pages, align_pow2 } => if op.admissible(m) && m.page_alloc_addr(
            num_pages,
            align_pow2,
        ) >= m.b_pos {
            m.page_alloc_commit(m.page_alloc_addr(num_pages, align_pow2))
        } else {
            m
        },
        Op::DeallocPages => m,
    }
}

/// The state after a whole history of operations, applied in order.
pub open spec fn run(m: RegionModel, ops: Seq<Op>) -> RegionModel
    decreases ops.len(),
{
    if ops.len() == 0 {
        m
    } else {
        step(run(m, ops.drop_last()), ops.last())
    }
}

/// One step keeps the state well-formed — in particular the frontiers stay
/// in order, `start <= b_pos <= p_pos <= end` — and never touches the
/// bounds, the page granularity, or (except by one) the live count.
pub proof fn lemma_step_preserves_wf(m: RegionModel, op: Op)
    requires
        m.wf(),
    ensures
        step(m, op).wf(),
        step(m, op).start == m.start,
        step(m, op).end == m.end,
        step(m, op).page_size == m.page_size,
        step(m, op).b_count <= m.b_count + 1,
{
    match op {
        Op::AllocBytes { size, align } => {
            if op.admissible(m) {
                lemma_round_up(m.b_pos, align);
            }
        },
        Op::DeallocBytes => {},
        Op::AllocPages { num_pages, align_pow2 } => {
            if op.admissible(m) {
                lemma_pow2_pos(align_pow2 as nat);
                lemma_mul_nonnegative(num_pages, m.page_size);
                let a = m.page_align(align_pow2);
                assert(a >= 1) by (nonlinear_arith)
                    requires
                        a == m.page_size * pow2(align_pow2 as nat),
                        m.page_size >= 1,
                        pow2(align_pow2 as nat) >= 1,
                ;
                lemma_round_down_any(m.p_pos - num_pages * m.page_size, a);
            }
        },
        Op::DeallocPages => {},
    }
}

/// Every state reached from a well-formed state by any history of
/// operations is well-formed: `start <= b_pos <= p_pos <= end` holds after
/// each call, and the bounds and page granularity never change.
pub proof fn lemma_run_preserves_wf(m: RegionModel, ops: Seq<Op>)
    requires
        m.wf(),
    ensures
        run(m, ops).wf(),
        run(m, ops).start == m.start,
        run(m, ops).end == m.end,
        run(m, ops).page_size == m.page_size,
    decreases ops.len(),
{
    if ops.len() > 0 {
        lemma_run_preserves_wf(m, ops.drop_last());
        lemma_step_preserves_wf(run(m, ops.drop_last()), ops.last());
    }
}

/// Byte accounting: the used and the available bytes always sum to the
/// whole region, exactly as the three byte queries return them.
pub proof fn lemma_byte_accounting(m: RegionModel)
    requires
        m.wf(),
    ensures
        (m.b_pos - m.start) + (m.end - m.b_pos) == m.end - m.start,
{
}

/// The page frontier sits on a page boundary, or still at `end` where no
/// page was ever allocated.  Together with a page-aligned `start` this is
/// what makes the whole-page accounting exact.
pub open spec fn page_aligned(m: RegionModel) -> bool {
    &&& m.start % m.page_size == 0
    &&& m.p_pos == m.end || m.p_pos % m.page_size == 0
}

/// Page accounting: the used and the available whole pages sum to the
/// total, provided `start` is page-aligned and the page frontier sits on a
/// page boundary (or still at `end`).  Without that proviso the three
/// divisions may each round down and the sum fall short.
pub proof fn lemma_page_accounting(m: RegionModel)
    requires
        m.wf(),
        page_aligned(m),
    ensures
        (m.end - m.p_pos) / m.page_size + (m.p_pos - m.start) / m.page_size == (m.end - m.start)
            / m.page_size,
{
    let s = m.page_size;
    if m.p_pos == m.end {
        assert((m.end - m.p_pos) / s == 0) by {
            vstd::arithmetic::div_mod::lemma_div_of0(s);
        }
    } else {
        let a = m.end - m.p_pos;
        let b = m.p_pos - m.start;
        assert(b % s == 0) by {
            vstd::arithmetic::div_mod::lemma_sub_mod_noop(m.p_pos, m.start, s);
            vstd::arithmetic::div_mod::lemma_small_mod(0nat, s as nat);
        }
        let k = b / s;
        assert(b == k * s) by {
            vstd::arithmetic::div_mod::lemma_fundamental_div_mod(b, s);
            vstd::arithmetic::mul::lemma_mul_is_commutative(s, k);
        }
        assert(a / s + k == (a + k * s) / s) by {
            vstd::arithmetic::div_mod::lemma_hoist_over_denominator(a, k, s as nat);
        }
    }
}

/// Each step keeps `page_aligned`: the only operation that moves the page
/// frontier lands it on a multiple of the page size.
pub proof fn lemma_step_preserves_page_aligned(m: RegionModel, op: Op)
    requires
        m.wf(),
        page_aligned(m),
    ensures
        page_aligned(step(m, op)),
{
    match op {
        Op::AllocPages { num_pages, align_pow2 } => {
            if op.admissible(m) {
                lemma_pow2_pos(align_pow2 as nat);
                let p = pow2(align_pow2 as nat) as int;
                let a = m.page_align(align_pow2);
                assert(a >= 1) by (nonlinear_arith)
                    requires
                        a == m.page_size * p,
                        m.page_size >= 1,
                        p >= 1,
                ;
                let x = m.p_pos - num_pages * m.page_size;
                let addr = round_down(x, a);
                vstd::arithmetic::div_mod::lemma_mod_bound(x, a);
                assert(addr % a == 0) by {
                    vstd::arithmetic::div_mod::lemma_sub_mod_noop(x, x % a, a);
                    vstd::arithmetic::div_mod::lemma_mod_twice(x, a);
                    vstd::arithmetic::div_mod::lemma_small_mod(0nat, a as nat);
                }
                assert(addr % m.page_size == 0) by {
                    let q = addr / a;
                    vstd::arithmetic::div_mod::lemma_fundamental_div_mod(addr, a);
                    vstd::arithmetic::mul::lemma_mul_is_associative(m.page_size, p, q);
                    vstd::arithmetic::mul::lemma_mul_is_commutative(m.page_size, p * q);
                    vstd::arithmetic::div_mod::lemma_mod_multiples_basic(p * q, m.page_size);
                }
            }
        },
        _ => {},
    }
}

/// The page frontier never rises: one step.
pub proof fn lemma_step_p_pos_monotonic(m: RegionModel, op: Op)
    requires
        m.wf(),
    ensures
        step(m, op).p_pos <= m.p_pos,
{
    lemma_step_preserves_wf(m, op);
    match op {
        Op::AllocPages { num_pages, align_pow2 } => {
            if op.admissible(m) {
                lemma_pow2_pos(align_pow2 as nat);
                lemma_mul_nonnegative(num_pages, m.page_size);
                let a = m.page_align(align_pow2);
                assert(a >= 1) by (nonlinear_arith)
                    requires
                        a == m.page_size * pow2(align_pow2 as nat),
                        m.page_size >= 1,
                        pow2(align_pow2 as nat) >= 1,
                ;
                lemma_round_down_any(m.p_pos - num_pages * m.page_size, a);
            }
        },
        _ => {},
    }
}

/// The page frontier never rises across any history of operations.
pub proof fn lemma_run_p_pos_monotonic(m: RegionModel, ops: Seq<Op>)
    requires
        m.wf(),
    ensures
        run(m, ops).p_pos <= m.p_pos,
    decreases ops.len(),
{
    if ops.len() > 0 {
        lemma_run_preserves_wf(m, ops.drop_last());
        lemma_run_p_pos_monotonic(m, ops.drop_last());
        lemma_step_p_pos_monotonic(run(m, ops.drop_last()), ops.last());
    }
}

/// The byte frontier never falls, except by the one bulk reset to `start`
/// that happens exactly when a release takes the live count from one to
/// zero.
pub proof fn lemma_step_b_pos_monotonic(m: RegionModel, op: Op)
    requires
        m.wf(),
    ensures
        step(m, op).b_pos >= m.b_pos || (op is DeallocBytes && m.b_count == 1 && step(m, op).b_pos
            == m.start && step(m, op).b_count == 0),
{
    match op {
        Op::AllocBytes { size, align } => {
            if op.admissible(m) {
                lemma_round_up(m.b_pos, align);
            }
        },
        _ => {},
    }
}

/// Appending histories runs them one after the other.
proof fn lemma_run_app(m: RegionModel, ops1: Seq<Op>, ops2: Seq<Op>)
    ensures
        run(m, ops1 + ops2) == run(run(m, ops1), ops2),
    decreases ops2.len(),
{
    if ops2.len() == 0 {
        assert(ops1 + ops2 =~= ops1);
    } else {
        lemma_run_app(m, ops1, ops2.drop_last());
        assert((ops1 + ops2).drop_last() =~= ops1 + ops2.drop_last());
        assert((ops1 + ops2).last() == ops2.last());
    }
}

/// One step raises the live count by at most one.
proof fn lemma_step_count_gain(m: RegionModel, op: Op)
    ensures
        step(m, op).b_count <= m.b_count + 1,
{
}

/// A history of `n` operations raises the live count by at most `n`.
proof fn lemma_run_count_gain(m: RegionModel, ops: Seq<Op>)
    ensures
        run(m, ops).b_count <= m.b_count + ops.len(),
    decreases ops.len(),
{
    if ops.len() > 0 {
        lemma_run_count_gain(m, ops.drop_last());
        lemma_step_count_gain(run(m, ops.drop_last()), ops.last());
    }
}

/// `n` byte releases in a row.
pub open spec fn deallocs(n: nat) -> Seq<Op> {
    Seq::new(n, |i: int| Op::DeallocBytes)
}

/// After at least as many byte releases as there are live allocations, the
/// count is zero and the byte frontier is back at `start`.
proof fn lemma_deallocs_drain(m: RegionModel, n: nat)
    requires
        m.wf(),
        m.b_count <= n,
    ensures
        run(m, deallocs(n)).wf(),
        run(m, deallocs(n)).b_count == 0,
        run(m, deallocs(n)).b_pos == run(m, deallocs(n)).start,
        run(m, deallocs(n)).start == m.start,
    decreases n,
{
    if n == 0 {
    } else {
        assert(deallocs(n).drop_last() =~= deallocs((n - 1) as nat));
        if m.b_count <= n - 1 {
            lemma_deallocs_drain(m, (n - 1) as nat);
        } else {
            // the count is exactly n; it falls by one at every release
            lemma_count_falls(m, (n - 1) as nat);
        }
        lemma_step_preserves_wf(run(m, deallocs((n - 1) as nat)), Op::DeallocBytes);
    }
}

/// While releases remain fewer than the live count, each one lowers the
/// count by exactly one.
proof fn lemma_count_falls(m: RegionModel, j: nat)
    requires
        m.wf(),
        j <= m.b_count,
    ensures
        run(m, deallocs(j)).wf(),
        run(m, deallocs(j)).b_count == m.b_count - j,
        run(m, deallocs(j)).start == m.start,
    decreases j,
{
    if j > 0 {
        assert(deallocs(j).drop_last() =~= deallocs((j - 1) as nat));
        lemma_count_falls(m, (j - 1) as nat);
        lemma_step_preserves_wf(run(m, deallocs((j - 1) as nat)), Op::DeallocBytes);
    }
}

/// Bulk reclamation: starting with no live byte allocation, any `n` byte
/// allocations followed by `n` byte releases leave the live count at zero
/// and the byte frontier back at `start` — whether or not each allocation
/// succeeded.
pub proof fn lemma_bulk_free(m: RegionModel, allocs: Seq<Op>)
    requires
        m.wf(),
        m.b_count == 0,
        forall|i: int| 0 <= i < allocs.len() ==> allocs[i] is AllocBytes,
    ensures
        run(m, allocs + deallocs(allocs.len())).b_count == 0,
        run(m, allocs + deallocs(allocs.len())).b_pos == m.start,
{
    let mid = run(m, allocs);
    lemma_run_app(m, allocs, deallocs(allocs.len()));
    lemma_run_preserves_wf(m, allocs);
    lemma_run_count_gain(m, allocs);
    lemma_deallocs_drain(mid, allocs.len());
}

} // verus!
