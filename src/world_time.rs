use vstd::prelude::*;

verus! {

/// The offset of the local clock from network time, in microseconds.
#[derive(Clone, Copy, Debug, PartialEq, Eq, Structural)]
pub struct WorldTimer {
    /// Microseconds to add to the local clock.
    pub offset: i64,
}

/// Holds the offset in effect.
#[derive(Clone, Copy, Debug, PartialEq, Eq, Structural)]
pub struct WorldTimerWrapper {
    /// The offset in effect.
    pub world_timer: WorldTimer,
}

/// The sum of `s`.
pub open spec fn offsets_sum(s: Seq<i64>) -> int
    decreases s.len(),
{
    if s.len() == 0 {
        0
    } else {
        offsets_sum(s.drop_last()) + s.last()
    }
}

/// `a / b` rounded toward zero, as integer division does.
pub open spec fn div_toward_zero(a: int, b: int) -> int {
    if a >= 0 {
        a / b
    } else {
        -((-a) / b)
    }
}

/// The mean of the measured offsets, rounded toward zero; 0 without any.
pub open spec fn mean_offset(s: Seq<i64>) -> int {
    if s.len() == 0 {
        0
    } else {
        div_toward_zero(offsets_sum(s), s.len() as int)
    }
}

/// The offset in effect.
pub fn world_time(wrapper: &WorldTimerWrapper) -> (r: WorldTimer)
    ensures
        r == wrapper.world_timer,
{
    wrapper.world_timer
}

/// Puts into effect the mean of the offsets measured against time servers;
/// with no measurement the offset is 0.
pub fn init_world_time(wrapper: &mut WorldTimerWrapper, offsets: &Vec<i64>)
    ensures
        final(wrapper).world_timer.offset == mean_offset(offsets@),
{
    let n = offsets.len();
    let mut sum: i128 = 0;
    let mut i: usize = 0;
    while i < n
        invariant
            n == offsets@.len(),
            i <= n,
            sum == offsets_sum(offsets@.subrange(0, i as int)),
            -0x8000_0000_0000_0000 * i <= sum <= 0x7fff_ffff_ffff_ffff * i,
        decreases n - i,
    {
        proof {
            assert(offsets@.subrange(0, i + 1).drop_last() =~= offsets@.subrange(0, i as int));
        }
        sum = sum + offsets[i] as i128;
        i = i + 1;
    }
    assert(offsets@.subrange(0, n as int) =~= offsets@);
    if n == 0 {
        wrapper.world_timer = WorldTimer { offset: 0 };
        return;
    }
    let len = n as u128;
    let avg: i64 = if sum >= 0 {
        let q = (sum as u128) / len;
        proof {
            assert(q * len <= sum as u128) by (nonlinear_arith)
                requires
                    q == (sum as u128) / len,
                    len > 0,
            ;
            assert(q <= 0x7fff_ffff_ffff_ffff) by (nonlinear_arith)
                requires
                    q * len <= sum,
                    sum <= 0x7fff_ffff_ffff_ffff * len,
                    len > 0,
            ;
        }
        q as i64
    } else {
        let q = ((-sum) as u128) / len;
        proof {
            assert(q * len <= (-sum) as u128) by (nonlinear_arith)
                requires
                    q == ((-sum) as u128) / len,
                    len > 0,
            ;
            assert(q <= 0x8000_0000_0000_0000) by (nonlinear_arith)
                requires
                    q * len <= -sum,
                    -sum <= 0x8000_0000_0000_0000 * len,
                    len > 0,
            ;
        }
        (-(q as i128)) as i64
    };
    wrapper.world_timer = WorldTimer { offset: avg };
}

} // verus!
