//! The per-tick liquidity and fee-growth ledger.
//!
//! The table maps tick indexes to per-tick records; here it is a vector of
//! entries sorted strictly by tick, which satisfies the same contract as the
//! canonical bitmap-accelerated search. `update` applies a signed liquidity
//! delta and reports initialization flips; `cross` performs the telescoping
//! flip of the outside accumulators when the price crosses the tick.

use crate::error::Error;
use crate::fee::{wsub, Fee};
use crate::liq_math::addDelta;
use vstd::prelude::*;

verus! {

/// A tick index: price = 1.0001^tick.
pub type Tick = i32;

/// The lowest valid tick index.
pub const MIN_TICK: i32 = -887272;

/// The highest valid tick index.
pub const MAX_TICK: i32 = -MIN_TICK;

/// One tick's record in the tick table.
#[derive(Clone, Copy, Debug, PartialEq, Eq, Structural)]
pub struct TickInfo {
    /// the total position liquidity that references this tick
    pub liquidity_gross: u128,
    /// net liquidity added when the tick is crossed left to right
    pub liquidity_net: i128,
    /// fee growth per unit of liquidity on the other side of this tick;
    /// relative to the tick's initialization time, not absolute
    pub fee_growth_outside: Fee,
    /// the cumulative tick value on the other side of this tick
    pub tick_cumulative_outside: i64,
    /// seconds per unit of liquidity on the other side of this tick
    pub seconds_per_liquidity_outside: u128,
    /// seconds spent on the other side of this tick
    pub seconds_outside: u32,
    /// whether the tick has been initialized; equivalent to
    /// liquidity_gross != 0 up to external clearing
    pub initialized: bool,
}

impl TickInfo {
    /// A record with every field zero.
    pub fn empty() -> (r: TickInfo)
        ensures
            r == (TickInfo {
                liquidity_gross: 0,
                liquidity_net: 0,
                fee_growth_outside: Fee { token_0: crate::u256::U256 { w0: 0, w1: 0, w2: 0, w3: 0 }, token_1: crate::u256::U256 { w0: 0, w1: 0, w2: 0, w3: 0 } },
                tick_cumulative_outside: 0,
                seconds_per_liquidity_outside: 0,
                seconds_outside: 0,
                initialized: false,
            }),
    {
        TickInfo {
            liquidity_gross: 0,
            liquidity_net: 0,
            fee_growth_outside: Fee::zero(),
            tick_cumulative_outside: 0,
            seconds_per_liquidity_outside: 0,
            seconds_outside: 0,
            initialized: false,
        }
    }
}

/// Subtraction modulo 2^128.
pub open spec fn wsub128(a: nat, b: nat) -> nat {
    if a >= b {
        (a - b) as nat
    } else {
        (a + 0x1_0000_0000_0000_0000_0000_0000_0000_0000nat - b) as nat
    }
}

/// Subtraction modulo 2^32.
pub open spec fn wsub32(a: nat, b: nat) -> nat {
    if a >= b {
        (a - b) as nat
    } else {
        (a + 0x1_0000_0000nat - b) as nat
    }
}

/// Two's-complement 64-bit wrapping difference.
pub open spec fn wsub64i(a: int, b: int) -> int {
    let d = a - b;
    if d > 0x7fff_ffff_ffff_ffff {
        d - 0x1_0000_0000_0000_0000
    } else if d < -0x8000_0000_0000_0000 {
        d + 0x1_0000_0000_0000_0000
    } else {
        d
    }
}

/// Wrapping difference of two u128 accumulators.
fn wrapping_sub_u128(a: u128, b: u128) -> (r: u128)
    ensures
        r == wsub128(a as nat, b as nat),
{
    if a >= b {
        a - b
    } else {
        (u128::MAX - b) + a + 1
    }
}

/// Wrapping difference of two u32 accumulators.
fn wrapping_sub_u32(a: u32, b: u32) -> (r: u32)
    ensures
        r == wsub32(a as nat, b as nat),
{
    if a >= b {
        a - b
    } else {
        (u32::MAX - b) + a + 1
    }
}

/// Wrapping difference of two i64 accumulators.
fn wrapping_sub_i64(a: i64, b: i64) -> (r: i64)
    ensures
        r == wsub64i(a as int, b as int),
{
    let d: i128 = a as i128 - b as i128;
    if d > i64::MAX as i128 {
        (d - 0x1_0000_0000_0000_0000i128) as i64
    } else if d < i64::MIN as i128 {
        (d + 0x1_0000_0000_0000_0000i128) as i64
    } else {
        d as i64
    }
}

/// How `update` rewrites one tick's record: the gross liquidity takes the
/// delta; the net takes it positively on a lower bound and negatively on an
/// upper bound; on first initialization the outside accumulators snapshot the
/// globals under the convention that all prior growth happened below the tick.
pub open spec fn update_rel(
    before: TickInfo,
    after: TickInfo,
    tick: int,
    tick_current: int,
    liquidity_delta: int,
    fee_growth_global: Fee,
    seconds_per_liquidity_cumulative: nat,
    tick_cumulative: int,
    time: nat,
    is_upper: bool,
) -> bool {
    let fresh = before.liquidity_gross == 0;
    let snap = fresh && tick <= tick_current;
    &&& after.liquidity_gross == before.liquidity_gross + liquidity_delta
    &&& after.liquidity_net == if is_upper {
        before.liquidity_net - liquidity_delta
    } else {
        before.liquidity_net + liquidity_delta
    }
    &&& after.fee_growth_outside == if snap {
        fee_growth_global
    } else {
        before.fee_growth_outside
    }
    &&& after.seconds_per_liquidity_outside == if snap {
        seconds_per_liquidity_cumulative
    } else {
        before.seconds_per_liquidity_outside as nat
    }
    &&& after.tick_cumulative_outside == if snap {
        tick_cumulative
    } else {
        before.tick_cumulative_outside as int
    }
    &&& after.seconds_outside == if snap {
        time
    } else {
        before.seconds_outside as nat
    }
    &&& after.initialized == (fresh || before.initialized)
}

/// How `cross` rewrites one tick's record: each outside accumulator flips to
/// `global - outside`, everything else is untouched.
pub open spec fn cross_rel(
    before: TickInfo,
    after: TickInfo,
    fee_growth_global: Fee,
    seconds_per_liquidity_cumulative: nat,
    tick_cumulative: int,
    time: nat,
) -> bool {
    &&& after.liquidity_gross == before.liquidity_gross
    &&& after.liquidity_net == before.liquidity_net
    &&& after.fee_growth_outside.token_0@ == wsub(
        fee_growth_global.token_0@,
        before.fee_growth_outside.token_0@,
    )
    &&& after.fee_growth_outside.token_1@ == wsub(
        fee_growth_global.token_1@,
        before.fee_growth_outside.token_1@,
    )
    &&& after.seconds_per_liquidity_outside == wsub128(
        seconds_per_liquidity_cumulative,
        before.seconds_per_liquidity_outside as nat,
    )
    &&& after.tick_cumulative_outside == wsub64i(
        tick_cumulative,
        before.tick_cumulative_outside as int,
    )
    &&& after.seconds_outside == wsub32(time, before.seconds_outside as nat)
    &&& after.initialized == before.initialized
}

/// A tick record with every field zero, the state of a never-touched tick.
pub open spec fn spec_empty_info() -> TickInfo {
    TickInfo {
        liquidity_gross: 0,
        liquidity_net: 0,
        fee_growth_outside: Fee {
            token_0: crate::u256::U256 { w0: 0, w1: 0, w2: 0, w3: 0 },
            token_1: crate::u256::U256 { w0: 0, w1: 0, w2: 0, w3: 0 },
        },
        tick_cumulative_outside: 0,
        seconds_per_liquidity_outside: 0,
        seconds_outside: 0,
        initialized: false,
    }
}

/// One token's all-time fee growth inside two tick bounds: the global growth
/// less the growth below the lower bound and above the upper bound, each
/// telescoped from the stored outside value relative to the current tick.
pub open spec fn fee_growth_inside_spec(
    lower_out: nat,
    upper_out: nat,
    lower: int,
    upper: int,
    current: int,
    global: nat,
) -> nat {
    let below = if current >= lower {
        lower_out
    } else {
        wsub(global, lower_out)
    };
    let above = if current < upper {
        upper_out
    } else {
        wsub(global, upper_out)
    };
    wsub(wsub(global, below), above)
}

/// The largest liquidity one tick may carry for a given tick spacing: the
/// 128-bit maximum divided by the number of spacing-aligned ticks in range.
pub open spec fn max_liquidity_per_tick_spec(tick_spacing: int) -> nat
    recommends
        tick_spacing > 0,
{
    let aligned_max = (MAX_TICK as int / tick_spacing) * tick_spacing;
    let aligned_min = -aligned_max;
    let num_ticks = (aligned_max - aligned_min) / tick_spacing + 1;
    (0xffff_ffff_ffff_ffff_ffff_ffff_ffff_ffffnat as int / num_ticks) as nat
}

/// Derives the maximum liquidity per tick from the tick spacing; run by the
/// pool constructor.
pub fn max_liquidity_per_tick(tick_spacing: i32) -> (r: u128)
    requires
        tick_spacing > 0,
    ensures
        r == max_liquidity_per_tick_spec(tick_spacing as int),
{
    let s: u32 = tick_spacing as u32;
    let q: u32 = 887272u32 / s;
    let num: u128 = 2 * (q as u128) + 1;
    let r = u128::MAX / num;
    proof {
        let ts = tick_spacing as int;
        let aligned = (MAX_TICK as int / ts) * ts;
        assert(MAX_TICK as int / ts == q as int);
        vstd::arithmetic::div_mod::lemma_div_multiples_vanish(q as int, ts);
        assert(aligned / ts == q as int);
        assert((aligned - (-aligned)) / ts == (2 * q) as int) by {
            vstd::arithmetic::div_mod::lemma_div_multiples_vanish(2 * (q as int), ts);
            assert(aligned - (-aligned) == (2 * (q as int)) * ts) by (nonlinear_arith)
                requires
                    aligned == (q as int) * ts,
            ;
        }
    }
    r
}

/// Law: an update followed immediately by a cross of the same tick, with
/// matching global accumulators, leaves the tick's net liquidity exactly as
/// the update wrote it: crossing flips only the outside accumulators and
/// never changes a liquidity amount.
pub proof fn lemma_update_cross_preserves_net(
    before: TickInfo,
    updated: TickInfo,
    crossed: TickInfo,
    tick: int,
    tick_current: int,
    liquidity_delta: int,
    fee_growth_global: Fee,
    seconds_per_liquidity_cumulative: nat,
    tick_cumulative: int,
    time: nat,
    is_upper: bool,
)
    requires
        update_rel(
            before,
            updated,
            tick,
            tick_current,
            liquidity_delta,
            fee_growth_global,
            seconds_per_liquidity_cumulative,
            tick_cumulative,
            time,
            is_upper,
        ),
        cross_rel(
            updated,
            crossed,
            fee_growth_global,
            seconds_per_liquidity_cumulative,
            tick_cumulative,
            time,
        ),
    ensures
        crossed.liquidity_net == updated.liquidity_net,
        is_upper ==> crossed.liquidity_net == before.liquidity_net - liquidity_delta,
        !is_upper ==> crossed.liquidity_net == before.liquidity_net + liquidity_delta,
        crossed.liquidity_gross == before.liquidity_gross + liquidity_delta,
{
}

/// The tick table: entries sorted strictly by tick index.
pub struct TickTable {
    pub entries: Vec<(i32, TickInfo)>,
}

impl TickTable {
    /// The entries are sorted strictly by tick, so each tick appears once.
    pub open spec fn wf(&self) -> bool {
        forall|i: int, j: int|
            0 <= i < j < self.entries@.len() ==> (#[trigger] self.entries@[i]).0 < (
            #[trigger] self.entries@[j]).0
    }

    /// Whether the table holds a record for the tick.
    pub open spec fn spec_has(&self, t: int) -> bool {
        exists|i: int|
            0 <= i < self.entries@.len() && (#[trigger] self.entries@[i]).0 == t
    }

    /// The record at the tick, where one exists.
    pub open spec fn spec_at(&self, t: int) -> TickInfo {
        self.entries@[choose|i: int|
            0 <= i < self.entries@.len() && (#[trigger] self.entries@[i]).0 == t].1
    }

    /// Whether the tick is initialized for traversal purposes: present with
    /// nonzero gross liquidity.
    pub open spec fn spec_initialized(&self, t: int) -> bool {
        self.spec_has(t) && self.spec_at(t).liquidity_gross != 0
    }

    /// A sorted table cannot hold a tick twice.
    proof fn lemma_index_unique(&self, i: int, j: int)
        requires
            self.wf(),
            0 <= i < self.entries@.len(),
            0 <= j < self.entries@.len(),
            self.entries@[i].0 == self.entries@[j].0,
        ensures
            i == j,
    {
    }

    /// An entry's record is the record that the view reports for its tick.
    proof fn lemma_at_index(&self, i: int)
        requires
            self.wf(),
            0 <= i < self.entries@.len(),
        ensures
            self.spec_has(self.entries@[i].0 as int),
            self.spec_at(self.entries@[i].0 as int) == self.entries@[i].1,
    {
        let t = self.entries@[i].0 as int;
        assert(self.spec_has(t));
        let c = choose|k: int|
            0 <= k < self.entries@.len() && (#[trigger] self.entries@[k]).0 == t;
        self.lemma_index_unique(c, i);
    }

    /// An empty table.
    pub fn new() -> (r: TickTable)
        ensures
            r.wf(),
            forall|t: int| !r.spec_has(t),
            r.entries@.len() == 0,
    {
        TickTable { entries: Vec::new() }
    }

    /// The index of the tick's entry, by linear scan.
    fn find(&self, tick: i32) -> (r: Option<usize>)
        requires
            self.wf(),
        ensures
            match r {
                Some(i) => i < self.entries@.len() && self.entries@[i as int].0 == tick
                    && self.spec_has(tick as int) && self.entries@[i as int].1 == self.spec_at(
                    tick as int,
                ),
                None => !self.spec_has(tick as int),
            },
{
        let n = self.entries.len();
        let mut i: usize = 0;
        while i < n
            invariant
                self.wf(),
                n == self.entries@.len(),
                i <= n,
                forall|j: int| 0 <= j < i ==> (#[trigger] self.entries@[j]).0 != tick,
            decreases n - i,
        {
            if self.entries[i].0 == tick {
                proof {
                    self.lemma_at_index(i as int);
                }
                return Some(i);
            }
            i = i + 1;
        }
        None
    }

    /// An independent copy of the table, entry for entry.
    pub fn duplicate(&self) -> (r: TickTable)
        ensures
            r.entries@ == self.entries@,
    {
        let n = self.entries.len();
        let mut out: Vec<(i32, TickInfo)> = Vec::new();
        let mut i: usize = 0;
        while i < n
            invariant
                n == self.entries@.len(),
                i <= n,
                out@ == self.entries@.subrange(0, i as int),
            decreases n - i,
        {
            out.push(self.entries[i]);
            proof {
                assert(out@ == self.entries@.subrange(0, i + 1 as int));
            }
            i = i + 1;
        }
        proof {
            assert(self.entries@.subrange(0, n as int) == self.entries@);
        }
        TickTable { entries: out }
    }

    /// A point lookup.
    pub fn get(&self, tick: i32) -> (r: Option<TickInfo>)
        requires
            self.wf(),
        ensures
            match r {
                Some(info) => self.spec_has(tick as int) && info == self.spec_at(tick as int),
                None => !self.spec_has(tick as int),
            },
    {
        match self.find(tick) {
            Some(i) => Some(self.entries[i].1),
            None => None,
        }
    }

    /// Inserts or replaces the tick's record, keeping the entries sorted.
    fn set(&mut self, tick: i32, info: TickInfo)
        requires
            old(self).wf(),
        ensures
            final(self).wf(),
            final(self).spec_has(tick as int),
            final(self).spec_at(tick as int) == info,
            forall|t: int|
                t != tick ==> #[trigger] final(self).spec_has(t) == old(self).spec_has(t),
            forall|t: int|
                t != tick && old(self).spec_has(t) ==> #[trigger] final(self).spec_at(t) == old(
                    self,
                ).spec_at(t),
    {
        let ghost old_view = self.entries@;
        let n = self.entries.len();
        let mut i: usize = 0;
        while i < n && self.entries[i].0 < tick
            invariant
                self.wf(),
                self.entries@ == old_view,
                n == self.entries@.len(),
                i <= n,
                forall|j: int| 0 <= j < i ==> (#[trigger] self.entries@[j]).0 < tick,
            decreases n - i,
        {
            i = i + 1;
        }
        let found = i < n && self.entries[i].0 == tick;
        proof {
            if i < n && !found {
                assert(old_view[i as int].0 > tick);
            }
        }
        if found {
            self.entries.remove(i);
        }
        self.entries.insert(i, (tick, info));
        proof {
            let new_view = self.entries@;
            if found {
                assert(new_view =~= old_view.update(i as int, (tick, info)));
            } else {
                assert(new_view == old_view.insert(i as int, (tick, info)));
            }
            assert forall|a: int, b: int|
                0 <= a < b < new_view.len() implies (#[trigger] new_view[a]).0 < (
            #[trigger] new_view[b]).0 by {
                if found {
                    assert(a != i ==> new_view[a] == old_view[a]);
                    assert(b != i ==> new_view[b] == old_view[b]);
                    assert(old_view[i as int].0 == tick);
                } else {
                    if a < i {
                        assert(new_view[a] == old_view[a]);
                        assert(old_view[a].0 < tick);
                    }
                    if b > i {
                        assert(new_view[b] == old_view[b - 1]);
                        assert(b - 1 >= i);
                        if b - 1 == i {
                            assert(old_view[b - 1].0 > tick);
                        } else {
                            assert(old_view[i as int].0 < old_view[b - 1].0 || i == old_view.len());
                            if i < old_view.len() {
                                assert(old_view[i as int].0 > tick);
                            } else {
                                assert(false);
                            }
                        }
                    }
                    if a > i {
                        assert(new_view[a] == old_view[a - 1]);
                        assert(new_view[b] == old_view[b - 1]);
                    }
                    if a == i && b > i {
                        assert(new_view[a].0 == tick);
                    }
                    if b == i {
                        assert(a < i);
                    }
                }
            }
            assert(new_view[i as int].0 == tick);
            self.lemma_at_index(i as int);
            assert forall|t: int| t != tick implies #[trigger] self.spec_has(t) == old(
                self,
            ).spec_has(t) by {
                self.lemma_has_frame(old(self), i as int, tick, info, found, t);
            }
            assert forall|t: int|
                t != tick && old(self).spec_has(t) implies #[trigger] self.spec_at(t) == old(
                self,
            ).spec_at(t) by {
                self.lemma_at_frame(old(self), i as int, tick, info, found, t);
            }
        }
    }

    /// Presence of other ticks is unchanged by a set.
    proof fn lemma_has_frame(
        &self,
        prev: &TickTable,
        i: int,
        tick: i32,
        info: TickInfo,
        found: bool,
        t: int,
    )
        requires
            t != tick,
            0 <= i,
            found ==> i < prev.entries@.len() && prev.entries@[i].0 == tick
                && self.entries@ == prev.entries@.update(i, (tick, info)),
            !found ==> i <= prev.entries@.len() && self.entries@ == prev.entries@.insert(
                i,
                (tick, info),
            ),
        ensures
            self.spec_has(t) == prev.spec_has(t),
    {
        if found {
            if prev.spec_has(t) {
                let k = choose|k: int|
                    0 <= k < prev.entries@.len() && (#[trigger] prev.entries@[k]).0 == t;
                assert(self.entries@[k].0 == t);
            }
            if self.spec_has(t) {
                let k = choose|k: int|
                    0 <= k < self.entries@.len() && (#[trigger] self.entries@[k]).0 == t;
                assert(prev.entries@[k].0 == t);
            }
        } else {
            if prev.spec_has(t) {
                let k = choose|k: int|
                    0 <= k < prev.entries@.len() && (#[trigger] prev.entries@[k]).0 == t;
                if k < i {
                    assert(self.entries@[k].0 == t);
                } else {
                    assert(self.entries@[k + 1].0 == t);
                }
            }
            if self.spec_has(t) {
                let k = choose|k: int|
                    0 <= k < self.entries@.len() && (#[trigger] self.entries@[k]).0 == t;
                if k < i {
                    assert(prev.entries@[k].0 == t);
                } else {
                    assert(prev.entries@[k - 1].0 == t);
                }
            }
        }
    }

    /// Applies a signed liquidity delta to a tick, creating its record on
    /// first use; fails without touching the table when the gross liquidity
    /// would leave its range or exceed the per-tick maximum, or when the net
    /// adjustment would leave the signed 128-bit range. Returns whether the
    /// tick flipped between initialized and uninitialized.
    pub fn update(
        &mut self,
        tick: i32,
        tick_current: i32,
        liquidity_delta: i128,
        fee_growth_global: Fee,
        seconds_per_liquidity_cumulative: u128,
        tick_cumulative: i64,
        time: u32,
        is_upper: bool,
        max_liquidity: u128,
    ) -> (r: Result<bool, Error>)
        requires
            old(self).wf(),
        ensures
            final(self).wf(),
            ({
                let before = if old(self).spec_has(tick as int) {
                    old(self).spec_at(tick as int)
                } else {
                    spec_empty_info()
                };
                let gross_after = before.liquidity_gross + liquidity_delta;
                let net_after = if is_upper {
                    before.liquidity_net - liquidity_delta
                } else {
                    before.liquidity_net + liquidity_delta
                };
                match r {
                    Ok(flipped) => {
                        &&& 0 <= gross_after <= max_liquidity
                        &&& i128::MIN <= net_after <= i128::MAX
                        &&& final(self).spec_has(tick as int)
                        &&& update_rel(
                            before,
                            final(self).spec_at(tick as int),
                            tick as int,
                            tick_current as int,
                            liquidity_delta as int,
                            fee_growth_global,
                            seconds_per_liquidity_cumulative as nat,
                            tick_cumulative as int,
                            time as nat,
                            is_upper,
                        )
                        &&& flipped == ((gross_after == 0) != (before.liquidity_gross == 0))
                        &&& forall|t: int|
                            t != tick ==> #[trigger] final(self).spec_has(t) == old(
                                self,
                            ).spec_has(t)
                        &&& forall|t: int|
                            t != tick && old(self).spec_has(t)
                                ==> #[trigger] final(self).spec_at(t) == old(self).spec_at(t)
                    },
                    Err(e) => {
                        &&& *final(self) == *old(self)
                        &&& (gross_after < 0 && e == Error::LiquiditySubUnderflow) || (
                        liquidity_delta >= 0 && gross_after > u128::MAX && e
                            == Error::LiquidityAddOverflow) || (0 <= gross_after <= u128::MAX
                            && gross_after > max_liquidity && e
                            == Error::LiquidityGrossOverflow) || (0 <= gross_after
                            <= max_liquidity && !(i128::MIN <= net_after <= i128::MAX) && e
                            == Error::Overflow)
                    },
                }
            }),
    {
        let before = match self.get(tick) {
            Some(info) => info,
            None => TickInfo::empty(),
        };
        let liquidity_gross_before = before.liquidity_gross;
        let liquidity_gross_after = match addDelta(liquidity_gross_before, liquidity_delta) {
            Ok(v) => v,
            Err(e) => {
                return Err(e);
            },
        };
        if liquidity_gross_after > max_liquidity {
            return Err(Error::LiquidityGrossOverflow);
        }
        let flipped = (liquidity_gross_after == 0) != (liquidity_gross_before == 0);
        let net_after = if is_upper {
            match before.liquidity_net.checked_sub(liquidity_delta) {
                Some(v) => v,
                None => {
                    return Err(Error::Overflow);
                },
            }
        } else {
            match before.liquidity_net.checked_add(liquidity_delta) {
                Some(v) => v,
                None => {
                    return Err(Error::Overflow);
                },
            }
        };
        let mut new_info = before;
        if liquidity_gross_before == 0 {
            // by convention, all growth before initialization happened below
            // the tick
            if tick <= tick_current {
                new_info.fee_growth_outside = fee_growth_global;
                new_info.seconds_per_liquidity_outside = seconds_per_liquidity_cumulative;
                new_info.tick_cumulative_outside = tick_cumulative;
                new_info.seconds_outside = time;
            }
            new_info.initialized = true;
        }
        new_info.liquidity_gross = liquidity_gross_after;
        new_info.liquidity_net = net_after;
        self.set(tick, new_info);
        Ok(flipped)
    }

    /// Transitions the tick as the price crosses it: each outside accumulator
    /// flips to `global - outside`; returns the net liquidity to apply, which
    /// the caller negates when traversing toward lower prices.
    pub fn cross(
        &mut self,
        tick: i32,
        fee_growth_global: Fee,
        seconds_per_liquidity_cumulative: u128,
        tick_cumulative: i64,
        time: u32,
    ) -> (r: Result<i128, Error>)
        requires
            old(self).wf(),
        ensures
            final(self).wf(),
            match r {
                Ok(net) => old(self).spec_has(tick as int) && {
                    let before = old(self).spec_at(tick as int);
                    &&& net == before.liquidity_net
                    &&& final(self).spec_has(tick as int)
                    &&& cross_rel(
                        before,
                        final(self).spec_at(tick as int),
                        fee_growth_global,
                        seconds_per_liquidity_cumulative as nat,
                        tick_cumulative as int,
                        time as nat,
                    )
                    &&& forall|t: int|
                        t != tick ==> #[trigger] final(self).spec_has(t) == old(
                            self,
                        ).spec_has(t)
                    &&& forall|t: int|
                        t != tick && old(self).spec_has(t)
                            ==> #[trigger] final(self).spec_at(t) == old(self).spec_at(t)
                },
                Err(e) => !old(self).spec_has(tick as int) && e == Error::TickNotFound && *final(self) == *old(self),
            },
    {
        let info = match self.get(tick) {
            Some(info) => info,
            None => {
                return Err(Error::TickNotFound);
            },
        };
        let new_info = TickInfo {
            fee_growth_outside: fee_growth_global.wrapping_sub(&info.fee_growth_outside),
            seconds_per_liquidity_outside: wrapping_sub_u128(
                seconds_per_liquidity_cumulative,
                info.seconds_per_liquidity_outside,
            ),
            tick_cumulative_outside: wrapping_sub_i64(
                tick_cumulative,
                info.tick_cumulative_outside,
            ),
            seconds_outside: wrapping_sub_u32(time, info.seconds_outside),
            ..info
        };
        self.set(tick, new_info);
        Ok(info.liquidity_net)
    }

    /// The all-time fee growth per unit of liquidity inside two tick bounds:
    /// the global growth less the growth below the lower tick and above the
    /// upper tick, each telescoped from the stored outside values.
    pub fn get_fee_growth_inside(
        &self,
        tick_lower: i32,
        tick_upper: i32,
        tick_current: i32,
        fee_growth_global: Fee,
    ) -> (r: Result<Fee, Error>)
        requires
            self.wf(),
        ensures
            match r {
                Ok(f) => self.spec_has(tick_lower as int) && self.spec_has(tick_upper as int)
                    && f.token_0@ == fee_growth_inside_spec(
                    self.spec_at(tick_lower as int).fee_growth_outside.token_0@,
                    self.spec_at(tick_upper as int).fee_growth_outside.token_0@,
                    tick_lower as int,
                    tick_upper as int,
                    tick_current as int,
                    fee_growth_global.token_0@,
                ) && f.token_1@ == fee_growth_inside_spec(
                    self.spec_at(tick_lower as int).fee_growth_outside.token_1@,
                    self.spec_at(tick_upper as int).fee_growth_outside.token_1@,
                    tick_lower as int,
                    tick_upper as int,
                    tick_current as int,
                    fee_growth_global.token_1@,
                ),
                Err(e) => (!self.spec_has(tick_lower as int) || !self.spec_has(
                    tick_upper as int,
                )) && e == Error::TickNotFound,
            },
    {
        let lower_data = match self.get(tick_lower) {
            Some(info) => info,
            None => {
                return Err(Error::TickNotFound);
            },
        };
        let upper_data = match self.get(tick_upper) {
            Some(info) => info,
            None => {
                return Err(Error::TickNotFound);
            },
        };
        // growth below the lower tick
        let fee_growth_below = if tick_current >= tick_lower {
            lower_data.fee_growth_outside
        } else {
            fee_growth_global.wrapping_sub(&lower_data.fee_growth_outside)
        };
        // growth above the upper tick
        let fee_growth_above = if tick_current < tick_upper {
            upper_data.fee_growth_outside
        } else {
            fee_growth_global.wrapping_sub(&upper_data.fee_growth_outside)
        };
        Ok(fee_growth_global.wrapping_sub(&fee_growth_below).wrapping_sub(&fee_growth_above))
    }

    /// The nearest initialized tick at or past the given tick in the swap
    /// direction, or the domain boundary when none is initialized there:
    /// toward lower prices the nearest initialized tick at or below, toward
    /// higher prices the nearest strictly above.
    pub fn next_initialized_tick(&self, tick: i32, zero_for_one: bool) -> (r: (i32, bool))
        requires
            self.wf(),
        ensures
            r.1 ==> self.spec_initialized(r.0 as int),
            zero_for_one ==> if r.1 {
                r.0 <= tick && forall|t: int|
                    r.0 < t <= tick ==> !#[trigger] self.spec_initialized(t)
            } else {
                r.0 == MIN_TICK && forall|t: int|
                    t <= tick ==> !#[trigger] self.spec_initialized(t)
            },
            !zero_for_one ==> if r.1 {
                r.0 > tick && forall|t: int|
                    tick < t < r.0 ==> !#[trigger] self.spec_initialized(t)
            } else {
                r.0 == MAX_TICK && forall|t: int|
                    t > tick ==> !#[trigger] self.spec_initialized(t)
            },
    {
        let n = self.entries.len();
        if zero_for_one {
            let mut j: usize = n;
            while j > 0
                invariant
                    zero_for_one,
                    self.wf(),
                    n == self.entries@.len(),
                    j <= n,
                    forall|k: int|
                        j <= k < n ==> !((#[trigger] self.entries@[k]).0 <= tick
                            && self.entries@[k].1.liquidity_gross != 0),
                decreases j,
            {
                j = j - 1;
                let (t, info) = self.entries[j];
                if t <= tick && info.liquidity_gross != 0 {
                    proof {
                        self.lemma_at_index(j as int);
                        assert forall|u: int| t < u <= tick implies !#[trigger] self
                            .spec_initialized(u) by {
                            if self.spec_initialized(u) {
                                let m = choose|m: int|
                                    0 <= m < self.entries@.len() && (
                                    #[trigger] self.entries@[m]).0 == u;
                                self.lemma_at_index(m);
                                assert(m > j);
                            }
                        }
                    }
                    return (t, true);
                }
            }
            proof {
                assert forall|u: int| u <= tick implies !#[trigger] self.spec_initialized(
                    u,
                ) by {
                    if self.spec_initialized(u) {
                        let m = choose|m: int|
                            0 <= m < self.entries@.len() && (#[trigger] self.entries@[m]).0
                                == u;
                        self.lemma_at_index(m);
                    }
                }
            }
            (MIN_TICK, false)
        } else {
            let mut j: usize = 0;
            while j < n
                invariant
                    !zero_for_one,
                    self.wf(),
                    n == self.entries@.len(),
                    j <= n,
                    forall|k: int|
                        0 <= k < j ==> !((#[trigger] self.entries@[k]).0 > tick
                            && self.entries@[k].1.liquidity_gross != 0),
                decreases n - j,
            {
                let (t, info) = self.entries[j];
                if t > tick && info.liquidity_gross != 0 {
                    proof {
                        self.lemma_at_index(j as int);
                        assert forall|u: int| tick < u < t implies !#[trigger] self
                            .spec_initialized(u) by {
                            if self.spec_initialized(u) {
                                let m = choose|m: int|
                                    0 <= m < self.entries@.len() && (
                                    #[trigger] self.entries@[m]).0 == u;
                                self.lemma_at_index(m);
                                assert(m < j);
                            }
                        }
                    }
                    return (t, true);
                }
                j = j + 1;
            }
            proof {
                assert forall|u: int| u > tick implies !#[trigger] self.spec_initialized(
                    u,
                ) by {
                    if self.spec_initialized(u) {
                        let m = choose|m: int|
                            0 <= m < self.entries@.len() && (#[trigger] self.entries@[m]).0
                                == u;
                        self.lemma_at_index(m);
                    }
                }
            }
            (MAX_TICK, false)
        }
    }

    /// Records of other ticks are unchanged by a set.
    proof fn lemma_at_frame(
        &self,
        prev: &TickTable,
        i: int,
        tick: i32,
        info: TickInfo,
        found: bool,
        t: int,
    )
        requires
            self.wf(),
            prev.wf(),
            t != tick,
            prev.spec_has(t),
            0 <= i,
            found ==> i < prev.entries@.len() && prev.entries@[i].0 == tick
                && self.entries@ == prev.entries@.update(i, (tick, info)),
            !found ==> i <= prev.entries@.len() && self.entries@ == prev.entries@.insert(
                i,
                (tick, info),
            ),
        ensures
            self.spec_at(t) == prev.spec_at(t),
    {
        let k = choose|k: int|
            0 <= k < prev.entries@.len() && (#[trigger] prev.entries@[k]).0 == t;
        assert(prev.entries@[k].1 == prev.spec_at(t)) by {
            prev.lemma_at_index(k);
        }
        if found {
            assert(self.entries@[k] == prev.entries@[k]);
            self.lemma_at_index(k);
        } else {
            if k < i {
                assert(self.entries@[k] == prev.entries@[k]);
                self.lemma_at_index(k);
            } else {
                assert(self.entries@[k + 1] == prev.entries@[k]);
                self.lemma_at_index(k + 1);
            }
        }
    }
}

} // verus!
