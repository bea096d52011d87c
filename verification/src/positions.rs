//! Per-user, per-market position and profile tracking.
//!
//! Sizes and collateral are unsigned and every adjustment saturates, so no
//! sequence of signed deltas — however adversarial — can drive them negative
//! or wrap them. Realized PnL is only carried and reported here; computing
//! it from trade history belongs to the caller.

use crate::events::PositionAdjusted;
use crate::events::PositionClosed;
use crate::events::PositionOpened;
use crate::AccountKey;
use crate::ErrorCode;
use vstd::prelude::*;

verus! {

/// A signed delta applied to an unsigned value with saturation at both ends.
pub open spec fn apply_delta(value: int, delta: int) -> int {
    if delta >= 0 {
        if value + delta > u64::MAX {
            u64::MAX as int
        } else {
            value + delta
        }
    } else {
        if value + delta < 0 {
            0
        } else {
            value + delta
        }
    }
}

/// A whole sequence of signed deltas applied in order, saturating at every
/// step.
pub open spec fn apply_deltas(value: int, deltas: Seq<int>) -> int
    decreases deltas.len(),
{
    if deltas.len() == 0 {
        value
    } else {
        apply_delta(apply_deltas(value, deltas.drop_last()), deltas.last())
    }
}

/// Saturating adjustment never leaves the machine range: under any sequence
/// of signed deltas, a value that starts in `[0, u64::MAX]` stays there — in
/// particular it never goes negative, whatever the deltas' magnitudes.
pub proof fn lemma_apply_deltas_in_range(value: int, deltas: Seq<int>)
    requires
        0 <= value <= u64::MAX,
    ensures
        0 <= apply_deltas(value, deltas) <= u64::MAX,
    decreases deltas.len(),
{
    if deltas.len() > 0 {
        lemma_apply_deltas_in_range(value, deltas.drop_last());
    }
}

/// One profile per user: how many positions the user has open.
pub struct UserProfile {
    pub owner: AccountKey,
    /// Saturating counter, floored at zero on close.
    pub open_positions: u32,
}

/// A counter event in a profile's history: `true` for an open, `false` for a
/// close.
pub open spec fn count_after(count: int, opened: bool) -> int {
    if opened {
        if count + 1 > u32::MAX {
            u32::MAX as int
        } else {
            count + 1
        }
    } else {
        if count > 0 {
            count - 1
        } else {
            0
        }
    }
}

/// The open-position counter after a whole history of opens and closes.
pub open spec fn count_after_history(count: int, history: Seq<bool>) -> int
    decreases history.len(),
{
    if history.len() == 0 {
        count
    } else {
        count_after(count_after_history(count, history.drop_last()), history.last())
    }
}

/// The open-position counter never underflows: after any sequence of opens
/// and closes — including closes with no matching open — it stays within
/// `[0, u32::MAX]`.
pub proof fn lemma_open_positions_never_underflow(count: int, history: Seq<bool>)
    requires
        0 <= count <= u32::MAX,
    ensures
        0 <= count_after_history(count, history) <= u32::MAX,
    decreases history.len(),
{
    if history.len() > 0 {
        lemma_open_positions_never_underflow(count, history.drop_last());
    }
}

impl UserProfile {
    /// Creates the profile for a user, with no open positions.
    pub fn init_user(owner: AccountKey) -> (user: UserProfile)
        ensures
            user == (UserProfile { owner, open_positions: 0 }),
    {
        UserProfile { owner, open_positions: 0 }
    }
}

/// A user's exposure in one market.
pub struct Position {
    pub owner: AccountKey,
    pub market: AccountKey,
    pub size: u64,
    pub collateral_locked: u64,
    pub entry_ts: i64,
    /// Carried and reported only; accrued by the caller at close.
    pub realized_pnl: i64,
}

impl Position {
    /// Opens a position and counts it on the owner's profile, saturating the
    /// counter. Fails with [`ErrorCode::Unauthorized`] when the profile does
    /// not belong to the opener.
    pub fn open_position(owner: AccountKey, market: AccountKey, size: u64, collateral_locked: u64, user: &mut UserProfile, now: i64) -> (r: Result<(Position, PositionOpened), ErrorCode>)
        ensures
            owner != old(user).owner ==> r == Err::<(Position, PositionOpened), ErrorCode>(ErrorCode::Unauthorized) && *final(user) == *old(user),
            owner == old(user).owner ==> {
                &&& final(user).open_positions as int == count_after(old(user).open_positions as int, true)
                &&& final(user).owner == old(user).owner
                &&& r is Ok
                &&& r->Ok_0.0 == (Position { owner, market, size, collateral_locked, entry_ts: now, realized_pnl: 0 })
                &&& r->Ok_0.1 == (PositionOpened { owner, market, size, collateral_locked, ts: now })
            },
    {
        if owner != user.owner {
            return Err(ErrorCode::Unauthorized);
        }
        let pos = Position { owner, market, size, collateral_locked, entry_ts: now, realized_pnl: 0 };
        user.open_positions = if user.open_positions < u32::MAX {
            user.open_positions + 1
        } else {
            u32::MAX
        };
        let event = PositionOpened { owner, market, size, collateral_locked, ts: now };
        Ok((pos, event))
    }

    /// Applies signed size and collateral deltas with saturation at zero and
    /// at the machine word, and reports the adjustment. Fails with
    /// [`ErrorCode::Unauthorized`] when the caller is not the owner.
    pub fn adjust_position(&mut self, caller: AccountKey, delta_size: i64, delta_collateral: i64, now: i64) -> (r: Result<PositionAdjusted, ErrorCode>)
        ensures
            caller != old(self).owner ==> r == Err::<PositionAdjusted, ErrorCode>(ErrorCode::Unauthorized) && *final(self) == *old(self),
            caller == old(self).owner ==> {
                &&& final(self).size as int == apply_delta(old(self).size as int, delta_size as int)
                &&& final(self).collateral_locked as int == apply_delta(old(self).collateral_locked as int, delta_collateral as int)
                &&& final(self).owner == old(self).owner
                &&& final(self).market == old(self).market
                &&& final(self).entry_ts == old(self).entry_ts
                &&& final(self).realized_pnl == old(self).realized_pnl
                &&& r == Ok::<PositionAdjusted, ErrorCode>(PositionAdjusted {
                    owner: old(self).owner,
                    market: old(self).market,
                    delta_size,
                    delta_collateral,
                    ts: now,
                })
            },
    {
        if caller != self.owner {
            return Err(ErrorCode::Unauthorized);
        }
        self.size = add_saturating(self.size, delta_size);
        self.collateral_locked = add_saturating(self.collateral_locked, delta_collateral);
        let event = PositionAdjusted {
            owner: self.owner,
            market: self.market,
            delta_size,
            delta_collateral,
            ts: now,
        };
        Ok(event)
    }

    /// Closes the position: decrements the owner's open-position counter,
    /// flooring at zero, and reports the final size, collateral and carried
    /// PnL. Fails with [`ErrorCode::Unauthorized`] when the caller is not
    /// the owner of both the position and the profile.
    pub fn close_position(&self, caller: AccountKey, user: &mut UserProfile, now: i64) -> (r: Result<PositionClosed, ErrorCode>)
        ensures
            caller != self.owner || caller != old(user).owner ==> r == Err::<PositionClosed, ErrorCode>(ErrorCode::Unauthorized) && *final(user) == *old(user),
            caller == self.owner && caller == old(user).owner ==> {
                &&& final(user).open_positions as int == count_after(old(user).open_positions as int, false)
                &&& final(user).owner == old(user).owner
                &&& r == Ok::<PositionClosed, ErrorCode>(PositionClosed {
                    owner: self.owner,
                    market: self.market,
                    size: self.size,
                    collateral_locked: self.collateral_locked,
                    realized_pnl: self.realized_pnl,
                    ts: now,
                })
            },
    {
        if caller != self.owner || caller != user.owner {
            return Err(ErrorCode::Unauthorized);
        }
        if user.open_positions > 0 {
            user.open_positions = user.open_positions - 1;
        }
        let event = PositionClosed {
            owner: self.owner,
            market: self.market,
            size: self.size,
            collateral_locked: self.collateral_locked,
            realized_pnl: self.realized_pnl,
            ts: now,
        };
        Ok(event)
    }
}

/// A signed delta added to an unsigned value, saturating at both ends.
fn add_saturating(value: u64, delta: i64) -> (r: u64)
    ensures
        r as int == apply_delta(value as int, delta as int),
{
    if delta >= 0 {
        let d: u64 = delta as u64;
        if value <= u64::MAX - d {
            value + d
        } else {
            u64::MAX
        }
    } else {
        let d: u64 = (-(delta as i128)) as u64;
        if value >= d {
            value - d
        } else {
            0
        }
    }
}

} // verus!
