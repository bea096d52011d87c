//! Strategy registry: an authority-gated mapping from strategy keys to
//! target programs, with a gated execution stub.
//!
//! Execution performs no real invocation: after its gates pass it only
//! records that execution was requested, leaving the actual call to the
//! surrounding runtime.

use crate::events::StrategyExecutionRequested;
use crate::AccountKey;
use crate::ErrorCode;
use vstd::prelude::*;

verus! {

/// A registry record, controlled by one authority.
pub struct Registry {
    pub authority: AccountKey,
}

/// A strategy mapping owned by a registry: strategy key to target program.
pub struct Strategy {
    pub registry: AccountKey,
    pub strategy_key: u64,
    pub target_program: AccountKey,
}

impl Registry {
    /// Creates a registry controlled by `authority`.
    pub fn init_registry(authority: AccountKey) -> (r: Registry)
        ensures
            r == (Registry { authority }),
    {
        Registry { authority }
    }

    /// Adds or replaces a strategy mapping. Only the registry's authority
    /// may do so; anyone else fails with [`ErrorCode::Unauthorized`].
    pub fn upsert_strategy(&self, caller: AccountKey, registry_key: AccountKey, strategy_key: u64, target_program: AccountKey) -> (r: Result<Strategy, ErrorCode>)
        ensures
            caller != self.authority ==> r == Err::<Strategy, ErrorCode>(ErrorCode::Unauthorized),
            caller == self.authority ==> r == Ok::<Strategy, ErrorCode>(Strategy { registry: registry_key, strategy_key, target_program }),
    {
        if caller != self.authority {
            return Err(ErrorCode::Unauthorized);
        }
        Ok(Strategy { registry: registry_key, strategy_key, target_program })
    }
}

impl Strategy {
    /// The gated execution stub. A strategy belonging to another registry
    /// fails with [`ErrorCode::RegistryMismatch`]; a declined approval gate
    /// with [`ErrorCode::NotApproved`]; a key that does not match the stored
    /// record with [`ErrorCode::StrategyKeyMismatch`]. When all gates pass,
    /// only an execution-requested record is produced: no invocation happens
    /// in this core, and `_ix_data` is the payload a future invocation would
    /// carry.
    pub fn execute_strategy(&self, registry_key: AccountKey, user: AccountKey, strategy_key: u64, approved: bool, _ix_data: Vec<u8>, now: i64) -> (r: Result<StrategyExecutionRequested, ErrorCode>)
        ensures
            self.registry != registry_key ==> r == Err::<StrategyExecutionRequested, ErrorCode>(ErrorCode::RegistryMismatch),
            self.registry == registry_key && !approved ==> r == Err::<StrategyExecutionRequested, ErrorCode>(ErrorCode::NotApproved),
            self.registry == registry_key && approved && self.strategy_key != strategy_key ==> r == Err::<StrategyExecutionRequested, ErrorCode>(ErrorCode::StrategyKeyMismatch),
            self.registry == registry_key && approved && self.strategy_key == strategy_key ==> r == Ok::<StrategyExecutionRequested, ErrorCode>(StrategyExecutionRequested {
                user,
                strategy: strategy_key,
                target_program: self.target_program,
                ts: now,
            }),
    {
        if self.registry != registry_key {
            return Err(ErrorCode::RegistryMismatch);
        }
        if !approved {
            return Err(ErrorCode::NotApproved);
        }
        if self.strategy_key != strategy_key {
            return Err(ErrorCode::StrategyKeyMismatch);
        }
        Ok(StrategyExecutionRequested { user, strategy: strategy_key, target_program: self.target_program, ts: now })
    }
}

} // verus!
