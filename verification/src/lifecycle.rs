//! Record creation planning: the four funding paths.
//!
//! A record that is not yet owned by this system is brought to life by a
//! bounded sequence of external runtime calls. Which calls are issued
//! depends only on the record's current balance against the required
//! minimum; an owned record needs no calls at all.

use vstd::prelude::*;

verus! {

/// The funding and ownership status of a record, observed at call time.
#[derive(Debug, Clone, Copy, PartialEq, Eq, Structural)]
pub enum FundingState {
    /// Not owned and holding no balance at all.
    UnownedUnfunded,
    /// Not owned, holding some balance below the required minimum.
    UnownedPartiallyFunded,
    /// Not owned, holding at least the required minimum.
    UnownedFullyFunded,
    /// Already owned by this system: nothing to create.
    Owned,
}

/// One call into the runtime's record-creation primitives.
#[derive(Debug, Clone, Copy, PartialEq, Eq, Structural)]
pub enum ExternalCall {
    /// Create, fund to `lamports` and assign ownership in one step.
    CreateAndFund { lamports: u64, space: u64 },
    /// Transfer `lamports` from the payer to the record.
    Transfer { lamports: u64 },
    /// Allocate `space` bytes of storage for the record.
    Allocate { space: u64 },
    /// Assign ownership of the record to this system.
    Assign,
}

/// The funding state of a record with the given ownership flag and balance.
pub open spec fn spec_funding_state(owned: bool, balance: u64, required: u64) -> FundingState {
    if owned {
        FundingState::Owned
    } else if balance == 0 {
        FundingState::UnownedUnfunded
    } else if balance < required {
        FundingState::UnownedPartiallyFunded
    } else {
        FundingState::UnownedFullyFunded
    }
}

/// How many external calls creating an unowned record takes: one for a
/// wholly unfunded record, three for a partially funded one, two for a
/// fully funded one.
pub open spec fn creation_call_count(balance: u64, required: u64) -> int {
    if balance == 0 {
        1
    } else if balance < required {
        3
    } else {
        2
    }
}

/// The exact calls that create an unowned record with the given balance:
/// the single combined call, or top-up plus allocate plus assign, or
/// allocate plus assign.
pub open spec fn spec_creation_plan(balance: u64, required: u64, space: u64) -> Seq<ExternalCall> {
    if balance == 0 {
        seq![ExternalCall::CreateAndFund { lamports: required, space }]
    } else if balance < required {
        seq![
            ExternalCall::Transfer { lamports: (required - balance) as u64 },
            ExternalCall::Allocate { space },
            ExternalCall::Assign,
        ]
    } else {
        seq![ExternalCall::Allocate { space }, ExternalCall::Assign]
    }
}

/// Observe the funding state of a record.
pub fn classify_funding(owned: bool, balance: u64, required: u64) -> (r: FundingState)
    ensures
        r == spec_funding_state(owned, balance, required),
{
    if owned {
        FundingState::Owned
    } else if balance == 0 {
        FundingState::UnownedUnfunded
    } else if balance < required {
        FundingState::UnownedPartiallyFunded
    } else {
        FundingState::UnownedFullyFunded
    }
}

/// The external calls that bring an unowned record with the given balance
/// up to an owned, funded record of `space` bytes.
pub fn plan_creation(balance: u64, required: u64, space: u64) -> (r: Vec<ExternalCall>)
    ensures
        r@ == spec_creation_plan(balance, required, space),
        r@.len() == creation_call_count(balance, required),
{
    let mut plan: Vec<ExternalCall> = Vec::new();
    if balance == 0 {
        plan.push(ExternalCall::CreateAndFund { lamports: required, space });
    } else if balance < required {
        plan.push(ExternalCall::Transfer { lamports: required - balance });
        plan.push(ExternalCall::Allocate { space });
        plan.push(ExternalCall::Assign);
    } else {
        plan.push(ExternalCall::Allocate { space });
        plan.push(ExternalCall::Assign);
    }
    proof {
        assert(plan@ =~= spec_creation_plan(balance, required, space));
    }
    plan
}

/// How many external calls creating an unowned record with this balance
/// takes.
pub fn count_creation_calls(balance: u64, required: u64) -> (r: u64)
    ensures
        r == creation_call_count(balance, required),
{
    if balance == 0 {
        1
    } else if balance < required {
        3
    } else {
        2
    }
}

/// A record's balance after creation: topped up to the required minimum,
/// never reduced.
pub open spec fn funded_balance(balance: u64, required: u64) -> u64 {
    if balance >= required {
        balance
    } else {
        required
    }
}

} // verus!
