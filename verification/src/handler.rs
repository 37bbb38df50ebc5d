//! The authorization guard.

use vstd::prelude::*;
use crate::error::ContractError;
use crate::msg::MessageInfo;
use crate::state::Config;

verus! {

/// Checks that the message comes from the owner, and gives the owner's
/// identity.
pub fn check_owner(info: &MessageInfo, config: &Config) -> (r: Result<String, ContractError>)
    ensures
        info.sender@ == config.owner@ ==> r is Ok && r->Ok_0@ == config.owner@,
        info.sender@ != config.owner@ ==> r == Err::<String, ContractError>(
            ContractError::Unauthorized,
        ),
{
    if info.sender == config.owner {
        return Ok(config.owner.clone());
    }
    Err(ContractError::Unauthorized)
}

} // verus!
