use vstd::prelude::*;

use crate::selector::{
    all_valid, denoted, first_invalid, AccountSelector, InstructionSelector, SelectorConfigError,
};
use crate::transport::Network;

verus! {

/// Where the broker is and which network its messages are for.
pub struct Amqp {
    pub address: String,
    pub network: Network,
}

/// Startup configuration of the event producer.
pub struct Config {
    pub amqp: Amqp,
    pub account_owners: Vec<String>,
    pub instruction_programs: Vec<String>,
}

impl Config {
    /// Splits the configuration into the broker settings and the two
    /// selectors; fails if any configured address is invalid, owners first.
    pub fn into_parts(self) -> (r: Result<(Amqp, AccountSelector, InstructionSelector), SelectorConfigError>)
        ensures
            r is Ok <==> all_valid(self.account_owners@) && all_valid(self.instruction_programs@),
            r matches Ok((amqp, acct, ins)) ==> {
                &&& amqp == self.amqp
                &&& acct.owners.accepted() == denoted(self.account_owners@)
                &&& ins.programs.accepted() == denoted(self.instruction_programs@)
            },
            r matches Err(SelectorConfigError::InvalidAddress(t)) ==> if !all_valid(self.account_owners@) {
                exists|i: int| first_invalid(self.account_owners@, i) && t@ == self.account_owners@[i]@
            } else {
                exists|i: int| first_invalid(self.instruction_programs@, i) && t@ == self.instruction_programs@[i]@
            },
    {
        let Config { amqp, account_owners, instruction_programs } = self;
        let acct = match AccountSelector::from_config(&account_owners) {
            Ok(a) => a,
            Err(e) => return Err(e),
        };
        let ins = match InstructionSelector::from_config(&instruction_programs) {
            Ok(i) => i,
            Err(e) => return Err(e),
        };
        Ok((amqp, acct, ins))
    }
}

} // verus!
