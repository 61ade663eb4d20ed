use vstd::prelude::*;

use crate::address::{bytes_eq, parse_address, parsed_address, ADDRESS_LEN};

verus! {

/// A configured address string that is not a valid on-chain address.
#[derive(Debug, PartialEq, Eq)]
pub enum SelectorConfigError {
    InvalidAddress(String),
}

/// Whether every configured text denotes an address.
pub open spec fn all_valid(texts: Seq<String>) -> bool {
    forall|i: int| 0 <= i < texts.len() ==> (#[trigger] parsed_address(texts[i]@)) is Some
}

/// The addresses that the configured texts denote.
pub open spec fn denoted(texts: Seq<String>) -> Set<Seq<u8>> {
    Set::new(
        |a: Seq<u8>|
            exists|i: int| 0 <= i < texts.len() && parsed_address(#[trigger] texts[i]@) == Some(a),
    )
}

/// Index of the first text that denotes no address, where there is one.
pub open spec fn first_invalid(texts: Seq<String>, i: int) -> bool {
    &&& 0 <= i < texts.len()
    &&& parsed_address(texts[i]@) is None
    &&& forall|j: int| 0 <= j < i ==> (#[trigger] parsed_address(texts[j]@)) is Some
}

/// The addresses in a list, as a set.
pub open spec fn address_set(addresses: Seq<Vec<u8>>) -> Set<Seq<u8>> {
    Set::new(|a: Seq<u8>| exists|i: int| 0 <= i < addresses.len() && (#[trigger] addresses[i])@ == a)
}

/// A membership predicate over a fixed set of addresses. An empty set accepts
/// nothing.
pub struct Selector {
    addresses: Vec<Vec<u8>>,
}

impl Selector {
    /// The set of accepted addresses.
    pub closed spec fn accepted(&self) -> Set<Seq<u8>> {
        address_set(self.addresses@)
    }

    /// A selector accepting exactly the given addresses; none if the list is
    /// empty.
    pub fn from_addresses(addresses: Vec<Vec<u8>>) -> (r: Selector)
        ensures
            r.accepted() == address_set(addresses@),
    {
        Selector { addresses }
    }

    /// Builds the selector from address texts; fails on the first text that
    /// is not a valid address.
    pub fn from_config(texts: &Vec<String>) -> (r: Result<Selector, SelectorConfigError>)
        ensures
            r is Ok <==> all_valid(texts@),
            r matches Ok(s) ==> s.accepted() == denoted(texts@),
            r matches Err(SelectorConfigError::InvalidAddress(t)) ==> exists|i: int|
                first_invalid(texts@, i) && t@ == texts@[i]@,
    {
        let mut addresses: Vec<Vec<u8>> = Vec::new();
        let mut i: usize = 0;
        while i < texts.len()
            invariant
                i <= texts@.len(),
                addresses@.len() == i,
                forall|j: int|
                    0 <= j < i ==> parsed_address(texts@[j]@) == Some(
                        (#[trigger] addresses@[j])@,
                    ),
            decreases texts@.len() - i,
        {
            match parse_address(texts[i].as_str()) {
                Some(a) => {
                    addresses.push(a);
                },
                None => {
                    let t = texts[i].clone();
                    assert forall|j: int| 0 <= j < i implies (#[trigger] parsed_address(texts@[j]@)) is Some by {
                        assert(parsed_address(texts@[j]@) == Some(addresses@[j]@));
                    }
                    assert(first_invalid(texts@, i as int));
                    return Err(SelectorConfigError::InvalidAddress(t));
                },
            }
            i = i + 1;
        }
        let ghost listed = addresses@;
        let s = Selector::from_addresses(addresses);
        assert forall|a: Seq<u8>| #[trigger] s.accepted().contains(a) <==> denoted(texts@).contains(a) by {
            if s.accepted().contains(a) {
                let j = choose|j: int| 0 <= j < listed.len() && (#[trigger] listed[j])@ == a;
                assert(parsed_address(texts@[j]@) == Some(a));
            }
            if denoted(texts@).contains(a) {
                let j = choose|j: int| 0 <= j < texts@.len() && parsed_address(#[trigger] texts@[j]@) == Some(a);
                assert(listed[j]@ == a);
            }
        }
        assert(s.accepted() =~= denoted(texts@));
        assert forall|j: int| 0 <= j < texts@.len() implies (#[trigger] parsed_address(texts@[j]@)) is Some by {
            assert(parsed_address(texts@[j]@) == Some(listed[j]@));
        }
        Ok(s)
    }

    /// Whether `address` is in the set.
    pub fn accepts(&self, address: &[u8]) -> (r: bool)
        ensures
            r == self.accepted().contains(address@),
    {
        let mut i: usize = 0;
        while i < self.addresses.len()
            invariant
                i <= self.addresses@.len(),
                forall|j: int| 0 <= j < i ==> (#[trigger] self.addresses@[j])@ != address@,
            decreases self.addresses@.len() - i,
        {
            if bytes_eq(self.addresses[i].as_slice(), address) {
                return true;
            }
            i = i + 1;
        }
        false
    }
}

/// Which account updates are forwarded: those whose owning program is listed.
pub struct AccountSelector {
    pub owners: Selector,
}

/// Which instructions are forwarded: those of a listed program.
pub struct InstructionSelector {
    pub programs: Selector,
}

impl AccountSelector {
    pub fn from_config(texts: &Vec<String>) -> (r: Result<AccountSelector, SelectorConfigError>)
        ensures
            r is Ok <==> all_valid(texts@),
            r matches Ok(s) ==> s.owners.accepted() == denoted(texts@),
            r matches Err(SelectorConfigError::InvalidAddress(t)) ==> exists|i: int|
                first_invalid(texts@, i) && t@ == texts@[i]@,
    {
        match Selector::from_config(texts) {
            Ok(owners) => Ok(AccountSelector { owners }),
            Err(e) => Err(e),
        }
    }

    /// Whether an update of an account owned by `owner` is forwarded.
    pub fn accepts_account(&self, owner: &[u8]) -> (r: bool)
        ensures
            r == self.owners.accepted().contains(owner@),
    {
        self.owners.accepts(owner)
    }
}

impl InstructionSelector {
    pub fn from_config(texts: &Vec<String>) -> (r: Result<InstructionSelector, SelectorConfigError>)
        ensures
            r is Ok <==> all_valid(texts@),
            r matches Ok(s) ==> s.programs.accepted() == denoted(texts@),
            r matches Err(SelectorConfigError::InvalidAddress(t)) ==> exists|i: int|
                first_invalid(texts@, i) && t@ == texts@[i]@,
    {
        match Selector::from_config(texts) {
            Ok(programs) => Ok(InstructionSelector { programs }),
            Err(e) => Err(e),
        }
    }

    /// Whether an instruction of `program` is forwarded.
    pub fn accepts_instruction(&self, program: &[u8]) -> (r: bool)
        ensures
            r == self.programs.accepted().contains(program@),
    {
        self.programs.accepts(program)
    }
}

/// A selector built from valid texts accepts exactly the addresses they
/// denote; built from no texts it accepts nothing.
pub proof fn lemma_selector_membership(texts: Seq<String>, s: Selector, a: Seq<u8>)
    requires
        s.accepted() == denoted(texts),
    ensures
        s.accepted().contains(a) <==> exists|i: int|
            0 <= i < texts.len() && parsed_address(#[trigger] texts[i]@) == Some(a),
        texts.len() == 0 ==> !s.accepted().contains(a),
{
}

} // verus!
