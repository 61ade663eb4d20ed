use vstd::prelude::*;

use crate::address::{bytes_eq, copy_range, has_prefix, le_u64};
use crate::decode::{
    close_listing_row_matches, close_listing_well_formed, decode_close_listing,
    decode_token_account, decode_token_instruction, token_account_unpacks, DecodeError,
    TokenInstructionAction, I64_MAX, TOKEN_ACCOUNT_LEN, TOKEN_BURN,
};
use crate::store::{listings_after_close, rewards_after_close, Store};
use crate::table::applied;
use crate::transport::{
    account_views, decode_event, network_tag, unwire, Network, RawEvent, TransportError,
};

verus! {

/// The decoders an instruction can be routed to.
#[derive(Debug, Clone, Copy, PartialEq, Eq, Structural)]
pub enum DecoderKind {
    /// The reward center's close-listing instruction.
    CloseListing,
    /// Any instruction of the token program.
    Token,
}

/// A registered decoder: instructions of `program` whose bytes start with
/// `discriminator` go to `kind`.
pub struct Route {
    pub program: Vec<u8>,
    pub discriminator: Vec<u8>,
    pub kind: DecoderKind,
}

pub open spec fn route_matches(r: Route, program: Seq<u8>, data: Seq<u8>) -> bool {
    &&& r.program@ == program
    &&& r.discriminator@.len() <= data.len()
    &&& data.subrange(0, r.discriminator@.len() as int) == r.discriminator@
}

/// Decoders keyed by program and discriminator, filled once at startup.
pub struct Registry {
    pub routes: Vec<Route>,
}

/// `i` is the first route that matches.
pub open spec fn first_match(routes: Seq<Route>, program: Seq<u8>, data: Seq<u8>, i: int) -> bool {
    &&& 0 <= i < routes.len()
    &&& route_matches(routes[i], program, data)
    &&& forall|j: int| 0 <= j < i ==> !route_matches(#[trigger] routes[j], program, data)
}

impl Registry {
    pub fn new() -> (r: Registry)
        ensures
            r.routes@.len() == 0,
    {
        Registry { routes: Vec::new() }
    }

    /// Adds a route after those already registered.
    pub fn register(&mut self, program: Vec<u8>, discriminator: Vec<u8>, kind: DecoderKind)
        ensures
            final(self).routes@ == old(self).routes@.push(Route { program, discriminator, kind }),
    {
        self.routes.push(Route { program, discriminator, kind });
    }

    /// The first route for `program` whose discriminator starts `data`, with
    /// the discriminator's length.
    pub fn lookup(&self, program: &[u8], data: &[u8]) -> (r: Option<(DecoderKind, usize)>)
        ensures
            r is None <==> forall|i: int|
                0 <= i < self.routes@.len() ==> !route_matches(#[trigger] self.routes@[i], program@, data@),
            r matches Some((k, n)) ==> exists|i: int|
                first_match(self.routes@, program@, data@, i) && self.routes@[i].kind == k
                    && self.routes@[i].discriminator@.len() == n,
    {
        let mut i: usize = 0;
        while i < self.routes.len()
            invariant
                i <= self.routes@.len(),
                forall|j: int| 0 <= j < i ==> !route_matches(#[trigger] self.routes@[j], program@, data@),
            decreases self.routes@.len() - i,
        {
            let r = &self.routes[i];
            let n = r.discriminator.len();
            if bytes_eq(r.program.as_slice(), program) && has_prefix(data, r.discriminator.as_slice()) {
                assert(first_match(self.routes@, program@, data@, i as int));
                return Some((r.kind, n));
            }
            i = i + 1;
        }
        None
    }
}

/// What an instruction did to the index.
#[derive(Debug, Clone, Copy, PartialEq, Eq, Structural)]
pub enum Outcome {
    /// No decoder is registered for it.
    Skipped,
    /// Its decoded rows were applied.
    Applied,
    /// A token burn; the burnt account's balance is to be refreshed.
    Burn,
    /// A token instruction the index does not record.
    Ignored,
}

/// What processing an instruction of `program` at `slot` with the time `now`
/// returns (`r`) and makes of the index (`before` to `after`).
pub open spec fn processed(
    before: Store,
    after: Store,
    registry: &Registry,
    program: Seq<u8>,
    data: Seq<u8>,
    accounts: Seq<Vec<u8>>,
    slot: u64,
    now: i64,
    r: Result<Outcome, DecodeError>,
) -> bool {
    &&& r != Ok::<Outcome, DecodeError>(Outcome::Applied) ==> after == before
    &&& (forall|i: int|
        0 <= i < registry.routes@.len() ==> !route_matches(#[trigger] registry.routes@[i], program, data))
        ==> r == Ok::<Outcome, DecodeError>(Outcome::Skipped)
    &&& forall|i: int|
        #[trigger] first_match(registry.routes@, program, data, i) ==> {
            let route = registry.routes@[i];
            let params = data.subrange(route.discriminator@.len() as int, data.len() as int);
            match route.kind {
                DecoderKind::CloseListing => {
                    &&& !close_listing_well_formed(params, accounts) <==> r == Err::<Outcome, DecodeError>(DecodeError::Malformed)
                    &&& close_listing_well_formed(params, accounts) && (slot > I64_MAX || le_u64(params) > I64_MAX)
                        <==> r == Err::<Outcome, DecodeError>(DecodeError::Overflow)
                    &&& r is Ok ==> r == Ok::<Outcome, DecodeError>(Outcome::Applied) && exists|row|
                        close_listing_row_matches(row, params, accounts, slot, now)
                            && after.listings.view() == listings_after_close(before.listings.view(), row)
                            && after.rewards_listings.view() == rewards_after_close(before.rewards_listings.view(), row)
                            && after.token_accounts.view() == before.token_accounts.view()
                            && after.close_listing_records@ == before.close_listing_records@.push(row)
                },
                DecoderKind::Token => {
                    &&& data.len() == 0 ==> r == Err::<Outcome, DecodeError>(DecodeError::Malformed)
                    &&& data.len() > 0 && data[0] == TOKEN_BURN ==> r == Ok::<Outcome, DecodeError>(Outcome::Burn)
                    &&& data.len() > 0 && data[0] != TOKEN_BURN ==> r == Ok::<Outcome, DecodeError>(Outcome::Ignored)
                },
            }
        }
}

/// Routes an instruction of `program` to its decoder and applies what it
/// decodes; `now` is the time a closure is recorded at.
pub fn process_instruction(
    store: &mut Store,
    registry: &Registry,
    program: &[u8],
    data: &[u8],
    accounts: &Vec<Vec<u8>>,
    slot: u64,
    now: i64,
) -> (r: Result<Outcome, DecodeError>)
    requires
        old(store).wf(),
    ensures
        final(store).wf(),
        processed(*old(store), *final(store), registry, program@, data@, accounts@, slot, now, r),
{
    let ghost routes = registry.routes@;
    match registry.lookup(program, data) {
        None => Ok(Outcome::Skipped),
        Some((kind, n)) => {
            let ghost i = choose|i: int|
                first_match(routes, program@, data@, i) && routes[i].kind == kind
                    && routes[i].discriminator@.len() == n;
            assert forall|j: int| #[trigger] first_match(routes, program@, data@, j) implies j == i by {
                if j < i {
                    assert(!route_matches(routes[j], program@, data@));
                } else if i < j {
                    assert(!route_matches(routes[i], program@, data@));
                }
            }
            match kind {
                DecoderKind::CloseListing => {
                    let params = copy_range(data, n, data.len());
                    match decode_close_listing(params.as_slice(), accounts, slot, now) {
                        Ok(row) => {
                            store.apply_close_listing(&row);
                            let ghost logged = row;
                            store.record_close_listing(row);
                            assert(close_listing_row_matches(logged, params@, accounts@, slot, now));
                            Ok(Outcome::Applied)
                        },
                        Err(e) => Err(e),
                    }
                },
                DecoderKind::Token => match decode_token_instruction(data) {
                    Ok(TokenInstructionAction::Burn) => Ok(Outcome::Burn),
                    Ok(TokenInstructionAction::Ignore) => Ok(Outcome::Ignored),
                    Err(e) => Err(e),
                },
            }
        },
    }
}

/// Relies on chrono's `Utc::now`: the current time as Unix seconds. Nothing
/// is known of the value.
#[verifier::external_body]
fn current_unix_time() -> (r: i64) {
    chrono::Utc::now().timestamp()
}

/// Processes an instruction as `process_instruction` does, recording
/// closures at the current time.
pub fn handle_instruction(
    store: &mut Store,
    registry: &Registry,
    program: &[u8],
    data: &[u8],
    accounts: &Vec<Vec<u8>>,
    slot: u64,
) -> (r: Result<Outcome, DecodeError>)
    requires
        old(store).wf(),
    ensures
        final(store).wf(),
        exists|now: i64| processed(*old(store), *final(store), registry, program@, data@, accounts@, slot, now, r),
{
    let now = current_unix_time();
    process_instruction(store, registry, program, data, accounts, slot, now)
}

/// Why a message from the broker was discarded.
#[derive(Debug, Clone, Copy, PartialEq, Eq, Structural)]
pub enum ConsumeError {
    Transport(TransportError),
    Decode(DecodeError),
}

/// Consumes one message of the broker on the consumer's network `expected`:
/// instructions go through the registry, updates of accounts owned by
/// `token_program` to the token-account decoder; other updates are skipped.
/// A discarded message leaves the index as it was.
pub fn consume_message(
    store: &mut Store,
    registry: &Registry,
    token_program: &[u8],
    message: &[u8],
    expected: Network,
    now: i64,
) -> (r: Result<Outcome, ConsumeError>)
    requires
        old(store).wf(),
    ensures
        final(store).wf(),
        r is Err ==> *final(store) == *old(store),
        unwire(message@) is None <==> r == Err::<Outcome, ConsumeError>(ConsumeError::Transport(TransportError::Malformed)),
        unwire(message@) matches Some(m) ==> (m.0 != network_tag(expected) <==> r
            == Err::<Outcome, ConsumeError>(ConsumeError::Transport(TransportError::WrongNetwork))),
        unwire(message@) matches Some(m) ==> m.0 == network_tag(expected) ==> {
            let v = m.1;
            if v.0 == 1 {
                exists|res: Result<Outcome, DecodeError>, accts: Seq<Vec<u8>>|
                    account_views(accts) == v.4 && processed(*old(store), *final(store), registry, v.1, v.3, accts, v.5, now, res)
                    && r == match res { Ok(o) => Ok(o), Err(e) => Err(ConsumeError::Decode(e)) }
            } else if v.2 != token_program@ || v.3.len() != TOKEN_ACCOUNT_LEN {
                r == Ok::<Outcome, ConsumeError>(Outcome::Skipped) && *final(store) == *old(store)
            } else if !token_account_unpacks(v.3) {
                r == Err::<Outcome, ConsumeError>(ConsumeError::Decode(DecodeError::Malformed))
            } else {
                &&& r == Ok::<Outcome, ConsumeError>(Outcome::Applied)
                &&& final(store).token_accounts.view() == applied(
                    old(store).token_accounts.view(),
                    v.1,
                    v.5,
                    le_u64(v.3.subrange(64, 72)),
                )
                &&& final(store).listings.view() == old(store).listings.view()
                &&& final(store).rewards_listings.view() == old(store).rewards_listings.view()
                &&& final(store).close_listing_records@ == old(store).close_listing_records@
            }
        },
{
    let ghost before = *store;
    match decode_event(message, expected) {
        Err(e) => Err(ConsumeError::Transport(e)),
        Ok(RawEvent::Instruction { program, data, accounts, slot }) => {
            let res = process_instruction(store, registry, program.as_slice(), data.as_slice(), &accounts, slot, now);
            let r = match res {
                Ok(o) => Ok(o),
                Err(e) => Err(ConsumeError::Decode(e)),
            };
            let ghost v = unwire(message@)->Some_0.1;
            assert(v == (1u8, program@, Seq::<u8>::empty(), data@, account_views(accounts@), slot));
            assert(processed(before, *store, registry, v.1, v.3, accounts@, v.5, now, res));
            assert(exists|res2: Result<Outcome, DecodeError>, accts: Seq<Vec<u8>>|
                account_views(accts) == v.4 && processed(before, *store, registry, v.1, v.3, accts, v.5, now, res2)
                    && r == match res2 { Ok(o) => Ok(o), Err(e) => Err(ConsumeError::Decode(e)) });
            r
        },
        Ok(RawEvent::AccountUpdate { address, owner, data, slot }) => {
            assert(unwire(message@) == Some((network_tag(expected), (0u8, address@, owner@, data@, Seq::<Seq<u8>>::empty(), slot))));
            if !bytes_eq(owner.as_slice(), token_program) {
                return Ok(Outcome::Skipped);
            }
            match decode_token_account(address.as_slice(), data.as_slice(), slot) {
                Ok(None) => Ok(Outcome::Skipped),
                Ok(Some(row)) => {
                    store.apply_token_account(&row);
                    Ok(Outcome::Applied)
                },
                Err(e) => Err(ConsumeError::Decode(e)),
            }
        },
    }
}

} // verus!
