use vstd::prelude::*;

use crate::address::{copy_range, le_bytes, le_u64, lemma_le_round_trip, push_u64_le, read_u64_le, ADDRESS_LEN};
use crate::selector::{AccountSelector, InstructionSelector};

verus! {

/// The network a message belongs to.
#[derive(Debug, Clone, Copy, PartialEq, Eq, Structural)]
pub enum Network {
    Mainnet,
    Devnet,
    Testnet,
}

/// The tag byte of a network on the wire.
pub open spec fn network_tag(n: Network) -> u8 {
    match n {
        Network::Mainnet => 0,
        Network::Devnet => 1,
        Network::Testnet => 2,
    }
}

/// An event as the node reports it.
pub enum RawEvent {
    AccountUpdate { address: Vec<u8>, owner: Vec<u8>, data: Vec<u8>, slot: u64 },
    Instruction { program: Vec<u8>, data: Vec<u8>, accounts: Vec<Vec<u8>>, slot: u64 },
}

/// The contents of an event: kind (0 for an account update, 1 for an
/// instruction), the account address or the program, the owner (empty for an
/// instruction), the bytes, the referenced accounts (empty for an account
/// update) and the slot.
pub type EventView = (u8, Seq<u8>, Seq<u8>, Seq<u8>, Seq<Seq<u8>>, u64);

pub open spec fn account_views(a: Seq<Vec<u8>>) -> Seq<Seq<u8>> {
    a.map_values(|v: Vec<u8>| v@)
}

pub open spec fn event_view(e: RawEvent) -> EventView {
    match e {
        RawEvent::AccountUpdate { address, owner, data, slot } => (0, address@, owner@, data@, seq![], slot),
        RawEvent::Instruction { program, data, accounts, slot } => (
            1,
            program@,
            seq![],
            data@,
            account_views(accounts@),
            slot,
        ),
    }
}

/// Whether every address in the event is an address's length.
pub open spec fn view_wf(v: EventView) -> bool {
    &&& v.0 <= 1
    &&& v.1.len() == ADDRESS_LEN
    &&& v.0 == 0 ==> v.2.len() == ADDRESS_LEN && v.4.len() == 0
    &&& v.0 == 1 ==> v.2.len() == 0 && forall|i: int| 0 <= i < v.4.len() ==> (#[trigger] v.4[i]).len() == ADDRESS_LEN
}

/// The accounts' bytes one after the other.
pub open spec fn flat(s: Seq<Seq<u8>>) -> Seq<u8>
    decreases s.len(),
{
    if s.len() == 0 {
        seq![]
    } else {
        flat(s.drop_last()) + s.last()
    }
}

/// The payload of a message carrying the event.
pub open spec fn payload(v: EventView) -> Seq<u8> {
    if v.0 == 0 {
        v.1 + v.2 + v.3
    } else {
        v.1 + le_bytes(v.4.len() as u64) + flat(v.4) + v.3
    }
}

/// A message: network tag, kind, slot as a little-endian `u64`, payload.
pub open spec fn wire(tag: u8, v: EventView) -> Seq<u8> {
    seq![tag, v.0] + le_bytes(v.5) + payload(v)
}

/// Offset of the payload in a message.
pub const HEADER_LEN: usize = 10;

/// The network tag and event that a message holds, if it is well formed.
pub open spec fn unwire(b: Seq<u8>) -> Option<(u8, EventView)> {
    if b.len() < HEADER_LEN || b[0] > 2 || b[1] > 1 {
        None
    } else {
        let slot = le_u64(b.subrange(2, 10));
        let p = b.subrange(10, b.len() as int);
        if b[1] == 0 {
            if p.len() < 64 {
                None
            } else {
                Some((b[0], (0, p.subrange(0, 32), p.subrange(32, 64), p.subrange(64, p.len() as int), seq![], slot)))
            }
        } else {
            if p.len() < 40 {
                None
            } else {
                let count = le_u64(p.subrange(32, 40)) as int;
                if 40 + 32 * count > p.len() {
                    None
                } else {
                    Some((
                        b[0],
                        (
                            1,
                            p.subrange(0, 32),
                            seq![],
                            p.subrange(40 + 32 * count, p.len() as int),
                            Seq::new(count as nat, |i: int| p.subrange(40 + 32 * i, 72 + 32 * i)),
                            slot,
                        ),
                    ))
                }
            }
        }
    }
}

/// Why a message was not applied.
#[derive(Debug, Clone, Copy, PartialEq, Eq, Structural)]
pub enum TransportError {
    /// The bytes are no message of this protocol.
    Malformed,
    /// The message belongs to another network than the consumer's.
    WrongNetwork,
}

fn append(out: &mut Vec<u8>, b: &[u8])
    ensures
        final(out)@ == old(out)@ + b@,
{
    let mut i: usize = 0;
    while i < b.len()
        invariant
            i <= b@.len(),
            out@ == old(out)@ + b@.subrange(0, i as int),
        decreases b@.len() - i,
    {
        out.push(b[i]);
        i = i + 1;
        assert(out@ =~= old(out)@ + b@.subrange(0, i as int));
    }
    assert(b@.subrange(0, b@.len() as int) =~= b@);
}

fn tag_of(n: Network) -> (r: u8)
    ensures
        r == network_tag(n),
{
    match n {
        Network::Mainnet => 0,
        Network::Devnet => 1,
        Network::Testnet => 2,
    }
}

/// Frames an event as a message of `network`.
pub fn encode_event(e: &RawEvent, network: Network) -> (r: Vec<u8>)
    ensures
        r@ == wire(network_tag(network), event_view(*e)),
{
    let mut out: Vec<u8> = Vec::new();
    out.push(tag_of(network));
    match e {
        RawEvent::AccountUpdate { address, owner, data, slot } => {
            out.push(0);
            push_u64_le(&mut out, *slot);
            append(&mut out, address.as_slice());
            append(&mut out, owner.as_slice());
            append(&mut out, data.as_slice());
            assert(out@ =~= wire(network_tag(network), event_view(*e)));
        },
        RawEvent::Instruction { program, data, accounts, slot } => {
            out.push(1);
            push_u64_le(&mut out, *slot);
            append(&mut out, program.as_slice());
            push_u64_le(&mut out, accounts.len() as u64);
            let ghost base = out@;
            let ghost views = account_views(accounts@);
            let mut i: usize = 0;
            while i < accounts.len()
                invariant
                    i <= accounts@.len(),
                    views == account_views(accounts@),
                    out@ == base + flat(views.take(i as int)),
                decreases accounts@.len() - i,
            {
                append(&mut out, accounts[i].as_slice());
                assert(views.take(i + 1).drop_last() =~= views.take(i as int));
                i = i + 1;
                assert(out@ =~= base + flat(views.take(i as int)));
            }
            assert(views.take(accounts@.len() as int) =~= views);
            append(&mut out, data.as_slice());
            assert(out@ =~= wire(network_tag(network), event_view(*e)));
        },
    }
    out
}

/// The payload bytes `b[10 + from .. 10 + to]`.
proof fn lemma_payload_range(b: Seq<u8>, from: int, to: int)
    requires
        0 <= from <= to,
        HEADER_LEN + to <= b.len(),
    ensures
        b.subrange(10, b.len() as int).subrange(from, to) == b.subrange(10 + from, 10 + to),
{
    assert(b.subrange(10, b.len() as int).subrange(from, to) =~= b.subrange(10 + from, 10 + to));
}

/// Reads a message of the consumer's network `expected` back into an event.
pub fn decode_event(b: &[u8], expected: Network) -> (r: Result<RawEvent, TransportError>)
    ensures
        unwire(b@) is None <==> r == Err::<RawEvent, TransportError>(TransportError::Malformed),
        unwire(b@) matches Some(m) ==> (m.0 != network_tag(expected) <==> r
            == Err::<RawEvent, TransportError>(TransportError::WrongNetwork)),
        r matches Ok(e) ==> unwire(b@) == Some((network_tag(expected), event_view(e))),
{
    let n = b.len();
    if n < HEADER_LEN || b[0] > 2 || b[1] > 1 {
        return Err(TransportError::Malformed);
    }
    let slot = read_u64_le(b, 2);
    let ghost p = b@.subrange(10, n as int);
    if b[1] == 0 {
        if n - HEADER_LEN < 64 {
            return Err(TransportError::Malformed);
        }
        if b[0] != tag_of(expected) {
            return Err(TransportError::WrongNetwork);
        }
        let address = copy_range(b, 10, 42);
        let owner = copy_range(b, 42, 74);
        let data = copy_range(b, 74, n);
        proof {
            lemma_payload_range(b@, 0, 32);
            lemma_payload_range(b@, 32, 64);
            lemma_payload_range(b@, 64, p.len() as int);
        }
        Ok(RawEvent::AccountUpdate { address, owner, data, slot })
    } else {
        if n - HEADER_LEN < 40 {
            return Err(TransportError::Malformed);
        }
        let count = read_u64_le(b, 42);
        proof {
            lemma_payload_range(b@, 32, 40);
        }
        let room: usize = (n - 50) / 32;
        if count > room as u64 {
            assert(40 + 32 * (count as int) > p.len()) by (nonlinear_arith)
                requires
                    count > room,
                    room == (n - 50) / 32,
                    p.len() == n - 10,
                    n >= 50,
            ;
            return Err(TransportError::Malformed);
        }
        assert(40 + 32 * (count as int) <= p.len()) by (nonlinear_arith)
            requires
                count <= room,
                room == (n - 50) / 32,
                p.len() == n - 10,
                n >= 50,
        ;
        if b[0] != tag_of(expected) {
            return Err(TransportError::WrongNetwork);
        }
        let c = count as usize;
        let program = copy_range(b, 10, 42);
        let mut accounts: Vec<Vec<u8>> = Vec::new();
        let mut i: usize = 0;
        while i < c
            invariant
                i <= c,
                c == count,
                50 + 32 * c <= n,
                n == b@.len(),
                p == b@.subrange(10, n as int),
                accounts@.len() == i,
                forall|j: int| 0 <= j < i ==> (#[trigger] accounts@[j])@ == p.subrange(40 + 32 * j, 72 + 32 * j),
            decreases c - i,
        {
            let at = 50 + 32 * i;
            let a = copy_range(b, at, at + 32);
            proof {
                lemma_payload_range(b@, 40 + 32 * i, 72 + 32 * i);
            }
            accounts.push(a);
            i = i + 1;
        }
        let data = copy_range(b, 50 + 32 * c, n);
        proof {
            lemma_payload_range(b@, 0, 32);
            lemma_payload_range(b@, 40 + 32 * c, p.len() as int);
            assert(account_views(accounts@) =~= Seq::new(count as nat, |i: int| p.subrange(40 + 32 * i, 72 + 32 * i)));
        }
        Ok(RawEvent::Instruction { program, data, accounts, slot })
    }
}

/// The bytes of addresses of an address's length, one after the other, have
/// each address at its place.
proof fn lemma_flat(s: Seq<Seq<u8>>)
    requires
        forall|i: int| 0 <= i < s.len() ==> (#[trigger] s[i]).len() == ADDRESS_LEN,
    ensures
        flat(s).len() == 32 * s.len(),
        forall|i: int| 0 <= i < s.len() ==> flat(s).subrange(32 * i, 32 * i + 32) == #[trigger] s[i],
    decreases s.len(),
{
    if s.len() > 0 {
        let init = s.drop_last();
        assert forall|i: int| 0 <= i < init.len() implies (#[trigger] init[i]).len() == ADDRESS_LEN by {
            assert(init[i] == s[i]);
        }
        lemma_flat(init);
        let f = flat(init);
        assert forall|i: int| 0 <= i < s.len() implies flat(s).subrange(32 * i, 32 * i + 32) == #[trigger] s[i] by {
            if i < init.len() {
                assert(init[i] == s[i]);
                assert(flat(s).subrange(32 * i, 32 * i + 32) =~= f.subrange(32 * i, 32 * i + 32));
            } else {
                assert(flat(s).subrange(32 * i, 32 * i + 32) =~= s.last());
            }
        }
    }
}

/// A well-formed event framed as a message of a network reads back as the
/// same event of the same network: same bytes, same accounts, same slot.
pub proof fn lemma_transport_round_trip(tag: u8, v: EventView)
    requires
        tag <= 2,
        view_wf(v),
        v.4.len() <= u64::MAX,
    ensures
        unwire(wire(tag, v)) == Some((tag, v)),
{
    let b = wire(tag, v);
    lemma_le_round_trip(v.5);
    assert(b.subrange(2, 10) =~= le_bytes(v.5));
    let p = b.subrange(10, b.len() as int);
    assert(p =~= payload(v));
    if v.0 == 0 {
        assert(p.subrange(0, 32) =~= v.1);
        assert(p.subrange(32, 64) =~= v.2);
        assert(p.subrange(64, p.len() as int) =~= v.3);
        assert(seq![] =~= v.4);
    } else {
        let n: int = v.4.len() as int;
        lemma_le_round_trip(n as u64);
        lemma_flat(v.4);
        assert(p.subrange(0, 32) =~= v.1);
        assert(p.subrange(32, 40) =~= le_bytes(n as u64));
        let f = flat(v.4);
        assert(p.subrange(40 + 32 * n, p.len() as int) =~= v.3);
        let accts = Seq::new(n as nat, |i: int| p.subrange(40 + 32 * i, 72 + 32 * i));
        assert forall|i: int| 0 <= i < n implies accts[i] == v.4[i] by {
            assert(p.subrange(40 + 32 * i, 72 + 32 * i) =~= f.subrange(32 * i, 32 * i + 32));
        }
        assert(accts =~= v.4);
        assert(v.2 =~= seq![]);
    }
}

/// An event whose addresses are each an address's length, framed as a
/// message of `network`, reads back on that network as the same event:
/// byte-identical instruction bytes, the same accounts in order, the same slot.
pub proof fn lemma_event_round_trip(e: RawEvent, network: Network)
    requires
        view_wf(event_view(e)),
    ensures
        unwire(wire(network_tag(network), event_view(e))) == Some((network_tag(network), event_view(e))),
{
    if let RawEvent::Instruction { accounts, .. } = e {
        assert(account_views(accounts@).len() == accounts@.len());
        vstd::std_specs::vec::axiom_spec_len(&accounts);
    }
    lemma_transport_round_trip(network_tag(network), event_view(e));
}

/// A message cut inside its header is malformed.
pub proof fn lemma_truncated_header_malformed(b: Seq<u8>, keep: int)
    requires
        0 <= keep < HEADER_LEN,
        keep <= b.len(),
    ensures
        unwire(b.subrange(0, keep)) is None,
{
}

/// Frames an account update for the broker if its owning program is
/// selected; `None` drops it.
pub fn forward_account(selector: &AccountSelector, e: &RawEvent, network: Network) -> (r: Option<Vec<u8>>)
    requires
        e is AccountUpdate,
    ensures
        r is Some <==> selector.owners.accepted().contains(e->AccountUpdate_owner@),
        r matches Some(b) ==> b@ == wire(network_tag(network), event_view(*e)),
{
    match e {
        RawEvent::AccountUpdate { owner, .. } => {
            if selector.accepts_account(owner.as_slice()) {
                Some(encode_event(e, network))
            } else {
                None
            }
        },
        RawEvent::Instruction { .. } => None,
    }
}

/// Frames an instruction for the broker if its program is selected; `None`
/// drops it.
pub fn forward_instruction(selector: &InstructionSelector, e: &RawEvent, network: Network) -> (r: Option<Vec<u8>>)
    requires
        e is Instruction,
    ensures
        r is Some <==> selector.programs.accepted().contains(e->Instruction_program@),
        r matches Some(b) ==> b@ == wire(network_tag(network), event_view(*e)),
{
    match e {
        RawEvent::Instruction { program, .. } => {
            if selector.accepts_instruction(program.as_slice()) {
                Some(encode_event(e, network))
            } else {
                None
            }
        },
        RawEvent::AccountUpdate { .. } => None,
    }
}

} // verus!
