//! Address tickets: a peer's transport address as a shareable token.
//!
//! An address — node identifier, optional relay, direct addresses — is
//! serialized into a structured byte record of length-prefixed fields and
//! then encoded with the BASE32 alphabet, robust to copy and paste.
//! Decoding the text `encode` produced yields the address again; text the
//! alphabet decoder rejects, or whose bytes do not spell a well-formed
//! record, fails with `InvalidTicket`. The alphabet encoding comes from an
//! outside library; the record format and its parser are this crate's
//! own, so the round trip is proved here.

use vstd::prelude::*;

use crate::errors::SessionError;
use crate::framing::{
    lemma_wire_round_trip, lemma_wire_stream_push, parse_wire_stream, wire_message, wire_stream,
    WireDecoder,
};

verus! {

/// Copy one byte field.
fn copy_bytes(v: &Vec<u8>) -> (r: Vec<u8>)
    ensures
        r@ == v@,
{
    let mut out: Vec<u8> = Vec::new();
    let mut i: usize = 0;
    while i < v.len()
        invariant
            i <= v@.len(),
            out@ == v@.subrange(0, i as int),
        decreases v@.len() - i,
    {
        out.push(v[i]);
        i = i + 1;
        assert(out@ =~= v@.subrange(0, i as int));
    }
    assert(out@ =~= v@);
    out
}

/// A peer's transport address, as plain values: the 32-byte node
/// identifier, an optional relay locator, and any number of direct
/// socket addresses, all as UTF-8 bytes where they are textual.
#[derive(Debug, Clone, PartialEq, Eq)]
pub struct NodeAddress {
    /// The peer's 32-byte public identifier.
    pub node_id: Vec<u8>,
    /// Locator of the relay the peer is reachable through, if any.
    pub relay_url: Option<Vec<u8>>,
    /// Direct socket addresses the peer listens on.
    pub direct_addresses: Vec<Vec<u8>>,
}

/// The mathematical shape of a [`NodeAddress`].
pub ghost struct NodeAddressView {
    pub node_id: Seq<u8>,
    pub relay_url: Option<Seq<u8>>,
    pub direct_addresses: Seq<Seq<u8>>,
}

impl View for NodeAddress {
    type V = NodeAddressView;

    open spec fn view(&self) -> NodeAddressView {
        NodeAddressView {
            node_id: self.node_id@,
            relay_url: match self.relay_url {
                Some(u) => Some(u@),
                None => None,
            },
            direct_addresses: self.direct_addresses.deep_view(),
        }
    }
}

/// An address the record format can carry: a 32-byte identifier and
/// fields short enough for their length prefixes.
pub open spec fn addr_wf(a: NodeAddressView) -> bool {
    &&& a.node_id.len() == 32
    &&& (a.relay_url matches Some(u) ==> u.len() + 1 <= u32::MAX)
    &&& forall|i: int|
        0 <= i < a.direct_addresses.len() ==> (#[trigger] a.direct_addresses[i]).len() <= u32::MAX
}

/// The field that stands for the optional relay: one marker byte, then
/// the locator if present.
pub open spec fn relay_field(r: Option<Seq<u8>>) -> Seq<u8> {
    match r {
        None => seq![0u8],
        Some(u) => seq![1u8] + u,
    }
}

/// The record's fields: identifier, relay field, then each direct address.
pub open spec fn record_fields(a: NodeAddressView) -> Seq<Seq<u8>> {
    seq![a.node_id, relay_field(a.relay_url)] + a.direct_addresses
}

/// The serialized address: its fields, each length-prefixed.
pub open spec fn addr_record(a: NodeAddressView) -> Seq<u8> {
    wire_stream(record_fields(a))
}

/// Whether a field is a well-formed relay field.
pub open spec fn valid_relay_field(f: Seq<u8>) -> bool {
    f == seq![0u8] || (f.len() >= 1 && f[0] == 1)
}

/// The relay option a well-formed relay field stands for.
pub open spec fn relay_of_field(f: Seq<u8>) -> Option<Seq<u8>>
    recommends
        valid_relay_field(f),
{
    if f == seq![0u8] {
        None
    } else {
        Some(f.skip(1))
    }
}

/// The address spelled by a sequence of record fields, if they are valid.
pub open spec fn fields_to_addr(fields: Seq<Seq<u8>>) -> Option<NodeAddressView> {
    if fields.len() >= 2 && fields[0].len() == 32 && valid_relay_field(fields[1]) {
        Some(
            NodeAddressView {
                node_id: fields[0],
                relay_url: relay_of_field(fields[1]),
                direct_addresses: fields.skip(2),
            },
        )
    } else {
        None
    }
}

/// The address spelled by a serialized record, or `None` if the record or
/// its fields are malformed.
pub open spec fn parse_addr_record(b: Seq<u8>) -> Option<NodeAddressView> {
    match parse_wire_stream(b, u32::MAX) {
        Some(fields) => fields_to_addr(fields),
        None => None,
    }
}

/// Serializing an address and parsing the record back yields the address:
/// decoding a ticket built from any well-formed address gives that address,
/// since `encode` and `decode` are exact about this record format and the
/// alphabet encoding around it is an inverse pair.
pub proof fn lemma_ticket_round_trip(a: NodeAddressView)
    requires
        addr_wf(a),
    ensures
        parse_addr_record(addr_record(a)) == Some(a),
{
    let fields = record_fields(a);
    assert forall|i: int| 0 <= i < fields.len() implies (#[trigger] fields[i]).len()
        <= u32::MAX by {
        if i >= 2 {
            assert(fields[i] == a.direct_addresses[i - 2]);
        }
    }
    lemma_wire_round_trip(fields, u32::MAX);
    assert(fields[0] == a.node_id);
    assert(fields[1] == relay_field(a.relay_url));
    match a.relay_url {
        None => {
            assert(valid_relay_field(fields[1]));
            assert(relay_of_field(fields[1]) == a.relay_url);
        },
        Some(u) => {
            assert(fields[1][0] == 1);
            assert(fields[1] != seq![0u8]);
            assert(fields[1].skip(1) =~= u);
        },
    }
    assert(fields.skip(2) =~= a.direct_addresses);
}

/// Split a serialized record into its length-prefixed fields.
fn split_fields(data: &[u8]) -> (r: Result<Vec<Vec<u8>>, SessionError>)
    ensures
        parse_wire_stream(data@, u32::MAX) matches Some(fields) ==> (r matches Ok(v)
            && v.deep_view() == fields),
        parse_wire_stream(data@, u32::MAX) is None ==> r == Err::<Vec<Vec<u8>>, _>(
            SessionError::InvalidTicket,
        ),
{
    let mut decoder = WireDecoder::new(u32::MAX);
    decoder.feed(data);
    assert(decoder.buffered() =~= data@);
    let mut fields: Vec<Vec<u8>> = Vec::new();
    loop
        invariant
            decoder.cap_spec() == u32::MAX,
            parse_wire_stream(data@, u32::MAX) is None <==> parse_wire_stream(
                decoder.buffered(),
                u32::MAX,
            ) is None,
            parse_wire_stream(data@, u32::MAX) matches Some(all) ==> (parse_wire_stream(
                decoder.buffered(),
                u32::MAX,
            ) matches Some(rest) && all == fields.deep_view() + rest),
        decreases decoder.buffered().len(),
    {
        let ghost prebuf = decoder.buffered();
        let ghost prefields = fields.deep_view();
        match decoder.next_message() {
            Ok(Some(m)) => {
                proof {
                    if parse_wire_stream(data@, u32::MAX) is Some {
                        let rest = parse_wire_stream(prebuf, u32::MAX).unwrap();
                        assert(rest == seq![m@] + parse_wire_stream(
                            decoder.buffered(),
                            u32::MAX,
                        ).unwrap());
                    }
                }
                let ghost mv = m@;
                fields.push(m);
                proof {
                    assert(fields.deep_view() =~~= prefields.push(mv));
                    if parse_wire_stream(data@, u32::MAX) is Some {
                        let rest2 = parse_wire_stream(decoder.buffered(), u32::MAX).unwrap();
                        assert(prefields + (seq![mv] + rest2) =~= prefields.push(mv) + rest2);
                    }
                }
            },
            Ok(None) => {
                if decoder.buffered_len() == 0 {
                    proof {
                        if parse_wire_stream(data@, u32::MAX) is Some {
                            assert(parse_wire_stream(decoder.buffered(), u32::MAX)
                                == Some(Seq::<Seq<u8>>::empty()));
                            assert(parse_wire_stream(data@, u32::MAX).unwrap()
                                =~= fields.deep_view());
                        }
                    }
                    return Ok(fields);
                }
                proof {
                    assert(parse_wire_stream(decoder.buffered(), u32::MAX) is None);
                }
                return Err(SessionError::InvalidTicket);
            },
            Err(_) => {
                // The cap is the largest value a length prefix can spell,
                // so the decoder can never refuse one.
                proof {
                    assert(false);
                }
                return Err(SessionError::InvalidTicket);
            },
        }
    }
}

/// Check that an address fits the record format.
fn addr_is_wf(addr: &NodeAddress) -> (b: bool)
    ensures
        b == addr_wf(addr@),
{
    if addr.node_id.len() != 32 {
        return false;
    }
    match &addr.relay_url {
        Some(u) => {
            if u.len() > (u32::MAX - 1) as usize {
                return false;
            }
        },
        None => {},
    }
    let mut i: usize = 0;
    while i < addr.direct_addresses.len()
        invariant
            i <= addr.direct_addresses@.len(),
            forall|k: int|
                0 <= k < i ==> (#[trigger] addr@.direct_addresses[k]).len() <= u32::MAX,
        decreases addr.direct_addresses@.len() - i,
    {
        if addr.direct_addresses[i].len() > u32::MAX as usize {
            assert(addr@.direct_addresses[i as int].len() > u32::MAX);
            return false;
        }
        assert(addr@.direct_addresses[i as int].len() <= u32::MAX);
        i = i + 1;
    }
    true
}

/// Serialize an address into its record; fails with `InvalidTicket`
/// exactly when the address does not fit the record format.
pub fn build_record(addr: &NodeAddress) -> (r: Result<Vec<u8>, SessionError>)
    ensures
        addr_wf(addr@) ==> (r matches Ok(v) && v@ == addr_record(addr@)),
        !addr_wf(addr@) ==> r == Err::<Vec<u8>, _>(SessionError::InvalidTicket),
{
    if !addr_is_wf(addr) {
        return Err(SessionError::InvalidTicket);
    }
    let ghost allfields = record_fields(addr@);
    let mut relay: Vec<u8> = Vec::new();
    match &addr.relay_url {
        None => {
            relay.push(0u8);
            assert(relay@ =~= relay_field(addr@.relay_url));
        },
        Some(u) => {
            relay.push(1u8);
            let mut rest = copy_bytes(u);
            relay.append(&mut rest);
            assert(relay@ =~= relay_field(addr@.relay_url));
        },
    }
    let mut out: Vec<u8> = match crate::framing::encode_wire_message(
        addr.node_id.as_slice(),
        u32::MAX,
    ) {
        Ok(v) => v,
        Err(_) => {
            return Err(SessionError::InvalidTicket);
        },
    };
    let mut relay_msg: Vec<u8> = match crate::framing::encode_wire_message(
        relay.as_slice(),
        u32::MAX,
    ) {
        Ok(v) => v,
        Err(_) => {
            return Err(SessionError::InvalidTicket);
        },
    };
    out.append(&mut relay_msg);
    proof {
        let two = allfields.take(2);
        assert(two.len() == 2);
        assert(two[0] == addr@.node_id);
        assert(two.skip(1) =~= seq![relay_field(addr@.relay_url)]);
        assert(two.skip(1)[0] == relay_field(addr@.relay_url));
        assert(two.skip(1).skip(1) =~= Seq::<Seq<u8>>::empty());
        assert(wire_stream(two.skip(1)) == wire_message(relay_field(addr@.relay_url))
            + wire_stream(two.skip(1).skip(1)));
        assert(wire_stream(two.skip(1)) =~= wire_message(relay_field(addr@.relay_url)));
        assert(wire_stream(two) == wire_message(addr@.node_id) + wire_stream(two.skip(1)));
        assert(out@ =~= wire_stream(two));
    }
    let mut i: usize = 0;
    while i < addr.direct_addresses.len()
        invariant
            i <= addr.direct_addresses@.len(),
            addr_wf(addr@),
            allfields == record_fields(addr@),
            out@ == wire_stream(allfields.take(2 + i as int)),
        decreases addr.direct_addresses@.len() - i,
    {
        proof {
            assert(addr@.direct_addresses[i as int].len() <= u32::MAX);
            assert(addr.direct_addresses@[i as int]@.len() == addr@.direct_addresses[
                i as int].len());
        }
        let mut field_msg: Vec<u8> = match crate::framing::encode_wire_message(
            addr.direct_addresses[i].as_slice(),
            u32::MAX,
        ) {
            Ok(v) => v,
            Err(_) => {
                return Err(SessionError::InvalidTicket);
            },
        };
        out.append(&mut field_msg);
        proof {
            assert(allfields[2 + i as int] == addr@.direct_addresses[i as int]);
            assert(allfields.take(2 + i as int + 1) =~= allfields.take(2 + i as int).push(
                allfields[2 + i as int],
            ));
            lemma_wire_stream_push(allfields.take(2 + i as int), allfields[2 + i as int]);
        }
        i = i + 1;
    }
    proof {
        assert(allfields.take(2 + i as int) =~= allfields);
    }
    Ok(out)
}

/// Rebuild an address from its record; fails with `InvalidTicket` exactly
/// when the bytes do not spell a well-formed record.
pub fn parse_record(data: &[u8]) -> (r: Result<NodeAddress, SessionError>)
    ensures
        parse_addr_record(data@) matches Some(av) ==> (r matches Ok(a) && a@ == av),
        parse_addr_record(data@) is None ==> r == Err::<NodeAddress, _>(
            SessionError::InvalidTicket,
        ),
{
    let mut fields = match split_fields(data) {
        Ok(v) => v,
        Err(e) => {
            return Err(e);
        },
    };
    let ghost fieldsv = fields.deep_view();
    if fields.len() < 2 {
        return Err(SessionError::InvalidTicket);
    }
    let node_id = fields.remove(0);
    let mut relay = fields.remove(0);
    proof {
        assert(node_id@ == fieldsv[0]);
        assert(relay@ == fieldsv[1]);
        assert(fields.deep_view() =~= fieldsv.skip(2));
    }
    if node_id.len() != 32 {
        return Err(SessionError::InvalidTicket);
    }
    let relay_url: Option<Vec<u8>> = if relay.len() >= 1 && relay[0] == 0u8 {
        if relay.len() != 1 {
            assert(!valid_relay_field(fieldsv[1]));
            return Err(SessionError::InvalidTicket);
        }
        assert(fieldsv[1] =~= seq![0u8]);
        None
    } else if relay.len() >= 1 && relay[0] == 1u8 {
        assert(fieldsv[1] != seq![0u8]);
        let _marker = relay.remove(0);
        assert(relay@ =~= fieldsv[1].skip(1));
        Some(relay)
    } else {
        assert(fieldsv[1] != seq![0u8]);
        return Err(SessionError::InvalidTicket);
    };
    let addr = NodeAddress { node_id, relay_url, direct_addresses: fields };
    Ok(addr)
}

/// The BASE32 text that stands for a byte string; determined by the bytes
/// alone.
pub uninterp spec fn base32_of(b: Seq<u8>) -> Seq<char>;

/// The characters ticket text is made of: the RFC 4648 base32 alphabet
/// and its padding.
pub open spec fn is_base32_char(c: char) -> bool {
    ('A' <= c && c <= 'Z') || ('2' <= c && c <= '7') || c == '='
}

/// Relies on data_encoding::BASE32.encode: RFC 4648 base32 encoding is
/// deterministic — its output depends on the input bytes alone — and is
/// spelled entirely in the symbols A to Z and 2 to 7 plus the padding
/// character.
#[verifier::external_body]
fn base32_encode(b: &Vec<u8>) -> (r: String)
    ensures
        r@ == base32_of(b@),
        forall|i: int| 0 <= i < r@.len() ==> is_base32_char(#[trigger] r@[i]),
{
    data_encoding::BASE32.encode(b.as_slice())
}

/// Relies on data_encoding::BASE32.decode: the library documents that
/// decoding is correct (encoding then decoding gives the initial data)
/// and deterministic. Because the encoding pads, it is not canonical:
/// decode also accepts some texts that no single encoding produced, such
/// as concatenations of padded blocks, so nothing is claimed about which
/// texts it rejects.
#[verifier::external_body]
fn base32_decode(s: &str) -> (r: Result<Vec<u8>, SessionError>)
    ensures
        (exists|b: Seq<u8>| s@ == base32_of(b)) ==> r is Ok,
        r matches Ok(d) ==> forall|b: Seq<u8>| s@ == base32_of(b) ==> d@ == b,
{
    match data_encoding::BASE32.decode(s.as_bytes()) {
        Ok(v) => Ok(v),
        Err(_) => Err(SessionError::InvalidTicket),
    }
}

/// A peer's address as a shareable token.
#[derive(Debug, Clone, PartialEq, Eq)]
pub struct Ticket {
    /// The address the ticket carries.
    pub node_addrs: NodeAddress,
}

impl Ticket {
    pub fn new(node_addr: NodeAddress) -> (t: Ticket)
        ensures
            t.node_addrs == node_addr,
    {
        Ticket { node_addrs: node_addr }
    }

    /// The ticket's text: the BASE32 encoding of the address record,
    /// spelled entirely in the shareable alphabet A to Z, 2 to 7 and the
    /// padding character. Fails with `InvalidTicket` exactly when the
    /// address does not fit the record format.
    pub fn encode(&self) -> (r: Result<String, SessionError>)
        ensures
            addr_wf(self.node_addrs@) ==> (r matches Ok(s) && s@ == base32_of(
                addr_record(self.node_addrs@),
            ) && forall|i: int| 0 <= i < s@.len() ==> is_base32_char(#[trigger] s@[i])),
            !addr_wf(self.node_addrs@) ==> r == Err::<String, _>(SessionError::InvalidTicket),
    {
        let record = match build_record(&self.node_addrs) {
            Ok(v) => v,
            Err(e) => {
                return Err(e);
            },
        };
        Ok(base32_encode(&record))
    }

    /// On the text of any encodable record, `decode` yields exactly that
    /// record's address; a text the alphabet decoder rejects, or whose
    /// bytes do not spell a well-formed record, fails with
    /// `InvalidTicket`. (The alphabet's padding lets some other texts
    /// decode to the same bytes, so a record's text is not claimed to be
    /// the only one that reaches its address.)
    pub fn decode(encoded_data: &str) -> (r: Result<Ticket, SessionError>)
        ensures
            forall|b: Seq<u8>|
                encoded_data@ == base32_of(b) ==> (match parse_addr_record(b) {
                    Some(av) => r matches Ok(t) && t.node_addrs@ == av,
                    None => r == Err::<Ticket, _>(SessionError::InvalidTicket),
                }),
    {
        let bytes = match base32_decode(encoded_data) {
            Ok(v) => v,
            Err(_) => {
                return Err(SessionError::InvalidTicket);
            },
        };
        match parse_record(bytes.as_slice()) {
            Ok(addr) => Ok(Ticket { node_addrs: addr }),
            Err(_) => Err(SessionError::InvalidTicket),
        }
    }
}

} // verus!
