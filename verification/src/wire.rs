//! The wire codec: a fixed-layout header carrying the message id, the
//! message kind with its authority, and the destination, followed by the
//! payload bytes. Serializing and parsing are exact inverses on well-formed
//! messages.

use vstd::prelude::*;
use crate::crypto::{BLS_PK_LEN, BLS_SIG_LEN, ED_PK_LEN, ED_SIG_LEN};
use crate::enc::{enc_u16, enc_u32, lemma_u16_enc_of_bytes, lemma_u16_round_trip, lemma_u32_enc_of_bytes, lemma_u32_round_trip, push_bytes, push_u16, push_u32, read_segment, read_u16, read_u32};
use crate::errors::WireError;
use crate::signed::SigShare;
use crate::xor::{clone_bytes, XorName, XOR_NAME_LEN};

verus! {

/// The wire format version this codec speaks.
pub const MSG_VERSION: usize = 1;

/// A message id: sixteen bytes that identify one logical message. Retries of
/// the same logical message reuse the id, so receivers can deduplicate.
#[derive(Clone, Debug, PartialEq, Eq)]
pub struct MessageId {
    /// The id bytes.
    pub bytes: Vec<u8>,
}

impl MessageId {
    /// An id is sixteen bytes.
    pub open spec fn wf(&self) -> bool {
        self.bytes@.len() == 16
    }

    /// Builds an id from its bytes.
    pub fn from_bytes(bytes: Vec<u8>) -> (r: MessageId)
        requires
            bytes@.len() == 16,
        ensures
            r.wf(),
            r.bytes@ == bytes@,
    {
        MessageId { bytes }
    }

    /// Draws a fresh random id.
    pub fn new() -> (r: MessageId)
        ensures
            r.wf(),
    {
        let mut b = crate::crypto::random_bytes32();
        b.truncate(16);
        MessageId { bytes: b }
    }

    /// A fresh copy of the id.
    pub fn duplicate(&self) -> (r: MessageId)
        ensures
            r.bytes@ == self.bytes@,
    {
        MessageId { bytes: clone_bytes(&self.bytes) }
    }

    /// Whether two ids are the same.
    pub fn equals(&self, other: &MessageId) -> (r: bool)
        ensures
            r == (self.bytes@ == other.bytes@),
    {
        crate::xor::bytes_eq(&self.bytes, &other.bytes)
    }
}

/// A client's authority over a service message: its Ed25519 key and its
/// signature over the payload.
#[derive(Clone, Debug, PartialEq, Eq)]
pub struct ServiceAuth {
    /// The client's Ed25519 public key.
    pub public_key: Vec<u8>,
    /// The client's signature over the payload.
    pub signature: Vec<u8>,
}

impl ServiceAuth {
    /// Key and signature have their scheme's lengths.
    pub open spec fn wf(&self) -> bool {
        self.public_key@.len() == ED_PK_LEN && self.signature@.len() == ED_SIG_LEN
    }
}

/// A node's authority over a system message: its section key, its Ed25519
/// key and its signature over the payload.
#[derive(Clone, Debug, PartialEq, Eq)]
pub struct NodeAuth {
    /// The key of the section the node belongs to.
    pub section_pk: Vec<u8>,
    /// The node's Ed25519 public key.
    pub public_key: Vec<u8>,
    /// The node's signature over the payload.
    pub signature: Vec<u8>,
}

impl NodeAuth {
    /// Keys and signature have their schemes' lengths.
    pub open spec fn wf(&self) -> bool {
        self.section_pk@.len() == BLS_PK_LEN
            && self.public_key@.len() == ED_PK_LEN
            && self.signature@.len() == ED_SIG_LEN
    }
}

/// A share of a section's authority over a system message: the section key,
/// the source name and one BLS signature share over the payload.
#[derive(Clone, Debug, PartialEq, Eq)]
pub struct BlsShareAuth {
    /// The key of the signing section.
    pub section_pk: Vec<u8>,
    /// The name the message speaks for.
    pub src_name: XorName,
    /// One share of the section signature over the payload.
    pub sig_share: SigShare,
}

impl BlsShareAuth {
    /// Keys, name and share have their schemes' lengths; the key set is
    /// small enough for the header.
    pub open spec fn wf(&self) -> bool {
        self.section_pk@.len() == BLS_PK_LEN
            && self.src_name@.len() == XOR_NAME_LEN
            && self.sig_share.signature_share@.len() == BLS_SIG_LEN
            && self.sig_share.public_key_set@.len() < 60000
            && self.sig_share.index < 0x10000
    }
}

/// The kind of a wire message, with the authority that signs it.
#[derive(Clone, Debug, PartialEq, Eq)]
pub enum MsgKind {
    /// A client service message.
    ServiceMsg(ServiceAuth),
    /// A node-signed system message.
    NodeAuthMsg(NodeAuth),
    /// A BLS-share-signed system message.
    NodeBlsShareAuthMsg(BlsShareAuth),
}

/// The destination of a wire message.
#[derive(Clone, Debug, PartialEq, Eq)]
pub enum DstLocation {
    /// A single node, with the section key the sender believes it has.
    Node {
        /// The node's name.
        name: XorName,
        /// The destination section key the sender knows.
        section_pk: Vec<u8>,
    },
    /// A whole section, with the section key the sender believes it has.
    Section {
        /// The name locating the section.
        name: XorName,
        /// The destination section key the sender knows.
        section_pk: Vec<u8>,
    },
    /// An end user reached through its id in name space.
    EndUser {
        /// The user's id in name space.
        name: XorName,
    },
}

impl DstLocation {
    /// Names and keys have their schemes' lengths.
    pub open spec fn wf(&self) -> bool {
        match self {
            DstLocation::Node { name, section_pk } =>
                name@.len() == XOR_NAME_LEN && section_pk@.len() == BLS_PK_LEN,
            DstLocation::Section { name, section_pk } =>
                name@.len() == XOR_NAME_LEN && section_pk@.len() == BLS_PK_LEN,
            DstLocation::EndUser { name } => name@.len() == XOR_NAME_LEN,
        }
    }

    /// The destination section key, where the location carries one.
    pub open spec fn spec_section_pk(&self) -> Option<Seq<u8>> {
        match self {
            DstLocation::Node { section_pk, .. } => Option::Some(section_pk@),
            DstLocation::Section { section_pk, .. } => Option::Some(section_pk@),
            DstLocation::EndUser { .. } => Option::None,
        }
    }

    /// The destination name.
    pub open spec fn spec_name(&self) -> Seq<u8> {
        match self {
            DstLocation::Node { name, .. } => name@,
            DstLocation::Section { name, .. } => name@,
            DstLocation::EndUser { name } => name@,
        }
    }
}

/// The canonical bytes of a message kind.
pub open spec fn enc_kind(k: &MsgKind) -> Seq<u8> {
    match k {
        MsgKind::ServiceMsg(a) => seq![0u8] + a.public_key@ + a.signature@,
        MsgKind::NodeAuthMsg(a) => seq![1u8] + a.section_pk@ + a.public_key@ + a.signature@,
        MsgKind::NodeBlsShareAuthMsg(a) => seq![2u8] + a.section_pk@ + a.src_name@
            + enc_u16(a.sig_share.index as int)
            + enc_u32(a.sig_share.public_key_set@.len() as int)
            + a.sig_share.public_key_set@
            + a.sig_share.signature_share@,
    }
}

/// The canonical bytes of a destination.
pub open spec fn enc_dst(d: &DstLocation) -> Seq<u8> {
    match d {
        DstLocation::Node { name, section_pk } => seq![0u8] + name@ + section_pk@,
        DstLocation::Section { name, section_pk } => seq![1u8] + name@ + section_pk@,
        DstLocation::EndUser { name } => seq![2u8] + name@,
    }
}

/// Whether a message kind is well formed.
pub open spec fn kind_wf(k: &MsgKind) -> bool {
    match k {
        MsgKind::ServiceMsg(a) => a.wf(),
        MsgKind::NodeAuthMsg(a) => a.wf(),
        MsgKind::NodeBlsShareAuthMsg(a) => a.wf(),
    }
}

/// A wire message: the header fields and the opaque payload bytes.
#[derive(Clone, Debug, PartialEq, Eq)]
pub struct WireMsg {
    /// The message id.
    pub msg_id: MessageId,
    /// The kind and its authority.
    pub msg_kind: MsgKind,
    /// Where the message goes.
    pub dst_location: DstLocation,
    /// The serialized message body.
    pub payload: Vec<u8>,
}

/// The header length of a message: everything before the payload.
pub open spec fn spec_header_len(m: &WireMsg) -> int {
    4 + 16 + enc_kind(&m.msg_kind).len() as int + enc_dst(&m.dst_location).len() as int
}

/// The canonical bytes of a whole wire message.
pub open spec fn spec_serialize(m: &WireMsg) -> Seq<u8> {
    enc_u16(MSG_VERSION as int) + enc_u16(spec_header_len(m))
        + m.msg_id.bytes@ + enc_kind(&m.msg_kind) + enc_dst(&m.dst_location) + m.payload@
}

impl WireMsg {
    /// Well-formedness: every field has its scheme's length and the whole
    /// message fits the length fields of its encoding.
    pub open spec fn wf(&self) -> bool {
        &&& self.msg_id.wf()
        &&& kind_wf(&self.msg_kind)
        &&& self.dst_location.wf()
        &&& spec_header_len(self) < 0x10000
        &&& spec_header_len(self) + self.payload@.len() < 0x7fffffff
    }

    /// Builds a message from a serialized payload, a kind and a destination.
    pub fn new_msg(msg_id: MessageId, payload: Vec<u8>, msg_kind: MsgKind, dst_location: DstLocation) -> (r: Result<WireMsg, WireError>)
        requires
            msg_id.wf(),
            kind_wf(&msg_kind),
            dst_location.wf(),
        ensures
            r is Ok <==> payload@.len() < 0x7ffeffff,
            r matches Ok(m) ==> m.wf()
                && m.msg_id.bytes@ == msg_id.bytes@
                && m.msg_kind == msg_kind
                && m.dst_location == dst_location
                && m.payload@ == payload@,
    {
        if payload.len() >= 0x7ffeffff {
            return Err(WireError::Serialisation);
        }
        let m = WireMsg { msg_id, msg_kind, dst_location, payload };
        proof {
            lemma_kind_dst_len_bounds(&m);
        }
        Ok(m)
    }

    /// The message id.
    pub fn msg_id(&self) -> (r: &MessageId)
        ensures
            r == &self.msg_id,
    {
        &self.msg_id
    }

    /// Replaces the message id.
    pub fn set_msg_id(&mut self, msg_id: MessageId)
        ensures
            final(self).msg_id == msg_id,
            final(self).msg_kind == old(self).msg_kind,
            final(self).dst_location == old(self).dst_location,
            final(self).payload == old(self).payload,
    {
        self.msg_id = msg_id;
    }

    /// The message kind.
    pub fn msg_kind(&self) -> (r: &MsgKind)
        ensures
            r == &self.msg_kind,
    {
        &self.msg_kind
    }

    /// The destination.
    pub fn dst_location(&self) -> (r: &DstLocation)
        ensures
            r == &self.dst_location,
    {
        &self.dst_location
    }

    /// The destination section key, where the destination carries one.
    pub fn dst_section_pk(&self) -> (r: Option<&Vec<u8>>)
        ensures
            match r {
                Option::Some(k) => self.dst_location.spec_section_pk() == Option::Some(k@),
                Option::None => self.dst_location.spec_section_pk() is None,
            },
    {
        match &self.dst_location {
            DstLocation::Node { section_pk, .. } => Option::Some(section_pk),
            DstLocation::Section { section_pk, .. } => Option::Some(section_pk),
            DstLocation::EndUser { .. } => Option::None,
        }
    }

    /// Replaces the destination section key, where the destination carries
    /// one.
    pub fn set_dst_section_pk(&mut self, pk: Vec<u8>)
        requires
            pk@.len() == BLS_PK_LEN,
        ensures
            final(self).msg_id == old(self).msg_id,
            final(self).msg_kind == old(self).msg_kind,
            final(self).payload == old(self).payload,
            final(self).dst_location.spec_name() == old(self).dst_location.spec_name(),
            old(self).dst_location.spec_section_pk() is Some
                ==> final(self).dst_location.spec_section_pk() == Option::Some(pk@),
            old(self).dst_location.spec_section_pk() is None
                ==> final(self).dst_location == old(self).dst_location,
            old(self).dst_location.wf() ==> final(self).dst_location.wf(),
            (old(self).dst_location is Node <==> final(self).dst_location is Node)
                && (old(self).dst_location is Section <==> final(self).dst_location is Section),
    {
        let name = match &self.dst_location {
            DstLocation::Node { name, .. } => name.duplicate(),
            DstLocation::Section { name, .. } => name.duplicate(),
            DstLocation::EndUser { name } => name.duplicate(),
        };
        match &self.dst_location {
            DstLocation::Node { .. } => {
                self.dst_location = DstLocation::Node { name, section_pk: pk };
            },
            DstLocation::Section { .. } => {
                self.dst_location = DstLocation::Section { name, section_pk: pk };
            },
            DstLocation::EndUser { .. } => {},
        }
    }

    /// Replaces the destination name.
    pub fn set_dst_xorname(&mut self, name: XorName)
        requires
            name.wf(),
        ensures
            final(self).msg_id == old(self).msg_id,
            final(self).msg_kind == old(self).msg_kind,
            final(self).payload == old(self).payload,
            final(self).dst_location.spec_name() == name@,
            final(self).dst_location.spec_section_pk()
                == old(self).dst_location.spec_section_pk(),
            old(self).dst_location.wf() ==> final(self).dst_location.wf(),
    {
        match &mut self.dst_location {
            DstLocation::Node { name: n, .. } => {
                *n = name;
            },
            DstLocation::Section { name: n, .. } => {
                *n = name;
            },
            DstLocation::EndUser { name: n } => {
                *n = name;
            },
        }
    }

    /// The source section key, where the kind carries one.
    pub fn src_section_pk(&self) -> (r: Option<&Vec<u8>>)
        ensures
            match r {
                Option::Some(k) => (self.msg_kind matches MsgKind::NodeAuthMsg(a) && a.section_pk@ == k@)
                    || (self.msg_kind matches MsgKind::NodeBlsShareAuthMsg(a) && a.section_pk@ == k@),
                Option::None => self.msg_kind is ServiceMsg,
            },
    {
        match &self.msg_kind {
            MsgKind::NodeAuthMsg(a) => Option::Some(&a.section_pk),
            MsgKind::NodeBlsShareAuthMsg(a) => Option::Some(&a.section_pk),
            MsgKind::ServiceMsg(_) => Option::None,
        }
    }

    /// The serialized message: the header bytes followed by the payload.
    pub fn serialize(&self) -> (r: Vec<u8>)
        requires
            self.wf(),
        ensures
            r@ == spec_serialize(self),
    {
        let mut out: Vec<u8> = Vec::new();
        push_u16(&mut out, MSG_VERSION);
        let header_len = self.header_len();
        push_u16(&mut out, header_len);
        push_bytes(&mut out, &self.msg_id.bytes);
        match &self.msg_kind {
            MsgKind::ServiceMsg(a) => {
                out.push(0u8);
                push_bytes(&mut out, &a.public_key);
                push_bytes(&mut out, &a.signature);
            },
            MsgKind::NodeAuthMsg(a) => {
                out.push(1u8);
                push_bytes(&mut out, &a.section_pk);
                push_bytes(&mut out, &a.public_key);
                push_bytes(&mut out, &a.signature);
            },
            MsgKind::NodeBlsShareAuthMsg(a) => {
                out.push(2u8);
                push_bytes(&mut out, &a.section_pk);
                push_bytes(&mut out, &a.src_name.bytes);
                push_u16(&mut out, a.sig_share.index);
                push_u32(&mut out, a.sig_share.public_key_set.len());
                push_bytes(&mut out, &a.sig_share.public_key_set);
                push_bytes(&mut out, &a.sig_share.signature_share);
            },
        }
        match &self.dst_location {
            DstLocation::Node { name, section_pk } => {
                out.push(0u8);
                push_bytes(&mut out, &name.bytes);
                push_bytes(&mut out, section_pk);
            },
            DstLocation::Section { name, section_pk } => {
                out.push(1u8);
                push_bytes(&mut out, &name.bytes);
                push_bytes(&mut out, section_pk);
            },
            DstLocation::EndUser { name } => {
                out.push(2u8);
                push_bytes(&mut out, &name.bytes);
            },
        }
        push_bytes(&mut out, &self.payload);
        proof {
            assert(out@ =~= spec_serialize(self));
        }
        out
    }

    /// The length of the header of this message's encoding.
    pub fn header_len(&self) -> (r: usize)
        requires
            self.wf(),
        ensures
            r == spec_header_len(self),
    {
        let kind_len: usize = match &self.msg_kind {
            MsgKind::ServiceMsg(_) => 1 + ED_PK_LEN + ED_SIG_LEN,
            MsgKind::NodeAuthMsg(_) => 1 + BLS_PK_LEN + ED_PK_LEN + ED_SIG_LEN,
            MsgKind::NodeBlsShareAuthMsg(a) => 1 + BLS_PK_LEN + XOR_NAME_LEN + 2 + 4
                + a.sig_share.public_key_set.len() + BLS_SIG_LEN,
        };
        let dst_len: usize = match &self.dst_location {
            DstLocation::Node { .. } => 1 + XOR_NAME_LEN + BLS_PK_LEN,
            DstLocation::Section { .. } => 1 + XOR_NAME_LEN + BLS_PK_LEN,
            DstLocation::EndUser { .. } => 1 + XOR_NAME_LEN,
        };
        4 + 16 + kind_len + dst_len
    }
}

/// The big-endian reading of two bytes at `i`.
pub open spec fn u16r(bytes: Seq<u8>, i: int) -> int {
    bytes[i] * 256 + bytes[i + 1]
}

/// The big-endian reading of four bytes at `i`.
pub open spec fn u32r(bytes: Seq<u8>, i: int) -> int {
    bytes[i] * 0x1000000 + bytes[i + 1] * 0x10000 + bytes[i + 2] * 256 + bytes[i + 3]
}

/// No well-formed message encodes to fewer than 150 bytes nor to more than
/// the codec's limit.
proof fn lemma_err_short(bytes: Seq<u8>)
    requires
        bytes.len() < 150 || bytes.len() >= 0x7fffffff,
    ensures
        forall|m: WireMsg| m.wf() ==> bytes != spec_serialize(&m),
{
    assert forall|m: WireMsg| m.wf() implies bytes != spec_serialize(&m) by {
        if bytes == spec_serialize(&m) {
            lemma_encoding_shape(&m, bytes);
        }
    };
}

/// Every well-formed encoding opens with this codec's version.
proof fn lemma_err_version(bytes: Seq<u8>)
    requires
        bytes.len() >= 4,
        u16r(bytes, 0) != MSG_VERSION,
    ensures
        forall|m: WireMsg| m.wf() ==> bytes != spec_serialize(&m),
{
    assert forall|m: WireMsg| m.wf() implies bytes != spec_serialize(&m) by {
        if bytes == spec_serialize(&m) {
            lemma_encoding_shape(&m, bytes);
            lemma_u16_round_trip(MSG_VERSION as int);
        }
    };
}

/// Every well-formed encoding declares a header of at least 150 bytes that
/// fits within the message.
proof fn lemma_err_header(bytes: Seq<u8>)
    requires
        bytes.len() >= 4,
        u16r(bytes, 2) < 150 || u16r(bytes, 2) > bytes.len(),
    ensures
        forall|m: WireMsg| m.wf() ==> bytes != spec_serialize(&m),
{
    assert forall|m: WireMsg| m.wf() implies bytes != spec_serialize(&m) by {
        if bytes == spec_serialize(&m) {
            lemma_encoding_shape(&m, bytes);
            lemma_u16_round_trip(spec_header_len(&m));
        }
    };
}

/// Every well-formed encoding carries a known kind tag, and a header long
/// enough for that kind.
proof fn lemma_err_kind(bytes: Seq<u8>)
    requires
        bytes.len() >= 150,
        !(bytes[20] == 0 || bytes[20] == 1 || bytes[20] == 2)
            || (bytes[20] == 1 && u16r(bytes, 2) < 198)
            || (bytes[20] == 2 && u16r(bytes, 2) < 236)
            || (bytes[20] == 2 && u16r(bytes, 2) >= 236
                && (u32r(bytes, 103) >= 60000
                    || 107 + u32r(bytes, 103) + 96 + 33 > u16r(bytes, 2))),
    ensures
        forall|m: WireMsg| m.wf() ==> bytes != spec_serialize(&m),
{
    assert forall|m: WireMsg| m.wf() implies bytes != spec_serialize(&m) by {
        if bytes == spec_serialize(&m) {
            lemma_encoding_shape(&m, bytes);
            lemma_u16_round_trip(spec_header_len(&m));
            lemma_dst_shape(&m, bytes);
            if bytes[20] == 2 {
                lemma_bls_share_fields(&m, bytes);
                match &m.msg_kind {
                    MsgKind::NodeBlsShareAuthMsg(a) => {
                        crate::enc::lemma_u32_round_trip(
                            a.sig_share.public_key_set@.len() as int);
                    },
                    _ => {},
                }
            }
        }
    };
}

/// Every well-formed encoding's destination follows its kind at `pos` and
/// fills the rest of the header exactly.
proof fn lemma_err_dst(bytes: Seq<u8>, pos: int)
    requires
        bytes.len() >= 150,
        bytes[20] == 0 ==> pos == 117,
        bytes[20] == 1 ==> pos == 165,
        bytes[20] == 2 ==> pos == 203 + u32r(bytes, 103),
        bytes[20] == 0 || bytes[20] == 1 || bytes[20] == 2,
        !(pos < u16r(bytes, 2)
            && ((bytes[pos] == 0 || bytes[pos] == 1) && pos + 81 == u16r(bytes, 2)
                || bytes[pos] == 2 && pos + 33 == u16r(bytes, 2))),
    ensures
        forall|m: WireMsg| m.wf() ==> bytes != spec_serialize(&m),
{
    assert forall|m: WireMsg| m.wf() implies bytes != spec_serialize(&m) by {
        if bytes == spec_serialize(&m) {
            lemma_encoding_shape(&m, bytes);
            lemma_u16_round_trip(spec_header_len(&m));
            lemma_dst_shape(&m, bytes);
            if bytes[20] == 2 {
                lemma_bls_share_fields(&m, bytes);
                match &m.msg_kind {
                    MsgKind::NodeBlsShareAuthMsg(a) => {
                        crate::enc::lemma_u32_round_trip(
                            a.sig_share.public_key_set@.len() as int);
                    },
                    _ => {},
                }
            }
        }
    };
}

impl WireMsg {
    /// Parses a serialized wire message. Succeeds exactly on the encodings of
    /// well-formed messages: the parsed message is well formed and
    /// serializes back to the input bytes.
    #[verifier::rlimit(100)]
    #[verifier::spinoff_prover]
    pub fn parse(bytes: &Vec<u8>) -> (r: Result<WireMsg, WireError>)
        ensures
            r matches Ok(m) ==> m.wf() && bytes@ == spec_serialize(&m),
            r is Err ==> forall|m: WireMsg| m.wf() ==> bytes@ != spec_serialize(&m),
    {
        let n = bytes.len();
        if n < 150 || (n as u64) >= 0x7fffffffu64 {
            proof {
                lemma_err_short(bytes@);
            }
            return Err(WireError::Malformed);
        }
        let version = read_u16(bytes, 0);
        if version != MSG_VERSION {
            proof {
                lemma_err_version(bytes@);
            }
            return Err(WireError::UnknownVersion);
        }
        let header_len = read_u16(bytes, 2);
        if header_len < 150 || header_len > n {
            proof {
                lemma_err_header(bytes@);
            }
            return Err(WireError::Malformed);
        }
        let msg_id = MessageId::from_bytes(read_segment(bytes, 4, 16));
        let kind_tag = bytes[20];
        let msg_kind: MsgKind;
        let pos: usize;
        if kind_tag == 0 {
            msg_kind = MsgKind::ServiceMsg(ServiceAuth {
                public_key: read_segment(bytes, 21, 32),
                signature: read_segment(bytes, 53, 64),
            });
            pos = 117;
        } else if kind_tag == 1 {
            if header_len < 198 {
                proof {
                    lemma_err_kind(bytes@);
                }
                return Err(WireError::Malformed);
            }
            msg_kind = MsgKind::NodeAuthMsg(NodeAuth {
                section_pk: read_segment(bytes, 21, 48),
                public_key: read_segment(bytes, 69, 32),
                signature: read_segment(bytes, 101, 64),
            });
            pos = 165;
        } else if kind_tag == 2 {
            if header_len < 236 {
                proof {
                    lemma_err_kind(bytes@);
                }
                return Err(WireError::Malformed);
            }
            let index = read_u16(bytes, 101);
            let set_len = read_u32(bytes, 103);
            if set_len >= 60000 || 107 + set_len + 96 + 33 > header_len {
                proof {
                    lemma_err_kind(bytes@);
                }
                return Err(WireError::Malformed);
            }
            msg_kind = MsgKind::NodeBlsShareAuthMsg(BlsShareAuth {
                section_pk: read_segment(bytes, 21, 48),
                src_name: XorName::from_bytes(read_segment(bytes, 69, 32)),
                sig_share: SigShare {
                    public_key_set: read_segment(bytes, 107, set_len),
                    index,
                    signature_share: read_segment(bytes, 107 + set_len, 96),
                },
            });
            pos = 107 + set_len + 96;
        } else {
            proof {
                lemma_err_kind(bytes@);
            }
            return Err(WireError::Malformed);
        }
        // the destination fills the rest of the header exactly
        if pos >= header_len {
            proof {
                lemma_err_dst(bytes@, pos as int);
            }
            return Err(WireError::Malformed);
        }
        let dst_tag = bytes[pos];
        let dst_location: DstLocation;
        if dst_tag == 0 || dst_tag == 1 {
            if pos + 81 != header_len {
                proof {
                    lemma_err_dst(bytes@, pos as int);
                }
                return Err(WireError::Malformed);
            }
            let name = XorName::from_bytes(read_segment(bytes, pos + 1, 32));
            let section_pk = read_segment(bytes, pos + 33, 48);
            dst_location = if dst_tag == 0 {
                DstLocation::Node { name, section_pk }
            } else {
                DstLocation::Section { name, section_pk }
            };
        } else if dst_tag == 2 {
            if pos + 33 != header_len {
                proof {
                    lemma_err_dst(bytes@, pos as int);
                }
                return Err(WireError::Malformed);
            }
            let name = XorName::from_bytes(read_segment(bytes, pos + 1, 32));
            dst_location = DstLocation::EndUser { name };
        } else {
            proof {
                lemma_err_dst(bytes@, pos as int);
            }
            return Err(WireError::Malformed);
        }
        let payload = read_segment(bytes, header_len, n - header_len);
        let m = WireMsg { msg_id, msg_kind, dst_location, payload };
        proof {
            lemma_parse_ok(&m, bytes@, header_len as int, pos as int);
        }
        Ok(m)
    }
}

/// Assembles the round trip: fields read from the given offsets of `bytes`
/// form a well-formed message whose encoding is `bytes`.
#[verifier::rlimit(100)]
#[verifier::spinoff_prover]
proof fn lemma_parse_ok(m: &WireMsg, bytes: Seq<u8>, header_len: int, pos: int)
    requires
        150 <= header_len <= bytes.len() < 0x7fffffff,
        u16r(bytes, 0) == MSG_VERSION,
        u16r(bytes, 2) == header_len,
        m.msg_id.bytes@ == bytes.subrange(4, 20),
        (m.msg_kind matches MsgKind::ServiceMsg(a) ==> bytes[20] == 0
            && pos == 117
            && a.public_key@ == bytes.subrange(21, 53)
            && a.signature@ == bytes.subrange(53, 117)),
        (m.msg_kind matches MsgKind::NodeAuthMsg(a) ==> bytes[20] == 1
            && pos == 165
            && a.section_pk@ == bytes.subrange(21, 69)
            && a.public_key@ == bytes.subrange(69, 101)
            && a.signature@ == bytes.subrange(101, 165)),
        (m.msg_kind matches MsgKind::NodeBlsShareAuthMsg(a) ==> bytes[20] == 2
            && a.section_pk@ == bytes.subrange(21, 69)
            && a.src_name@ == bytes.subrange(69, 101)
            && a.sig_share.index < 0x10000
            && a.sig_share.index as int == u16r(bytes, 101)
            && a.sig_share.public_key_set@.len() < 60000
            && a.sig_share.public_key_set@.len() as int == u32r(bytes, 103)
            && a.sig_share.public_key_set@
                == bytes.subrange(107, 107 + u32r(bytes, 103))
            && a.sig_share.signature_share@
                == bytes.subrange(107 + u32r(bytes, 103), 203 + u32r(bytes, 103))
            && pos == 203 + u32r(bytes, 103)),
        pos < header_len,
        (m.dst_location matches DstLocation::Node { name, section_pk } ==> bytes[pos] == 0
            && header_len == pos + 81
            && name@ == bytes.subrange(pos + 1, pos + 33)
            && section_pk@ == bytes.subrange(pos + 33, pos + 81)),
        (m.dst_location matches DstLocation::Section { name, section_pk } ==> bytes[pos] == 1
            && header_len == pos + 81
            && name@ == bytes.subrange(pos + 1, pos + 33)
            && section_pk@ == bytes.subrange(pos + 33, pos + 81)),
        (m.dst_location matches DstLocation::EndUser { name } ==> bytes[pos] == 2
            && header_len == pos + 33
            && name@ == bytes.subrange(pos + 1, pos + 33)),
        m.payload@ == bytes.subrange(header_len, bytes.len() as int),
    ensures
        m.wf(),
        bytes == spec_serialize(m),
{
    lemma_kind_segment(m, bytes, pos);
    lemma_dst_segment(m, bytes, pos, header_len);
    assert(spec_header_len(m) == header_len);
    assert(m.wf()) by {
        lemma_kind_dst_len_bounds(m);
    }
    lemma_u16_enc_of_bytes(bytes[0] as u8, bytes[1] as u8);
    lemma_u16_enc_of_bytes(bytes[2] as u8, bytes[3] as u8);
    assert(enc_u16(MSG_VERSION as int) =~= bytes.subrange(0, 2));
    assert(enc_u16(spec_header_len(m)) =~= bytes.subrange(2, 4));
    lemma_assemble(
        bytes,
        enc_u16(MSG_VERSION as int),
        enc_u16(spec_header_len(m)),
        m.msg_id.bytes@,
        enc_kind(&m.msg_kind),
        enc_dst(&m.dst_location),
        m.payload@,
        pos,
        header_len,
    );
}

/// The destination read back from its offsets encodes to the bytes it was
/// read from.
#[verifier::rlimit(100)]
#[verifier::spinoff_prover]
proof fn lemma_dst_segment(m: &WireMsg, bytes: Seq<u8>, pos: int, header_len: int)
    requires
        20 <= pos < header_len <= bytes.len(),
        (m.dst_location matches DstLocation::Node { name, section_pk } ==> bytes[pos] == 0
            && header_len == pos + 81
            && name@ == bytes.subrange(pos + 1, pos + 33)
            && section_pk@ == bytes.subrange(pos + 33, pos + 81)),
        (m.dst_location matches DstLocation::Section { name, section_pk } ==> bytes[pos] == 1
            && header_len == pos + 81
            && name@ == bytes.subrange(pos + 1, pos + 33)
            && section_pk@ == bytes.subrange(pos + 33, pos + 81)),
        (m.dst_location matches DstLocation::EndUser { name } ==> bytes[pos] == 2
            && header_len == pos + 33
            && name@ == bytes.subrange(pos + 1, pos + 33)),
    ensures
        enc_dst(&m.dst_location).len() as int == header_len - pos,
        enc_dst(&m.dst_location) =~= bytes.subrange(pos, header_len),
{
    assert(enc_dst(&m.dst_location) =~= bytes.subrange(pos, header_len));
}

/// Six consecutive slices of a byte string concatenate back to it.
#[verifier::spinoff_prover]
proof fn lemma_assemble(
    bytes: Seq<u8>,
    s1: Seq<u8>,
    s2: Seq<u8>,
    s3: Seq<u8>,
    s4: Seq<u8>,
    s5: Seq<u8>,
    s6: Seq<u8>,
    pos: int,
    header_len: int,
)
    requires
        20 <= pos <= header_len <= bytes.len(),
        s1 == bytes.subrange(0, 2),
        s2 == bytes.subrange(2, 4),
        s3 == bytes.subrange(4, 20),
        s4 == bytes.subrange(20, pos),
        s5 == bytes.subrange(pos, header_len),
        s6 == bytes.subrange(header_len, bytes.len() as int),
    ensures
        bytes == s1 + s2 + s3 + s4 + s5 + s6,
{
    assert(bytes =~= s1 + s2 + s3 + s4 + s5 + s6);
}

/// The kind read back from its offsets encodes to the bytes it was read from.
#[verifier::rlimit(100)]
#[verifier::spinoff_prover]
proof fn lemma_kind_segment(m: &WireMsg, bytes: Seq<u8>, pos: int)
    requires
        150 <= bytes.len(),
        (m.msg_kind matches MsgKind::ServiceMsg(a) ==> bytes[20] == 0
            && pos == 117
            && a.public_key@ == bytes.subrange(21, 53)
            && a.signature@ == bytes.subrange(53, 117)),
        (m.msg_kind matches MsgKind::NodeAuthMsg(a) ==> bytes[20] == 1
            && pos == 165
            && a.section_pk@ == bytes.subrange(21, 69)
            && a.public_key@ == bytes.subrange(69, 101)
            && a.signature@ == bytes.subrange(101, 165)),
        (m.msg_kind matches MsgKind::NodeBlsShareAuthMsg(a) ==> bytes[20] == 2
            && a.section_pk@ == bytes.subrange(21, 69)
            && a.src_name@ == bytes.subrange(69, 101)
            && a.sig_share.index < 0x10000
            && a.sig_share.index as int == u16r(bytes, 101)
            && a.sig_share.public_key_set@.len() < 60000
            && a.sig_share.public_key_set@.len() as int == u32r(bytes, 103)
            && a.sig_share.public_key_set@
                == bytes.subrange(107, 107 + u32r(bytes, 103))
            && a.sig_share.signature_share@
                == bytes.subrange(107 + u32r(bytes, 103), 203 + u32r(bytes, 103))
            && pos == 203 + u32r(bytes, 103)),
        pos <= bytes.len(),
    ensures
        enc_kind(&m.msg_kind).len() as int == pos - 20,
        enc_kind(&m.msg_kind) =~= bytes.subrange(20, pos),
{
    match &m.msg_kind {
        MsgKind::NodeBlsShareAuthMsg(a) => {
            lemma_u16_enc_of_bytes(bytes[101] as u8, bytes[102] as u8);
            lemma_u32_enc_of_bytes(bytes[103] as u8, bytes[104] as u8,
                bytes[105] as u8, bytes[106] as u8);
            assert(enc_u16(a.sig_share.index as int) =~= bytes.subrange(101, 103));
            assert(enc_u32(a.sig_share.public_key_set@.len() as int)
                =~= bytes.subrange(103, 107));
        },
        _ => {},
    }
    assert(enc_kind(&m.msg_kind) =~= bytes.subrange(20, pos));
}


/// A message whose authority was verified over its payload.
pub enum MessageType {
    /// A client service message under verified client authority.
    Service {
        /// The message id.
        msg_id: MessageId,
        /// The verified client authority.
        auth: ServiceAuth,
        /// The destination.
        dst_location: DstLocation,
        /// The serialized body.
        payload: Vec<u8>,
    },
    /// A system message under verified node or section-share authority.
    System {
        /// The message id.
        msg_id: MessageId,
        /// The verified authority.
        msg_authority: MsgKind,
        /// The destination.
        dst_location: DstLocation,
        /// The serialized body.
        payload: Vec<u8>,
    },
}

/// Whether the authority of a message kind verifies over the payload.
pub open spec fn spec_kind_verifies(k: &MsgKind, payload: Seq<u8>) -> bool {
    match k {
        MsgKind::ServiceMsg(a) => crate::crypto::ed_verifies(a.public_key@, a.signature@, payload),
        MsgKind::NodeAuthMsg(a) => crate::crypto::ed_verifies(a.public_key@, a.signature@, payload),
        MsgKind::NodeBlsShareAuthMsg(a) => crate::crypto::bls_share_verifies(
            a.sig_share.public_key_set@,
            a.sig_share.index as int,
            a.sig_share.signature_share@,
            payload,
        ),
    }
}

impl WireMsg {
    /// Checks the message's authority over its payload and hands out the
    /// authenticated message. Succeeds exactly when the kind's signature
    /// verifies over the payload: a client or node signature under its
    /// Ed25519 key, or a section signature share under its key set.
    pub fn into_message(self) -> (r: Result<MessageType, WireError>)
        ensures
            r is Ok <==> spec_kind_verifies(&self.msg_kind, self.payload@),
            r matches Ok(t) ==> match t {
                MessageType::Service { msg_id, auth, dst_location, payload } =>
                    self.msg_kind matches MsgKind::ServiceMsg(a)
                        && auth == a
                        && msg_id == self.msg_id
                        && dst_location == self.dst_location
                        && payload == self.payload,
                MessageType::System { msg_id, msg_authority, dst_location, payload } =>
                    !(self.msg_kind is ServiceMsg)
                        && msg_authority == self.msg_kind
                        && msg_id == self.msg_id
                        && dst_location == self.dst_location
                        && payload == self.payload,
            },
    {
        let verified = match &self.msg_kind {
            MsgKind::ServiceMsg(a) => crate::crypto::ed_verify(&a.public_key, &a.signature, &self.payload),
            MsgKind::NodeAuthMsg(a) => crate::crypto::ed_verify(&a.public_key, &a.signature, &self.payload),
            MsgKind::NodeBlsShareAuthMsg(a) => crate::crypto::bls_share_verify(
                &a.sig_share.public_key_set,
                a.sig_share.index,
                &a.sig_share.signature_share,
                &self.payload,
            ),
        };
        if !verified {
            return Err(WireError::BadSignature);
        }
        match self.msg_kind {
            MsgKind::ServiceMsg(a) => Ok(MessageType::Service {
                msg_id: self.msg_id,
                auth: a,
                dst_location: self.dst_location,
                payload: self.payload,
            }),
            k => Ok(MessageType::System {
                msg_id: self.msg_id,
                msg_authority: k,
                dst_location: self.dst_location,
                payload: self.payload,
            }),
        }
    }

    /// Parses bytes and checks the parsed message's authority in one step.
    pub fn deserialize(bytes: &Vec<u8>) -> (r: Result<MessageType, WireError>)
        ensures
            r matches Ok(t) ==> exists|m: WireMsg| m.wf() && bytes@ == spec_serialize(&m),
    {
        let m = match WireMsg::parse(bytes) {
            Result::Ok(m) => m,
            Result::Err(e) => {
                return Err(e);
            },
        };
        proof {
            assert(bytes@ == spec_serialize(&m));
        }
        m.into_message()
    }

    /// Authenticates and decodes a client service message. The payload must
    /// decode as a service body; the client's signature must cover the
    /// payload — except for a bounced service error answering a concrete
    /// message, whose authority must cover the payload it embeds, as the
    /// bounce reuses the answered message's authority.
    pub fn into_service_message(self) -> (r: Result<(MessageId, ServiceAuth, DstLocation, crate::service_msg::ServiceMsg), WireError>)
        ensures
            !(self.msg_kind is ServiceMsg)
                <==> r == Err::<(MessageId, ServiceAuth, DstLocation, crate::service_msg::ServiceMsg), WireError>(WireError::Malformed),
            (self.msg_kind is ServiceMsg
                && (forall|m: crate::service_msg::ServiceMsg| m.wf()
                    ==> self.payload@ != crate::service_msg::spec_encode_service(&m)))
                <==> r == Err::<(MessageId, ServiceAuth, DstLocation, crate::service_msg::ServiceMsg), WireError>(WireError::BadPayload),
            r matches Ok(t) ==> (self.msg_kind matches MsgKind::ServiceMsg(auth)
                && t.0 == self.msg_id
                && t.1 == auth
                && t.2 == self.dst_location
                && t.3.wf()
                && self.payload@ == crate::service_msg::spec_encode_service(&t.3)
                && (match &t.3 {
                    crate::service_msg::ServiceMsg::ServiceError {
                        source_message: Option::Some(src),
                    } => crate::crypto::ed_verifies(auth.public_key@, auth.signature@, src@),
                    _ => crate::crypto::ed_verifies(
                        auth.public_key@, auth.signature@, self.payload@),
                })),
            (r is Err
                && r != Err::<(MessageId, ServiceAuth, DstLocation, crate::service_msg::ServiceMsg), WireError>(WireError::Malformed)
                && r != Err::<(MessageId, ServiceAuth, DstLocation, crate::service_msg::ServiceMsg), WireError>(WireError::BadPayload))
                ==> (r == Err::<(MessageId, ServiceAuth, DstLocation, crate::service_msg::ServiceMsg), WireError>(WireError::BadSignature)
                    && exists|m: crate::service_msg::ServiceMsg| #[trigger] m.wf()
                        && self.payload@ == crate::service_msg::spec_encode_service(&m)),
    {
        let auth = match self.msg_kind {
            MsgKind::ServiceMsg(auth) => auth,
            _ => {
                return Err(WireError::Malformed);
            },
        };
        let msg = match crate::service_msg::ServiceMsg::parse(&self.payload) {
            Result::Ok(m) => m,
            Result::Err(_) => {
                return Err(WireError::BadPayload);
            },
        };
        let covered = match &msg {
            crate::service_msg::ServiceMsg::ServiceError { source_message: Option::Some(src) } => {
                crate::crypto::ed_verify(&auth.public_key, &auth.signature, src)
            },
            _ => crate::crypto::ed_verify(&auth.public_key, &auth.signature, &self.payload),
        };
        if !covered {
            return Err(WireError::BadSignature);
        }
        Ok((self.msg_id, auth, self.dst_location, msg))
    }

    /// Checks a client signature over a payload.
    pub fn verify_sig(auth: &ServiceAuth, payload: &Vec<u8>) -> (r: bool)
        ensures
            r == crate::crypto::ed_verifies(auth.public_key@, auth.signature@, payload@),
    {
        crate::crypto::ed_verify(&auth.public_key, &auth.signature, payload)
    }
}

/// Whether two wire messages agree in every view: id, kind with all its
/// authority fields, destination, and payload.
pub open spec fn wire_matches(a: &WireMsg, b: &WireMsg) -> bool {
    &&& a.msg_id.bytes@ == b.msg_id.bytes@
    &&& a.payload@ == b.payload@
    &&& match (&a.msg_kind, &b.msg_kind) {
        (MsgKind::ServiceMsg(x), MsgKind::ServiceMsg(y)) =>
            x.public_key@ == y.public_key@ && x.signature@ == y.signature@,
        (MsgKind::NodeAuthMsg(x), MsgKind::NodeAuthMsg(y)) =>
            x.section_pk@ == y.section_pk@ && x.public_key@ == y.public_key@
                && x.signature@ == y.signature@,
        (MsgKind::NodeBlsShareAuthMsg(x), MsgKind::NodeBlsShareAuthMsg(y)) =>
            x.section_pk@ == y.section_pk@ && x.src_name@ == y.src_name@
                && x.sig_share.index == y.sig_share.index
                && x.sig_share.public_key_set@ == y.sig_share.public_key_set@
                && x.sig_share.signature_share@ == y.sig_share.signature_share@,
        _ => false,
    }
    &&& match (&a.dst_location, &b.dst_location) {
        (DstLocation::Node { name: n1, section_pk: k1 },
            DstLocation::Node { name: n2, section_pk: k2 }) => n1@ == n2@ && k1@ == k2@,
        (DstLocation::Section { name: n1, section_pk: k1 },
            DstLocation::Section { name: n2, section_pk: k2 }) => n1@ == n2@ && k1@ == k2@,
        (DstLocation::EndUser { name: n1 }, DstLocation::EndUser { name: n2 }) => n1@ == n2@,
        _ => false,
    }
}

/// Law: the wire encoding is injective on well-formed messages, so parsing a
/// serialized message yields it back. `serialize` returns exactly
/// `spec_serialize` of its message, and `parse` accepts exactly such
/// encodings, returning a message that also encodes to the bytes; by this
/// lemma the two messages agree in every view.
#[verifier::rlimit(100)]
#[verifier::spinoff_prover]
pub proof fn lemma_serialize_injective(a: &WireMsg, b: &WireMsg)
    requires
        a.wf(),
        b.wf(),
        spec_serialize(a) == spec_serialize(b),
    ensures
        wire_matches(a, b),
{
    let bytes = spec_serialize(a);
    lemma_encoding_shape(a, bytes);
    lemma_encoding_shape(b, bytes);
    lemma_u16_round_trip(spec_header_len(a));
    lemma_u16_round_trip(spec_header_len(b));
    lemma_dst_shape(a, bytes);
    lemma_dst_shape(b, bytes);
    if bytes[20] == 2 {
        lemma_bls_share_fields(a, bytes);
        lemma_bls_share_fields(b, bytes);
        match (&a.msg_kind, &b.msg_kind) {
            (MsgKind::NodeBlsShareAuthMsg(x), MsgKind::NodeBlsShareAuthMsg(y)) => {
                crate::enc::lemma_u32_round_trip(x.sig_share.public_key_set@.len() as int);
                crate::enc::lemma_u32_round_trip(y.sig_share.public_key_set@.len() as int);
                lemma_u16_round_trip(x.sig_share.index as int);
                lemma_u16_round_trip(y.sig_share.index as int);
            },
            _ => {},
        }
    }
    let klen = enc_kind(&a.msg_kind).len() as int;
    assert(enc_kind(&b.msg_kind).len() as int == klen);
    let p = 20 + klen;
    let hl = spec_header_len(a);
    assert(spec_header_len(b) == hl);
    assert(enc_kind(&a.msg_kind) == enc_kind(&b.msg_kind));
    assert(enc_dst(&a.dst_location) == enc_dst(&b.dst_location));
    lemma_kind_injective(&a.msg_kind, &b.msg_kind);
    lemma_dst_injective(&a.dst_location, &b.dst_location);
}

/// Equal kind encodings carry equal fields.
#[verifier::spinoff_prover]
proof fn lemma_kind_injective(a: &MsgKind, b: &MsgKind)
    requires
        kind_wf(a),
        kind_wf(b),
        enc_kind(a) == enc_kind(b),
    ensures
        match (a, b) {
            (MsgKind::ServiceMsg(x), MsgKind::ServiceMsg(y)) =>
                x.public_key@ == y.public_key@ && x.signature@ == y.signature@,
            (MsgKind::NodeAuthMsg(x), MsgKind::NodeAuthMsg(y)) =>
                x.section_pk@ == y.section_pk@ && x.public_key@ == y.public_key@
                    && x.signature@ == y.signature@,
            (MsgKind::NodeBlsShareAuthMsg(x), MsgKind::NodeBlsShareAuthMsg(y)) =>
                x.section_pk@ == y.section_pk@ && x.src_name@ == y.src_name@
                    && x.sig_share.index == y.sig_share.index
                    && x.sig_share.public_key_set@ == y.sig_share.public_key_set@
                    && x.sig_share.signature_share@ == y.sig_share.signature_share@,
            _ => false,
        },
{
    let e = enc_kind(a);
    assert(enc_kind(a)[0] == enc_kind(b)[0]);
    match (a, b) {
        (MsgKind::ServiceMsg(x), MsgKind::ServiceMsg(y)) => {
            assert(x.public_key@ =~= e.subrange(1, 33));
            assert(y.public_key@ =~= e.subrange(1, 33));
            assert(x.signature@ =~= e.subrange(33, 97));
            assert(y.signature@ =~= e.subrange(33, 97));
        },
        (MsgKind::NodeAuthMsg(x), MsgKind::NodeAuthMsg(y)) => {
            assert(x.section_pk@ =~= e.subrange(1, 49));
            assert(y.section_pk@ =~= e.subrange(1, 49));
            assert(x.public_key@ =~= e.subrange(49, 81));
            assert(y.public_key@ =~= e.subrange(49, 81));
            assert(x.signature@ =~= e.subrange(81, 145));
            assert(y.signature@ =~= e.subrange(81, 145));
        },
        (MsgKind::NodeBlsShareAuthMsg(x), MsgKind::NodeBlsShareAuthMsg(y)) => {
            assert(x.section_pk@ =~= e.subrange(1, 49));
            assert(y.section_pk@ =~= e.subrange(1, 49));
            assert(x.src_name@ =~= e.subrange(49, 81));
            assert(y.src_name@ =~= e.subrange(49, 81));
            assert(enc_u16(x.sig_share.index as int) =~= e.subrange(81, 83));
            assert(enc_u16(y.sig_share.index as int) =~= e.subrange(81, 83));
            lemma_u16_round_trip(x.sig_share.index as int);
            lemma_u16_round_trip(y.sig_share.index as int);
            assert(enc_u32(x.sig_share.public_key_set@.len() as int) =~= e.subrange(83, 87));
            assert(enc_u32(y.sig_share.public_key_set@.len() as int) =~= e.subrange(83, 87));
            crate::enc::lemma_u32_round_trip(x.sig_share.public_key_set@.len() as int);
            crate::enc::lemma_u32_round_trip(y.sig_share.public_key_set@.len() as int);
            let lx = x.sig_share.public_key_set@.len() as int;
            assert(y.sig_share.public_key_set@.len() as int == lx);
            assert(x.sig_share.public_key_set@ =~= e.subrange(87, 87 + lx));
            assert(y.sig_share.public_key_set@ =~= e.subrange(87, 87 + lx));
            assert(x.sig_share.signature_share@ =~= e.subrange(87 + lx, 183 + lx));
            assert(y.sig_share.signature_share@ =~= e.subrange(87 + lx, 183 + lx));
        },
        _ => {
            assert(false);
        },
    }
}

/// Equal destination encodings carry equal fields.
#[verifier::spinoff_prover]
proof fn lemma_dst_injective(a: &DstLocation, b: &DstLocation)
    requires
        a.wf(),
        b.wf(),
        enc_dst(a) == enc_dst(b),
    ensures
        match (a, b) {
            (DstLocation::Node { name: n1, section_pk: k1 },
                DstLocation::Node { name: n2, section_pk: k2 }) => n1@ == n2@ && k1@ == k2@,
            (DstLocation::Section { name: n1, section_pk: k1 },
                DstLocation::Section { name: n2, section_pk: k2 }) => n1@ == n2@ && k1@ == k2@,
            (DstLocation::EndUser { name: n1 }, DstLocation::EndUser { name: n2 }) =>
                n1@ == n2@,
            _ => false,
        },
{
    let e = enc_dst(a);
    assert(enc_dst(a)[0] == enc_dst(b)[0]);
    match (a, b) {
        (DstLocation::Node { name: n1, section_pk: k1 },
            DstLocation::Node { name: n2, section_pk: k2 }) => {
            assert(n1@ =~= e.subrange(1, 33));
            assert(n2@ =~= e.subrange(1, 33));
            assert(k1@ =~= e.subrange(33, 81));
            assert(k2@ =~= e.subrange(33, 81));
        },
        (DstLocation::Section { name: n1, section_pk: k1 },
            DstLocation::Section { name: n2, section_pk: k2 }) => {
            assert(n1@ =~= e.subrange(1, 33));
            assert(n2@ =~= e.subrange(1, 33));
            assert(k1@ =~= e.subrange(33, 81));
            assert(k2@ =~= e.subrange(33, 81));
        },
        (DstLocation::EndUser { name: n1 }, DstLocation::EndUser { name: n2 }) => {
            assert(n1@ =~= e.subrange(1, 33));
            assert(n2@ =~= e.subrange(1, 33));
        },
        _ => {
            assert(false);
        },
    }
}

/// Where the destination of a well-formed message's encoding sits and how
/// long it is, recoverable from the bytes alone.
proof fn lemma_dst_shape(m: &WireMsg, bytes: Seq<u8>)
    requires
        m.wf(),
        bytes == spec_serialize(&m),
    ensures
        ({
            let p = 20 + enc_kind(&m.msg_kind).len() as int;
            &&& p < spec_header_len(m)
            &&& bytes[p] == enc_dst(&m.dst_location)[0]
            &&& (bytes[p] == 0 || bytes[p] == 1 || bytes[p] == 2)
            &&& ((bytes[p] == 0 || bytes[p] == 1) ==> spec_header_len(m) == p + 81)
            &&& (bytes[p] == 2 ==> spec_header_len(m) == p + 33)
        }),
        bytes[20] == 0 ==> enc_kind(&m.msg_kind).len() == 97,
        bytes[20] == 1 ==> enc_kind(&m.msg_kind).len() == 145,
        bytes[20] == 2 ==> enc_kind(&m.msg_kind).len() == 183
            + (bytes[103] * 0x1000000 + bytes[104] * 0x10000 + bytes[105] * 256 + bytes[106]),
{
    lemma_encoding_shape(m, bytes);
    let p = 20 + enc_kind(&m.msg_kind).len() as int;
    let d = enc_dst(&m.dst_location);
    assert(bytes.subrange(p, spec_header_len(m)) == d);
    assert(bytes[p] == d[0]);
    if bytes[20] == 2 {
        assert(m.msg_kind is NodeBlsShareAuthMsg);
        lemma_bls_share_fields(m, bytes);
        match &m.msg_kind {
            MsgKind::NodeBlsShareAuthMsg(a) => {
                crate::enc::lemma_u32_round_trip(a.sig_share.public_key_set@.len() as int);
            },
            _ => {},
        }
    }
}

/// Where the fields of a BLS-share-signed kind sit in the encoding.
proof fn lemma_bls_share_fields(m: &WireMsg, bytes: Seq<u8>)
    requires
        m.wf(),
        bytes == spec_serialize(&m),
        m.msg_kind is NodeBlsShareAuthMsg,
    ensures
        m.msg_kind matches MsgKind::NodeBlsShareAuthMsg(a) ==> {
            &&& bytes[101] == enc_u16(a.sig_share.index as int)[0]
            &&& bytes[102] == enc_u16(a.sig_share.index as int)[1]
            &&& bytes[103] == enc_u32(a.sig_share.public_key_set@.len() as int)[0]
            &&& bytes[104] == enc_u32(a.sig_share.public_key_set@.len() as int)[1]
            &&& bytes[105] == enc_u32(a.sig_share.public_key_set@.len() as int)[2]
            &&& bytes[106] == enc_u32(a.sig_share.public_key_set@.len() as int)[3]
            &&& spec_header_len(m) == 107 + a.sig_share.public_key_set@.len()
                + 96 + enc_dst(&m.dst_location).len()
        },
{
    lemma_encoding_shape(m, bytes);
}

/// What the bytes of a well-formed message's encoding look like: the fixed
/// lead, the bounds, and where each part sits.
proof fn lemma_encoding_shape(m: &WireMsg, bytes: Seq<u8>)
    requires
        m.wf(),
        bytes == spec_serialize(m),
    ensures
        bytes.len() == spec_header_len(m) + m.payload@.len(),
        150 <= spec_header_len(m) < 0x10000,
        spec_header_len(m) <= bytes.len() < 0x7fffffff,
        bytes[0] == enc_u16(MSG_VERSION as int)[0],
        bytes[1] == enc_u16(MSG_VERSION as int)[1],
        bytes[2] == enc_u16(spec_header_len(m))[0],
        bytes[3] == enc_u16(spec_header_len(m))[1],
        bytes.subrange(4, 20) == m.msg_id.bytes@,
        bytes[20] == enc_kind(&m.msg_kind)[0],
        bytes.subrange(20, 20 + enc_kind(&m.msg_kind).len() as int) == enc_kind(&m.msg_kind),
        bytes.subrange(
            20 + enc_kind(&m.msg_kind).len() as int,
            spec_header_len(m),
        ) == enc_dst(&m.dst_location),
        bytes.subrange(spec_header_len(m), bytes.len() as int) == m.payload@,
{
    lemma_kind_dst_len_bounds(m);
    let k = enc_kind(&m.msg_kind);
    let d = enc_dst(&m.dst_location);
    assert(bytes.subrange(4, 20) =~= m.msg_id.bytes@);
    assert(bytes.subrange(20, 20 + k.len() as int) =~= k);
    assert(bytes.subrange(20 + k.len() as int, spec_header_len(m)) =~= d);
    assert(bytes.subrange(spec_header_len(m), bytes.len() as int) =~= m.payload@);
}

/// Bounds on the encoded kind and destination of a well-formed message.
proof fn lemma_kind_dst_len_bounds(m: &WireMsg)
    requires
        kind_wf(&m.msg_kind),
        m.dst_location.wf(),
    ensures
        enc_kind(&m.msg_kind).len() < 61000,
        enc_dst(&m.dst_location).len() <= 81,
        spec_header_len(m) < 0x10000,
{
}

} // verus!
