//! The client service protocol's message bodies as a byte codec: chunk
//! queries and their answers, opaque commands, and the service-error bounce
//! that carries the message it answers. Encoding and parsing are exact
//! inverses, and a bounced service error authenticates against the payload
//! it embeds, as the wire layer requires.

use vstd::prelude::*;
use crate::enc::{enc_u32, lemma_u32_enc_of_bytes, lemma_u32_round_trip, push_bytes, push_u32, read_segment, read_u32};
use crate::errors::WireError;
use crate::xor::{XorName, XOR_NAME_LEN};

verus! {

/// Why a data operation failed, as carried on the wire.
#[derive(Clone, Copy, Debug, PartialEq, Eq, Structural)]
pub enum DataErrorKind {
    /// The entry was not found.
    NoSuchEntry,
    /// The caller may not do this.
    AccessDenied,
    /// The operation is invalid.
    InvalidOperation,
}

/// The encoding of a data error kind, one byte.
pub open spec fn enc_err_kind(k: DataErrorKind) -> u8 {
    match k {
        DataErrorKind::NoSuchEntry => 0u8,
        DataErrorKind::AccessDenied => 1u8,
        DataErrorKind::InvalidOperation => 2u8,
    }
}

/// A client service message body.
#[derive(Debug, PartialEq, Eq)]
pub enum ServiceMsg {
    /// Fetch the chunk stored under this name.
    QueryGetChunk(XorName),
    /// A fetched chunk's bytes.
    QueryResponseChunk(Vec<u8>),
    /// The query failed.
    QueryResponseError(DataErrorKind),
    /// A data command, its body opaque to this layer.
    Cmd(Vec<u8>),
    /// A command failed.
    CmdError(DataErrorKind),
    /// A bounced service error; when it answers a concrete message it
    /// carries that message's payload, which the authority must cover.
    ServiceError {
        /// The payload of the message this error answers, if any.
        source_message: Option<Vec<u8>>,
    },
}

impl ServiceMsg {
    /// Well-formedness: names and lengths fit the encoding.
    pub open spec fn wf(&self) -> bool {
        match self {
            ServiceMsg::QueryGetChunk(name) => name@.len() == XOR_NAME_LEN,
            ServiceMsg::QueryResponseChunk(data) => data@.len() < 0x7fff0000,
            ServiceMsg::Cmd(body) => body@.len() < 0x7fff0000,
            ServiceMsg::ServiceError { source_message } => match source_message {
                Option::Some(p) => p@.len() < 0x7fff0000,
                Option::None => true,
            },
            _ => true,
        }
    }
}

/// The canonical bytes of a service message body.
pub open spec fn spec_encode_service(m: &ServiceMsg) -> Seq<u8> {
    match m {
        ServiceMsg::QueryGetChunk(name) => seq![0u8] + name@,
        ServiceMsg::QueryResponseChunk(data) => seq![1u8]
            + enc_u32(data@.len() as int) + data@,
        ServiceMsg::QueryResponseError(k) => seq![2u8, enc_err_kind(*k)],
        ServiceMsg::Cmd(body) => seq![3u8] + enc_u32(body@.len() as int) + body@,
        ServiceMsg::CmdError(k) => seq![4u8, enc_err_kind(*k)],
        ServiceMsg::ServiceError { source_message } => match source_message {
            Option::Some(p) => seq![5u8, 1u8] + enc_u32(p@.len() as int) + p@,
            Option::None => seq![5u8, 0u8],
        },
    }
}

impl ServiceMsg {
    /// The serialized body.
    pub fn encode(&self) -> (r: Vec<u8>)
        requires
            self.wf(),
        ensures
            r@ == spec_encode_service(self),
    {
        let mut out: Vec<u8> = Vec::new();
        match self {
            ServiceMsg::QueryGetChunk(name) => {
                out.push(0u8);
                push_bytes(&mut out, &name.bytes);
            },
            ServiceMsg::QueryResponseChunk(data) => {
                out.push(1u8);
                push_u32(&mut out, data.len());
                push_bytes(&mut out, data);
            },
            ServiceMsg::QueryResponseError(k) => {
                out.push(2u8);
                out.push(err_kind_byte(k));
            },
            ServiceMsg::Cmd(body) => {
                out.push(3u8);
                push_u32(&mut out, body.len());
                push_bytes(&mut out, body);
            },
            ServiceMsg::CmdError(k) => {
                out.push(4u8);
                out.push(err_kind_byte(k));
            },
            ServiceMsg::ServiceError { source_message } => {
                out.push(5u8);
                match source_message {
                    Option::Some(p) => {
                        out.push(1u8);
                        push_u32(&mut out, p.len());
                        push_bytes(&mut out, p);
                    },
                    Option::None => {
                        out.push(0u8);
                    },
                }
            },
        }
        proof {
            assert(out@ =~= spec_encode_service(self));
        }
        out
    }

    /// Parses a serialized body. Succeeds exactly on the encodings of
    /// well-formed bodies: the parsed body is well formed and encodes back
    /// to the input bytes.
    pub fn parse(bytes: &Vec<u8>) -> (r: Result<ServiceMsg, WireError>)
        ensures
            r matches Ok(m) ==> m.wf() && bytes@ == spec_encode_service(&m),
            r is Err ==> forall|m: ServiceMsg| m.wf() ==> bytes@ != spec_encode_service(&m),
    {
        let n = bytes.len();
        if n < 2 || (n as u64) >= 0x80000000u64 {
            proof {
                assert forall|m: ServiceMsg| m.wf() implies bytes@ != spec_encode_service(&m) by {
                    if bytes@ == spec_encode_service(&m) {
                        lemma_service_shape(&m, bytes@);
                    }
                };
            }
            return Err(WireError::Malformed);
        }
        let tag = bytes[0];
        if tag == 0 {
            if n != 1 + XOR_NAME_LEN {
                proof {
                    assert forall|m: ServiceMsg| m.wf() implies bytes@ != spec_encode_service(&m) by {
                        if bytes@ == spec_encode_service(&m) {
                            lemma_service_shape(&m, bytes@);
                        }
                    };
                }
                return Err(WireError::Malformed);
            }
            let name = XorName::from_bytes(read_segment(bytes, 1, XOR_NAME_LEN));
            let m = ServiceMsg::QueryGetChunk(name);
            proof {
                assert(bytes@ =~= spec_encode_service(&m));
            }
            Ok(m)
        } else if tag == 1 || tag == 3 {
            if n < 5 {
                proof {
                    assert forall|m: ServiceMsg| m.wf() implies bytes@ != spec_encode_service(&m) by {
                        if bytes@ == spec_encode_service(&m) {
                            lemma_service_shape(&m, bytes@);
                        }
                    };
                }
                return Err(WireError::Malformed);
            }
            let len = read_u32(bytes, 1);
            if len != n - 5 || len >= 0x7fff0000 {
                proof {
                    assert forall|m: ServiceMsg| m.wf() implies bytes@ != spec_encode_service(&m) by {
                        if bytes@ == spec_encode_service(&m) {
                            lemma_service_shape(&m, bytes@);
                        }
                    };
                }
                return Err(WireError::Malformed);
            }
            let body = read_segment(bytes, 5, len);
            let m = if tag == 1 {
                ServiceMsg::QueryResponseChunk(body)
            } else {
                ServiceMsg::Cmd(body)
            };
            proof {
                lemma_u32_enc_of_bytes(bytes@[1] as u8, bytes@[2] as u8,
                    bytes@[3] as u8, bytes@[4] as u8);
                assert(enc_u32(len as int) =~= bytes@.subrange(1, 5));
                assert(bytes@ =~= spec_encode_service(&m));
            }
            Ok(m)
        } else if tag == 2 || tag == 4 {
            if n != 2 {
                proof {
                    assert forall|m: ServiceMsg| m.wf() implies bytes@ != spec_encode_service(&m) by {
                        if bytes@ == spec_encode_service(&m) {
                            lemma_service_shape(&m, bytes@);
                        }
                    };
                }
                return Err(WireError::Malformed);
            }
            let kind = match bytes[1] {
                0 => DataErrorKind::NoSuchEntry,
                1 => DataErrorKind::AccessDenied,
                2 => DataErrorKind::InvalidOperation,
                _ => {
                    proof {
                        assert forall|m: ServiceMsg| m.wf() implies bytes@ != spec_encode_service(&m) by {
                        if bytes@ == spec_encode_service(&m) {
                            lemma_service_shape(&m, bytes@);
                        }
                    };
                    }
                    return Err(WireError::Malformed);
                },
            };
            let m = if tag == 2 {
                ServiceMsg::QueryResponseError(kind)
            } else {
                ServiceMsg::CmdError(kind)
            };
            proof {
                assert(bytes@ =~= spec_encode_service(&m));
            }
            Ok(m)
        } else if tag == 5 {
            if bytes[1] == 0 {
                if n != 2 {
                    proof {
                        assert forall|m: ServiceMsg| m.wf() implies bytes@ != spec_encode_service(&m) by {
                        if bytes@ == spec_encode_service(&m) {
                            lemma_service_shape(&m, bytes@);
                        }
                    };
                    }
                    return Err(WireError::Malformed);
                }
                let m = ServiceMsg::ServiceError { source_message: Option::None };
                proof {
                    assert(bytes@ =~= spec_encode_service(&m));
                }
                Ok(m)
            } else if bytes[1] == 1 {
                if n < 6 {
                    proof {
                        assert forall|m: ServiceMsg| m.wf() implies bytes@ != spec_encode_service(&m) by {
                        if bytes@ == spec_encode_service(&m) {
                            lemma_service_shape(&m, bytes@);
                        }
                    };
                    }
                    return Err(WireError::Malformed);
                }
                let len = read_u32(bytes, 2);
                if len != n - 6 || len >= 0x7fff0000 {
                    proof {
                        assert forall|m: ServiceMsg| m.wf() implies bytes@ != spec_encode_service(&m) by {
                        if bytes@ == spec_encode_service(&m) {
                            lemma_service_shape(&m, bytes@);
                        }
                    };
                    }
                    return Err(WireError::Malformed);
                }
                let p = read_segment(bytes, 6, len);
                let m = ServiceMsg::ServiceError { source_message: Option::Some(p) };
                proof {
                    lemma_u32_enc_of_bytes(bytes@[2] as u8, bytes@[3] as u8,
                        bytes@[4] as u8, bytes@[5] as u8);
                    assert(enc_u32(len as int) =~= bytes@.subrange(2, 6));
                    assert(bytes@ =~= spec_encode_service(&m));
                }
                Ok(m)
            } else {
                proof {
                    assert forall|m: ServiceMsg| m.wf() implies bytes@ != spec_encode_service(&m) by {
                        if bytes@ == spec_encode_service(&m) {
                            lemma_service_shape(&m, bytes@);
                        }
                    };
                }
                Err(WireError::Malformed)
            }
        } else {
            proof {
                assert forall|m: ServiceMsg| m.wf() implies bytes@ != spec_encode_service(&m) by {
                        if bytes@ == spec_encode_service(&m) {
                            lemma_service_shape(&m, bytes@);
                        }
                    };
            }
            Err(WireError::Malformed)
        }
    }
}

/// The one byte that encodes a data error kind.
fn err_kind_byte(k: &DataErrorKind) -> (r: u8)
    ensures
        r == enc_err_kind(*k),
{
    match k {
        DataErrorKind::NoSuchEntry => 0u8,
        DataErrorKind::AccessDenied => 1u8,
        DataErrorKind::InvalidOperation => 2u8,
    }
}

/// What the bytes of a well-formed body's encoding look like: the tag leads
/// and the lengths line up.
proof fn lemma_service_shape(m: &ServiceMsg, bytes: Seq<u8>)
    requires
        m.wf(),
        bytes == spec_encode_service(m),
    ensures
        2 <= bytes.len() < 0x80000000,
        bytes[0] == 0 || bytes[0] == 1 || bytes[0] == 2 || bytes[0] == 3
            || bytes[0] == 4 || bytes[0] == 5,
        bytes[0] == 0 ==> bytes.len() == 1 + XOR_NAME_LEN,
        (bytes[0] == 1 || bytes[0] == 3) ==> bytes.len() >= 5
            && bytes.len() == 5 + (bytes[1] * 0x1000000 + bytes[2] * 0x10000
                + bytes[3] * 256 + bytes[4]),
        (bytes[0] == 2 || bytes[0] == 4) ==> bytes.len() == 2
            && (bytes[1] == 0 || bytes[1] == 1 || bytes[1] == 2),
        bytes[0] == 5 ==> ((bytes[1] == 0 && bytes.len() == 2)
            || (bytes[1] == 1 && bytes.len() >= 6
                && bytes.len() == 6 + (bytes[2] * 0x1000000 + bytes[3] * 0x10000
                    + bytes[4] * 256 + bytes[5]))),
{
    match m {
        ServiceMsg::QueryResponseChunk(data) => {
            lemma_u32_round_trip(data@.len() as int);
        },
        ServiceMsg::Cmd(body) => {
            lemma_u32_round_trip(body@.len() as int);
        },
        ServiceMsg::ServiceError { source_message } => {
            match source_message {
                Option::Some(p) => {
                    lemma_u32_round_trip(p@.len() as int);
                },
                Option::None => {},
            }
        },
        _ => {},
    }
}

} // verus!
