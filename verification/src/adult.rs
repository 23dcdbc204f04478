//! Adult duties: storing chunks and answering chunk messages. A chunk's
//! name is the digest of its content; a stored chunk always carries the name
//! its bytes hash to, which is what lets queries reject tampered data.

use vstd::prelude::*;
use crate::crypto::{sha3_256, sha3_of};
use crate::errors::{Error, ErrorMessage};
use crate::xor::{bytes_eq, XorName};

verus! {

/// An action on register data.
#[derive(Clone, Debug, Copy, Eq, PartialEq, Structural)]
pub enum Action {
    /// Read from the data.
    Read,
    /// Write to the data.
    Write,
}

/// A chunk duty handed to an adult.
#[derive(Clone, Debug, PartialEq, Eq)]
pub enum ChunkDuty {
    /// Answer a read of the chunk with this name.
    ReadChunk(XorName),
    /// Store a chunk with these bytes.
    WriteChunk(Vec<u8>),
}

/// A duty an adult runs.
#[derive(Clone, Debug, PartialEq, Eq)]
pub enum AdultDuty {
    /// Run chunk work.
    RunAsChunks(ChunkDuty),
}

/// What a processed duty asks the node to do next.
#[derive(Clone, Debug, PartialEq, Eq)]
pub enum NodeDuty {
    /// Send this chunk query answer on.
    ProcessMessaging(ChunkReply),
}

/// An operation handed back up to the node.
#[derive(Clone, Debug, PartialEq, Eq)]
pub enum NodeOperation {
    /// Run as the node's messaging.
    RunAsNode(NodeDuty),
}

/// The answer to a chunk duty.
#[derive(Clone, Debug, PartialEq, Eq)]
pub enum ChunkReply {
    /// The chunk's bytes.
    Chunk(Vec<u8>),
    /// The duty failed with this error.
    Failure(ErrorMessage),
}

/// The chunks an adult stores: each under the name its bytes hash to.
#[derive(Clone, Debug, PartialEq, Eq)]
pub struct Chunks {
    /// The stored chunks as (name, bytes) pairs.
    pub stored: Vec<(XorName, Vec<u8>)>,
}

impl Chunks {
    /// Every stored chunk sits under the digest of its bytes, no name twice.
    pub open spec fn wf(&self) -> bool {
        &&& forall|i: int| 0 <= i < self.stored@.len()
            ==> (#[trigger] self.stored@[i]).0@ == sha3_of(self.stored@[i].1@)
        &&& forall|i: int, j: int| 0 <= i < j < self.stored@.len()
            ==> (#[trigger] self.stored@[i]).0@ != (#[trigger] self.stored@[j]).0@
    }

    /// An empty store.
    pub fn new() -> (r: Chunks)
        ensures
            r.wf(),
            r.stored@.len() == 0,
    {
        Chunks { stored: Vec::new() }
    }

    /// The position of the chunk with the given name.
    fn find(&self, name: &XorName) -> (r: Option<usize>)
        ensures
            r matches Some(i) ==> i < self.stored@.len()
                && self.stored@[i as int].0@ == name@,
            r is None ==> forall|i: int| 0 <= i < self.stored@.len()
                ==> (#[trigger] self.stored@[i]).0@ != name@,
    {
        let mut i: usize = 0;
        while i < self.stored.len()
            invariant
                i <= self.stored@.len(),
                forall|j: int| 0 <= j < i ==> (#[trigger] self.stored@[j]).0@ != name@,
            decreases self.stored@.len() - i,
        {
            if self.stored[i].0.equals(name) {
                return Option::Some(i);
            }
            i = i + 1;
        }
        Option::None
    }

    /// Stores a chunk under the digest of its bytes; storing bytes already
    /// held changes nothing. Returns the chunk's name.
    pub fn write(&mut self, data: Vec<u8>) -> (r: XorName)
        requires
            old(self).wf(),
        ensures
            final(self).wf(),
            r@ == sha3_of(data@),
            exists|i: int| 0 <= i < final(self).stored@.len()
                && (#[trigger] final(self).stored@[i]).0@ == sha3_of(data@),
    {
        let name = XorName::from_bytes(sha3_256(&data));
        let found = self.find(&name);
        match found {
            Option::Some(i) => {
                proof {
                    assert(self.stored@[i as int].0@ == sha3_of(data@));
                }
                name
            },
            Option::None => {
                self.stored.push((name.duplicate(), data));
                proof {
                    let n = self.stored@.len() - 1;
                    assert(self.stored@[n].0@ == sha3_of(data@));
                    assert forall|x: int, y: int| 0 <= x < y < self.stored@.len()
                        implies (#[trigger] self.stored@[x]).0@
                            != (#[trigger] self.stored@[y]).0@ by {
                        if y == n {
                            assert(old(self).stored@[x].0@ != name@);
                        }
                    };
                }
                name
            },
        }
    }

    /// Answers a read: the stored bytes for a held name, an error otherwise.
    /// Returned bytes always hash to the asked name.
    pub fn read(&self, name: &XorName) -> (r: ChunkReply)
        requires
            self.wf(),
        ensures
            (r matches ChunkReply::Chunk(data) ==> name@ == sha3_of(data@)),
            (r matches ChunkReply::Failure(e) ==> e == ErrorMessage::NoSuchEntry
                && (forall|i: int| 0 <= i < self.stored@.len()
                    ==> (#[trigger] self.stored@[i]).0@ != name@)),
    {
        let found = self.find(name);
        match found {
            Option::Some(i) => ChunkReply::Chunk(crate::xor::clone_bytes(&self.stored[i].1)),
            Option::None => ChunkReply::Failure(ErrorMessage::NoSuchEntry),
        }
    }
}

/// The duties of an adult: its signing identity and its chunk store.
#[derive(Clone, Debug, PartialEq, Eq)]
pub struct AdultDuties {
    /// The adult's own public key.
    pub keys: Vec<u8>,
    /// The chunk store.
    pub chunks: Chunks,
}

impl AdultDuties {
    /// Sets an adult up with its key and an empty chunk store.
    pub fn new(keys: Vec<u8>) -> (r: Result<AdultDuties, Error>)
        ensures
            r matches Ok(a) ==> a.keys@ == keys@
                && a.chunks.wf()
                && a.chunks.stored@.len() == 0,
            r is Ok,
    {
        Ok(AdultDuties { keys, chunks: Chunks::new() })
    }

    /// Runs one duty: reads answer from the store, writes store the chunk
    /// and answer with its bytes.
    pub fn process(&mut self, duty: &AdultDuty) -> (r: Option<NodeOperation>)
        requires
            old(self).chunks.wf(),
        ensures
            final(self).chunks.wf(),
            final(self).keys@ == old(self).keys@,
            (duty matches AdultDuty::RunAsChunks(ChunkDuty::ReadChunk(name))
                ==> *final(self) == *old(self)
                    && (r matches Some(NodeOperation::RunAsNode(NodeDuty::ProcessMessaging(reply)))
                        && (reply matches ChunkReply::Chunk(data) ==> name@ == sha3_of(data@)))),
            (duty matches AdultDuty::RunAsChunks(ChunkDuty::WriteChunk(data))
                ==> (r matches Some(NodeOperation::RunAsNode(NodeDuty::ProcessMessaging(reply)))
                    && (reply matches ChunkReply::Chunk(out) ==> out@ == data@))),
    {
        let AdultDuty::RunAsChunks(chunk_duty) = duty;
        let reply = match chunk_duty {
            ChunkDuty::ReadChunk(name) => self.chunks.read(name),
            ChunkDuty::WriteChunk(data) => {
                let bytes = crate::xor::clone_bytes(data);
                let _ = self.chunks.write(bytes);
                ChunkReply::Chunk(crate::xor::clone_bytes(data))
            },
        };
        Option::Some(NodeOperation::RunAsNode(NodeDuty::ProcessMessaging(reply)))
    }
}

/// Whether a fetched chunk's bytes answer a query for `dst`: the digest of
/// the bytes must be the queried name, else the chunk is counted byzantine.
pub fn chunk_matches_name(data: &Vec<u8>, dst: &XorName) -> (r: bool)
    ensures
        r == (sha3_of(data@) == dst@),
{
    let name = sha3_256(data);
    bytes_eq(&name, &dst.bytes)
}

} // verus!
