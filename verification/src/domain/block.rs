use vstd::prelude::*;

use crate::domain::Timestamp;
use crate::types::{Address, AppHash, NonEmptyBz, Sha256};

verus! {

/// View of a block header.
#[verifier::ext_equal]
pub ghost struct HeaderV {
    pub chain_id: Seq<char>,
    pub height: int,
    pub time: int,
    pub validators_hash: Seq<u8>,
    pub next_validators_hash: Seq<u8>,
    pub consensus_hash: Seq<u8>,
    pub app_hash: Seq<u8>,
    pub proposer: Seq<u8>,
    pub last_commit_hash: Option<Seq<u8>>,
    pub data_hash: Option<Seq<u8>>,
    pub last_results_hash: Option<Seq<u8>>,
    pub evidence_hash: Option<Seq<u8>>,
}

/// A normalized block header.
pub struct Header {
    chain_id: String,
    height: u64,
    time: Timestamp,
    validators_hash: Sha256,
    next_validators_hash: Sha256,
    consensus_hash: Sha256,
    app_hash: AppHash,
    proposer: Address,
    last_commit_hash: Option<Sha256>,
    data_hash: Option<Sha256>,
    last_results_hash: Option<Sha256>,
    evidence_hash: Option<Sha256>,
}

impl View for Header {
    type V = HeaderV;

    closed spec fn view(&self) -> HeaderV {
        HeaderV {
            chain_id: self.chain_id@,
            height: self.height as int,
            time: self.time@,
            validators_hash: self.validators_hash@,
            next_validators_hash: self.next_validators_hash@,
            consensus_hash: self.consensus_hash@,
            app_hash: self.app_hash@,
            proposer: self.proposer@,
            last_commit_hash: match self.last_commit_hash {
                Some(h) => Some(h@),
                None => None,
            },
            data_hash: match self.data_hash {
                Some(h) => Some(h@),
                None => None,
            },
            last_results_hash: match self.last_results_hash {
                Some(h) => Some(h@),
                None => None,
            },
            evidence_hash: match self.evidence_hash {
                Some(h) => Some(h@),
                None => None,
            },
        }
    }
}

impl Header {
    #[verifier::type_invariant]
    pub closed spec fn wf(self) -> bool {
        self.height >= 1
    }

    /// Assembles a header from already validated parts.
    #[allow(clippy::too_many_arguments)]
    pub fn new(
        chain_id: String,
        height: u64,
        time: Timestamp,
        validators_hash: Sha256,
        next_validators_hash: Sha256,
        consensus_hash: Sha256,
        app_hash: AppHash,
        proposer: Address,
        last_commit_hash: Option<Sha256>,
        data_hash: Option<Sha256>,
        last_results_hash: Option<Sha256>,
        evidence_hash: Option<Sha256>,
    ) -> (r: Self)
        requires
            height >= 1,
        ensures
            r@ == (HeaderV {
                chain_id: chain_id@,
                height: height as int,
                time: time@,
                validators_hash: validators_hash@,
                next_validators_hash: next_validators_hash@,
                consensus_hash: consensus_hash@,
                app_hash: app_hash@,
                proposer: proposer@,
                last_commit_hash: match last_commit_hash {
                    Some(h) => Some(h@),
                    None => None,
                },
                data_hash: match data_hash {
                    Some(h) => Some(h@),
                    None => None,
                },
                last_results_hash: match last_results_hash {
                    Some(h) => Some(h@),
                    None => None,
                },
                evidence_hash: match evidence_hash {
                    Some(h) => Some(h@),
                    None => None,
                },
            }),
    {
        Header {
            chain_id,
            height,
            time,
            validators_hash,
            next_validators_hash,
            consensus_hash,
            app_hash,
            proposer,
            last_commit_hash,
            data_hash,
            last_results_hash,
            evidence_hash,
        }
    }

    pub fn chain_id(&self) -> (r: &String)
        ensures
            r@ == self@.chain_id,
    {
        &self.chain_id
    }

    pub fn height(&self) -> (r: u64)
        ensures
            r as int == self@.height,
            r >= 1,
    {
        proof {
            use_type_invariant(self);
        }
        self.height
    }

    pub fn time(&self) -> (r: &Timestamp)
        ensures
            r@ == self@.time,
    {
        &self.time
    }

    pub fn validators_hash(&self) -> (r: &Sha256)
        ensures
            r@ == self@.validators_hash,
    {
        &self.validators_hash
    }

    pub fn next_validators_hash(&self) -> (r: &Sha256)
        ensures
            r@ == self@.next_validators_hash,
    {
        &self.next_validators_hash
    }

    pub fn consensus_hash(&self) -> (r: &Sha256)
        ensures
            r@ == self@.consensus_hash,
    {
        &self.consensus_hash
    }

    pub fn app_hash(&self) -> (r: &AppHash)
        ensures
            r@ == self@.app_hash,
    {
        &self.app_hash
    }

    pub fn proposer(&self) -> (r: &Address)
        ensures
            r@ == self@.proposer,
    {
        &self.proposer
    }

    pub fn last_commit_hash(&self) -> (r: &Option<Sha256>)
        ensures
            r is Some <==> self@.last_commit_hash is Some,
            r matches Some(h) ==> self@.last_commit_hash == Some(h@),
    {
        &self.last_commit_hash
    }

    pub fn data_hash(&self) -> (r: &Option<Sha256>)
        ensures
            r is Some <==> self@.data_hash is Some,
            r matches Some(h) ==> self@.data_hash == Some(h@),
    {
        &self.data_hash
    }

    pub fn last_results_hash(&self) -> (r: &Option<Sha256>)
        ensures
            r is Some <==> self@.last_results_hash is Some,
            r matches Some(h) ==> self@.last_results_hash == Some(h@),
    {
        &self.last_results_hash
    }

    pub fn evidence_hash(&self) -> (r: &Option<Sha256>)
        ensures
            r is Some <==> self@.evidence_hash is Some,
            r matches Some(h) ==> self@.evidence_hash == Some(h@),
    {
        &self.evidence_hash
    }
}

/// The ordered raw transaction byte strings of a block, each non-empty.
pub struct BlockData {
    items: Vec<NonEmptyBz>,
}

impl View for BlockData {
    type V = Seq<Seq<u8>>;

    closed spec fn view(&self) -> Seq<Seq<u8>> {
        self.items.deep_view()
    }
}

impl BlockData {
    /// Wraps a list of non-empty byte strings; an empty list is a valid
    /// block with zero transactions.
    pub fn new(data: Vec<NonEmptyBz>) -> (r: Option<Self>)
        ensures
            r matches Some(d) && d@ == data.deep_view(),
    {
        Some(BlockData { items: data })
    }

    pub fn get(&self) -> (r: &Vec<NonEmptyBz>)
        ensures
            r.deep_view() == self@,
    {
        &self.items
    }

    pub fn len(&self) -> (r: usize)
        ensures
            r == self@.len(),
    {
        proof {
            assert(self.items.deep_view().len() == self.items@.len());
        }
        self.items.len()
    }
}

/// View of a normalized block.
#[verifier::ext_equal]
pub ghost struct BlockV {
    pub header: HeaderV,
    pub gas_used: int,
    pub hash: Seq<u8>,
    pub data: Seq<Seq<u8>>,
}

/// A normalized block: header, canonical hash, raw transaction bytes and
/// aggregated gas.
pub struct Block {
    header: Header,
    gas_used: u64,
    hash: Sha256,
    data: BlockData,
}

impl View for Block {
    type V = BlockV;

    closed spec fn view(&self) -> BlockV {
        BlockV {
            header: self.header@,
            gas_used: self.gas_used as int,
            hash: self.hash@,
            data: self.data@,
        }
    }
}

impl Block {
    /// Assembles a block from already validated parts.
    pub fn new(header: Header, gas_used: u64, hash: Sha256, data: BlockData) -> (r: Self)
        ensures
            r@ == (BlockV {
                header: header@,
                gas_used: gas_used as int,
                hash: hash@,
                data: data@,
            }),
    {
        Block { header, gas_used, hash, data }
    }

    pub fn header(&self) -> (r: &Header)
        ensures
            r@ == self@.header,
    {
        &self.header
    }

    pub fn gas_used(&self) -> (r: u64)
        ensures
            r as int == self@.gas_used,
    {
        self.gas_used
    }

    pub fn hash(&self) -> (r: &Sha256)
        ensures
            r@ == self@.hash,
    {
        &self.hash
    }

    pub fn data(&self) -> (r: &BlockData)
        ensures
            r@ == self@.data,
    {
        &self.data
    }
}

} // verus!
