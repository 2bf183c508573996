use vstd::prelude::*;

use crate::errors::IndexerError;
use crate::normalize::{
    block_err_matches, process_block_spec, raw_header_wf, RawHeader, RawHeaderV, RawTxResult,
    RawTxResultV,
};
use crate::registry::SignerRegistry;
use crate::store::{entry_spec, has_height, store_wf, Store};
use crate::types::SHA256_LEN;

verus! {

/// View of a raw block as a subscription event carries it.
#[verifier::ext_equal]
pub ghost struct RawBlockV {
    pub header: RawHeaderV,
    pub data: Seq<Seq<u8>>,
}

/// A raw block as a subscription event carries it.
pub struct RawBlock {
    pub header: RawHeader,
    pub data: Vec<Vec<u8>>,
}

impl View for RawBlock {
    type V = RawBlockV;

    open spec fn view(&self) -> RawBlockV {
        RawBlockV { header: self.header@, data: self.data.deep_view() }
    }
}

/// View of a new-block subscription event.
#[verifier::ext_equal]
pub ghost struct NewBlockEventV {
    pub block: Option<RawBlockV>,
    pub block_id_hash: Option<Seq<u8>>,
    pub tx_results: Option<Seq<RawTxResultV>>,
}

/// A new-block subscription event: the node may omit the block, the block
/// hash or the execution results.
pub struct NewBlockEvent {
    pub block: Option<RawBlock>,
    pub block_id_hash: Option<Vec<u8>>,
    pub tx_results: Option<Vec<RawTxResult>>,
}

impl View for NewBlockEvent {
    type V = NewBlockEventV;

    open spec fn view(&self) -> NewBlockEventV {
        NewBlockEventV {
            block: match self.block {
                Some(ref b) => Some(b@),
                None => None,
            },
            block_id_hash: self.block_id_hash.deep_view(),
            tx_results: match self.tx_results {
                Some(ref r) => Some(r.deep_view()),
                None => None,
            },
        }
    }
}

/// An event is accepted when it carries both a block and execution
/// results.
pub open spec fn accepted(e: NewBlockEventV) -> bool {
    e.block is Some && e.tx_results is Some
}

/// An event is well-shaped when its header is and its hash, if present,
/// has digest width.
pub open spec fn event_wf(e: NewBlockEventV) -> bool {
    &&& (e.block matches Some(b) ==> raw_header_wf(b.header))
    &&& (e.block_id_hash matches Some(h) ==> h.len() == SHA256_LEN)
}

/// What processing one accepted event appends to the store, when both
/// normalization and row conversion succeed.
pub open spec fn event_entry_spec(
    eth_enabled: bool,
    reg: Seq<crate::registry::RegistryEntryV>,
    e: NewBlockEventV,
) -> Option<crate::store::BlockEntryV> {
    let b = e.block->Some_0;
    match process_block_spec(eth_enabled, reg, b.header, e.block_id_hash, b.data, e.tx_results->Some_0) {
        Err(_) => None,
        Ok(p) => match entry_spec(p.0, p.1) {
            Err(_) => None,
            Ok(en) => Some(en),
        },
    }
}

/// The outcome of feeding one event to the live indexer.
pub enum LiveOutcome {
    /// The event lacked a block or results and was ignored.
    Skipped,
    /// The event was normalized and persisted; carries the first-height
    /// signal if this was the first accepted event.
    Processed(Option<u64>),
}

/// The live indexer's decision state: which capability is enabled and
/// whether the first-height signal has already been sent.
pub struct LiveIndexer {
    eth_enabled: bool,
    signaled: bool,
}

impl LiveIndexer {
    /// Whether the first-height signal has been sent.
    pub closed spec fn spec_signaled(&self) -> bool {
        self.signaled
    }

    /// Whether the Ethereum-style key capability is enabled.
    pub closed spec fn spec_eth_enabled(&self) -> bool {
        self.eth_enabled
    }

    /// A fresh live indexer that has not yet signaled.
    pub fn new(eth_enabled: bool) -> (r: Self)
        ensures
            !r.spec_signaled(),
            r.spec_eth_enabled() == eth_enabled,
    {
        LiveIndexer { eth_enabled, signaled: false }
    }

    /// Feeds one subscription event to the indexer: unshaped events are
    /// skipped; the first accepted event records its height and emits the
    /// first-height signal, exactly once per run; every accepted event is
    /// normalized and persisted; any normalization or persistence failure
    /// is fatal and leaves the store unchanged.
    pub fn on_event(&mut self, store: &mut Store, registry: &SignerRegistry, event: &NewBlockEvent)
        -> (r: Result<LiveOutcome, IndexerError>)
        requires
            store_wf(old(store)@),
            event_wf(event@),
        ensures
            store_wf(final(store)@),
            !accepted(event@) ==> r == Ok::<LiveOutcome, IndexerError>(LiveOutcome::Skipped)
                && final(store)@ == old(store)@ && final(self).spec_signaled() == old(
                self,
            ).spec_signaled(),
            accepted(event@) && event@.block->Some_0.header.height < 1 ==> (r matches Err(e)
                && e is Height) && final(store)@ == old(store)@ && final(self).spec_signaled()
                == old(self).spec_signaled(),
            accepted(event@) && event@.block->Some_0.header.height >= 1 ==> {
                &&& final(self).spec_signaled()
                &&& (match r {
                    Ok(LiveOutcome::Processed(sig)) => {
                        &&& (sig matches Some(h) <==> !old(self).spec_signaled())
                        &&& (sig matches Some(h) ==> h as int == event@.block->Some_0.header.height)
                        &&& event_entry_spec(final(self).spec_eth_enabled(), registry@, event@)
                            matches Some(en) && final(store)@ == old(store)@.push(en)
                    },
                    Ok(LiveOutcome::Skipped) => false,
                    Err(e) => final(store)@ == old(store)@ && (match process_block_spec(
                        final(self).spec_eth_enabled(),
                        registry@,
                        event@.block->Some_0.header,
                        event@.block_id_hash,
                        event@.block->Some_0.data,
                        event@.tx_results->Some_0,
                    ) {
                        Err(ev) => block_err_matches(e, ev),
                        Ok(p) => match entry_spec(p.0, p.1) {
                            Err(iv) => e matches IndexerError::Store(
                                crate::errors::StoreError::InvalidValue(iv2),
                            ) && iv2 == iv,
                            Ok(_) => (e matches IndexerError::Store(se) && se is Duplicate)
                                && has_height(old(store)@, p.0.header.height),
                        },
                    }),
                })
            },
    {
        let (block, results) = match (&event.block, &event.tx_results) {
            (Some(b), Some(rs)) => (b, rs),
            _ => {
                return Ok(LiveOutcome::Skipped);
            },
        };
        let height = block.header.height;
        if height < 1 {
            return Err(IndexerError::Height);
        }
        let signal: Option<u64> = if !self.signaled {
            self.signaled = true;
            Some(height)
        } else {
            None
        };
        let header = block.header.clone_header();
        let data = clone_data(&block.data);
        let results2 = clone_results(results);
        let hash: Option<Vec<u8>> = match &event.block_id_hash {
            Some(h) => Some(crate::types::clone_bytes(h)),
            None => None,
        };
        let (b, txs) = match crate::normalize::process_block(
            self.eth_enabled,
            registry,
            header,
            hash,
            data,
            results2,
        ) {
            Ok(p) => p,
            Err(e) => {
                return Err(e);
            },
        };
        proof {
            crate::store::lemma_process_block_bundle(
                self.eth_enabled,
                registry@,
                event@.block->Some_0.header,
                event@.block_id_hash,
                event@.block->Some_0.data,
                event@.tx_results->Some_0,
            );
        }
        match store.save_block_with_txs(&b, &txs) {
            Ok(()) => Ok(LiveOutcome::Processed(signal)),
            Err(se) => Err(IndexerError::Store(se)),
        }
    }
}

/// The number of first-height signals a run emits, given whether the
/// indexer has already signaled and the acceptance of each event in
/// order: an accepted event signals exactly when none has before, as
/// `on_event` emits them.
pub open spec fn signals_in_run(signaled0: bool, accepts: Seq<bool>) -> int
    decreases accepts.len(),
{
    if accepts.len() == 0 {
        0
    } else {
        (if accepts[0] && !signaled0 {
            1int
        } else {
            0int
        }) + signals_in_run(signaled0 || accepts[0], accepts.drop_first())
    }
}

/// The first-height signal fires exactly once per live run: a fresh
/// indexer signals once as soon as any event is accepted and never
/// again, and an indexer that has already signaled never signals.
pub proof fn lemma_first_height_signal_once(signaled0: bool, accepts: Seq<bool>)
    ensures
        signaled0 ==> signals_in_run(signaled0, accepts) == 0,
        !signaled0 ==> signals_in_run(signaled0, accepts) == (if exists|i: int|
            0 <= i < accepts.len() && accepts[i] {
            1int
        } else {
            0int
        }),
    decreases accepts.len(),
{
    if accepts.len() > 0 {
        lemma_first_height_signal_once(signaled0 || accepts[0], accepts.drop_first());
        let rest = accepts.drop_first();
        if !signaled0 && !accepts[0] {
            if exists|i: int| 0 <= i < accepts.len() && accepts[i] {
                let i = choose|i: int| 0 <= i < accepts.len() && accepts[i];
                assert(rest[i - 1]);
            }
            if exists|i: int| 0 <= i < rest.len() && rest[i] {
                let i = choose|i: int| 0 <= i < rest.len() && rest[i];
                assert(accepts[i + 1]);
            }
        }
    }
}

/// Copies a block's raw transaction byte strings.
pub fn clone_data(data: &Vec<Vec<u8>>) -> (r: Vec<Vec<u8>>)
    ensures
        r.deep_view() == data.deep_view(),
{
    let mut out: Vec<Vec<u8>> = Vec::new();
    let mut i: usize = 0;
    while i < data.len()
        invariant
            i <= data@.len(),
            out@.len() == i,
            forall|j: int| 0 <= j < i ==> (#[trigger] out@[j])@ == (data@[j])@,
        decreases data@.len() - i,
    {
        out.push(crate::types::clone_bytes(&data[i]));
        i = i + 1;
    }
    proof {
        assert forall|j: int| 0 <= j < data@.len() implies #[trigger] out.deep_view()[j]
            == data.deep_view()[j] by {
            assert(out.deep_view()[j] == (out@[j])@);
            assert(data.deep_view()[j] == (data@[j])@);
        }
        assert(out.deep_view() =~= data.deep_view());
    }
    out
}

/// Copies a list of execution results.
pub fn clone_results(results: &Vec<RawTxResult>) -> (r: Vec<RawTxResult>)
    ensures
        r.deep_view() == results.deep_view(),
{
    let mut out: Vec<RawTxResult> = Vec::new();
    let mut i: usize = 0;
    while i < results.len()
        invariant
            i <= results@.len(),
            out@.len() == i,
            forall|j: int| 0 <= j < i ==> (#[trigger] out@[j])@ == (results@[j])@,
        decreases results@.len() - i,
    {
        out.push(results[i].clone_result());
        i = i + 1;
    }
    proof {
        assert forall|j: int| 0 <= j < results@.len() implies #[trigger] out.deep_view()[j]
            == results.deep_view()[j] by {
            assert(out.deep_view()[j] == (out@[j])@);
            assert(results.deep_view()[j] == (results@[j])@);
        }
        assert(out.deep_view() =~= results.deep_view());
    }
    out
}

} // verus!
