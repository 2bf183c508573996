use vstd::prelude::*;

use crate::domain::{AnyMsg, AnyMsgV, Coin, CoinV, SignerKey, SignerKeyV};
use crate::types::{Address, NonEmptyBz, Sha256};

verus! {

/// A non-empty transaction memo.
pub struct Memo {
    text: String,
}

/// A non-empty execution codespace.
pub struct Codespace {
    text: String,
}

/// A non-empty list of fee coins.
pub struct Fees {
    coins: Vec<Coin>,
}

/// A non-empty list of transaction messages.
pub struct Msgs {
    msgs: Vec<AnyMsg>,
}

impl View for Memo {
    type V = Seq<char>;

    closed spec fn view(&self) -> Seq<char> {
        self.text@
    }
}

impl View for Codespace {
    type V = Seq<char>;

    closed spec fn view(&self) -> Seq<char> {
        self.text@
    }
}

impl View for Fees {
    type V = Seq<CoinV>;

    closed spec fn view(&self) -> Seq<CoinV> {
        self.coins.deep_view()
    }
}

impl View for Msgs {
    type V = Seq<AnyMsgV>;

    closed spec fn view(&self) -> Seq<AnyMsgV> {
        self.msgs.deep_view()
    }
}

impl Memo {
    #[verifier::type_invariant]
    pub closed spec fn wf(self) -> bool {
        self.text@.len() > 0
    }

    /// Accepts exactly the non-empty strings.
    pub fn new(memo: String) -> (r: Option<Self>)
        ensures
            memo@.len() > 0 ==> (r matches Some(m) && m@ == memo@),
            memo@.len() == 0 ==> r is None,
    {
        if memo.as_str().is_empty() {
            None
        } else {
            Some(Memo { text: memo })
        }
    }

    pub fn get(&self) -> (r: &String)
        ensures
            r@ == self@,
            r@.len() > 0,
    {
        proof {
            use_type_invariant(self);
        }
        &self.text
    }
}

impl Codespace {
    #[verifier::type_invariant]
    pub closed spec fn wf(self) -> bool {
        self.text@.len() > 0
    }

    /// Accepts exactly the non-empty strings.
    pub fn new(codespace: String) -> (r: Option<Self>)
        ensures
            codespace@.len() > 0 ==> (r matches Some(c) && c@ == codespace@),
            codespace@.len() == 0 ==> r is None,
    {
        if codespace.as_str().is_empty() {
            None
        } else {
            Some(Codespace { text: codespace })
        }
    }

    pub fn get(&self) -> (r: &String)
        ensures
            r@ == self@,
            r@.len() > 0,
    {
        proof {
            use_type_invariant(self);
        }
        &self.text
    }
}

impl Fees {
    #[verifier::type_invariant]
    pub closed spec fn wf(self) -> bool {
        self.coins@.len() > 0
    }

    /// Accepts exactly the non-empty coin lists.
    pub fn new(fees: Vec<Coin>) -> (r: Option<Self>)
        ensures
            fees@.len() > 0 ==> (r matches Some(f) && f@ == fees.deep_view()),
            fees@.len() == 0 ==> r is None,
    {
        if fees.len() > 0 {
            Some(Fees { coins: fees })
        } else {
            None
        }
    }

    pub fn get(&self) -> (r: &Vec<Coin>)
        ensures
            r.deep_view() == self@,
            r@.len() > 0,
    {
        proof {
            use_type_invariant(self);
        }
        &self.coins
    }
}

impl Msgs {
    #[verifier::type_invariant]
    pub closed spec fn wf(self) -> bool {
        self.msgs@.len() > 0
    }

    /// Accepts exactly the non-empty message lists.
    pub fn new(msgs: Vec<AnyMsg>) -> (r: Option<Self>)
        ensures
            msgs@.len() > 0 ==> (r matches Some(m) && m@ == msgs.deep_view()),
            msgs@.len() == 0 ==> r is None,
    {
        if msgs.len() > 0 {
            Some(Msgs { msgs })
        } else {
            None
        }
    }

    pub fn get(&self) -> (r: &Vec<AnyMsg>)
        ensures
            r.deep_view() == self@,
            r@.len() > 0,
    {
        proof {
            use_type_invariant(self);
        }
        &self.msgs
    }
}

/// View of a fully normalized transaction.
#[verifier::ext_equal]
pub ghost struct TxV {
    pub block_height: int,
    pub tx_idx_in_block: int,
    pub tx_hash: Seq<u8>,
    pub msgs: Seq<AnyMsgV>,
    pub memo: Option<Seq<char>>,
    pub timeout_height: Option<int>,
    pub signatures: Seq<Seq<u8>>,
    pub signers: Seq<SignerKeyV>,
    pub fees: Option<Seq<CoinV>>,
    pub payer: Seq<u8>,
    pub granter: Option<Seq<u8>>,
    pub code: int,
    pub codespace: Option<Seq<char>>,
    pub gas_limit: int,
    pub gas_wanted: int,
    pub gas_used: int,
    pub data_bz: Option<Seq<u8>>,
    pub tx_bz: Seq<u8>,
}

/// A fully normalized transaction together with its execution result.
pub struct Tx {
    block_height: u64,
    tx_idx_in_block: u64,
    tx_hash: Sha256,
    msgs: Msgs,
    memo: Option<Memo>,
    timeout_height: Option<u64>,
    signatures: Vec<Vec<u8>>,
    signers: Vec<SignerKey>,
    fees: Option<Fees>,
    payer: Address,
    granter: Option<Address>,
    code: u32,
    codespace: Option<Codespace>,
    gas_limit: u64,
    gas_wanted: u64,
    gas_used: u64,
    data_bz: Option<NonEmptyBz>,
    tx_bz: NonEmptyBz,
}

impl View for Tx {
    type V = TxV;

    closed spec fn view(&self) -> TxV {
        TxV {
            block_height: self.block_height as int,
            tx_idx_in_block: self.tx_idx_in_block as int,
            tx_hash: self.tx_hash@,
            msgs: self.msgs@,
            memo: match self.memo {
                Some(m) => Some(m@),
                None => None,
            },
            timeout_height: match self.timeout_height {
                Some(h) => Some(h as int),
                None => None,
            },
            signatures: self.signatures.deep_view(),
            signers: self.signers.deep_view(),
            fees: match self.fees {
                Some(f) => Some(f@),
                None => None,
            },
            payer: self.payer@,
            granter: match self.granter {
                Some(g) => Some(g@),
                None => None,
            },
            code: self.code as int,
            codespace: match self.codespace {
                Some(c) => Some(c@),
                None => None,
            },
            gas_limit: self.gas_limit as int,
            gas_wanted: self.gas_wanted as int,
            gas_used: self.gas_used as int,
            data_bz: match self.data_bz {
                Some(d) => Some(d@),
                None => None,
            },
            tx_bz: self.tx_bz@,
        }
    }
}

impl DeepView for Tx {
    type V = TxV;

    open spec fn deep_view(&self) -> TxV {
        self.view()
    }
}

impl Tx {
    #[verifier::type_invariant]
    pub closed spec fn wf(self) -> bool {
        &&& self.block_height >= 1
        &&& (self.timeout_height matches Some(h) ==> h >= 1)
    }

    /// Assembles a transaction from already validated parts.
    #[allow(clippy::too_many_arguments)]
    pub fn new(
        block_height: u64,
        tx_idx_in_block: u64,
        tx_hash: Sha256,
        msgs: Msgs,
        memo: Option<Memo>,
        timeout_height: Option<u64>,
        signatures: Vec<Vec<u8>>,
        signers: Vec<SignerKey>,
        fees: Option<Fees>,
        payer: Address,
        granter: Option<Address>,
        code: u32,
        codespace: Option<Codespace>,
        gas_limit: u64,
        gas_wanted: u64,
        gas_used: u64,
        data_bz: Option<NonEmptyBz>,
        tx_bz: NonEmptyBz,
    ) -> (r: Self)
        requires
            block_height >= 1,
            timeout_height matches Some(h) ==> h >= 1,
        ensures
            r@ == (TxV {
                block_height: block_height as int,
                tx_idx_in_block: tx_idx_in_block as int,
                tx_hash: tx_hash@,
                msgs: msgs@,
                memo: match memo {
                    Some(m) => Some(m@),
                    None => None,
                },
                timeout_height: match timeout_height {
                    Some(h) => Some(h as int),
                    None => None,
                },
                signatures: signatures.deep_view(),
                signers: signers.deep_view(),
                fees: match fees {
                    Some(f) => Some(f@),
                    None => None,
                },
                payer: payer@,
                granter: match granter {
                    Some(g) => Some(g@),
                    None => None,
                },
                code: code as int,
                codespace: match codespace {
                    Some(c) => Some(c@),
                    None => None,
                },
                gas_limit: gas_limit as int,
                gas_wanted: gas_wanted as int,
                gas_used: gas_used as int,
                data_bz: match data_bz {
                    Some(d) => Some(d@),
                    None => None,
                },
                tx_bz: tx_bz@,
            }),
    {
        Tx {
            block_height,
            tx_idx_in_block,
            tx_hash,
            msgs,
            memo,
            timeout_height,
            signatures,
            signers,
            fees,
            payer,
            granter,
            code,
            codespace,
            gas_limit,
            gas_wanted,
            gas_used,
            data_bz,
            tx_bz,
        }
    }

    pub fn block_height(&self) -> (r: u64)
        ensures
            r as int == self@.block_height,
            r >= 1,
    {
        proof {
            use_type_invariant(self);
        }
        self.block_height
    }

    pub fn tx_idx_in_block(&self) -> (r: u64)
        ensures
            r as int == self@.tx_idx_in_block,
    {
        self.tx_idx_in_block
    }

    pub fn tx_hash(&self) -> (r: &Sha256)
        ensures
            r@ == self@.tx_hash,
    {
        &self.tx_hash
    }

    pub fn msgs(&self) -> (r: &Msgs)
        ensures
            r@ == self@.msgs,
    {
        &self.msgs
    }

    pub fn memo(&self) -> (r: &Option<Memo>)
        ensures
            r is Some <==> self@.memo is Some,
            r matches Some(m) ==> self@.memo == Some(m@),
    {
        &self.memo
    }

    pub fn timeout_height(&self) -> (r: Option<u64>)
        ensures
            r is Some <==> self@.timeout_height is Some,
            r matches Some(h) ==> self@.timeout_height == Some(h as int) && h >= 1,
    {
        proof {
            use_type_invariant(self);
        }
        self.timeout_height
    }

    pub fn signatures(&self) -> (r: &Vec<Vec<u8>>)
        ensures
            r.deep_view() == self@.signatures,
    {
        &self.signatures
    }

    pub fn signers(&self) -> (r: &Vec<SignerKey>)
        ensures
            r.deep_view() == self@.signers,
    {
        &self.signers
    }

    pub fn fees(&self) -> (r: &Option<Fees>)
        ensures
            r is Some <==> self@.fees is Some,
            r matches Some(f) ==> self@.fees == Some(f@),
    {
        &self.fees
    }

    pub fn payer(&self) -> (r: &Address)
        ensures
            r@ == self@.payer,
    {
        &self.payer
    }

    pub fn granter(&self) -> (r: &Option<Address>)
        ensures
            r is Some <==> self@.granter is Some,
            r matches Some(g) ==> self@.granter == Some(g@),
    {
        &self.granter
    }

    pub fn code(&self) -> (r: u32)
        ensures
            r as int == self@.code,
    {
        self.code
    }

    pub fn codespace(&self) -> (r: &Option<Codespace>)
        ensures
            r is Some <==> self@.codespace is Some,
            r matches Some(c) ==> self@.codespace == Some(c@),
    {
        &self.codespace
    }

    pub fn gas_limit(&self) -> (r: u64)
        ensures
            r as int == self@.gas_limit,
    {
        self.gas_limit
    }

    pub fn gas_wanted(&self) -> (r: u64)
        ensures
            r as int == self@.gas_wanted,
    {
        self.gas_wanted
    }

    pub fn gas_used(&self) -> (r: u64)
        ensures
            r as int == self@.gas_used,
    {
        self.gas_used
    }

    pub fn data_bz(&self) -> (r: &Option<NonEmptyBz>)
        ensures
            r is Some <==> self@.data_bz is Some,
            r matches Some(d) ==> self@.data_bz == Some(d@),
    {
        &self.data_bz
    }

    pub fn tx_bz(&self) -> (r: &NonEmptyBz)
        ensures
            r@ == self@.tx_bz,
    {
        &self.tx_bz
    }
}

} // verus!
