//! Transactions, headers and blocks, with their models and encodings.

use vstd::prelude::*;
use crate::encoding::{Encode, framed, le_bytes, push_framed, push_le};
use crate::hashing::hash_of;

verus! {

/// A moment as whole seconds and nanoseconds since the Unix epoch.
#[derive(Clone, Copy, Debug, PartialEq, Eq, Structural)]
pub struct Timestamp {
    pub secs: u64,
    pub nanos: u32,
}

/// A transfer of `amount` from `sender` to `receiver`.
#[derive(Clone, Debug)]
pub struct Transaction {
    pub sender: String,
    pub receiver: String,
    pub amount: u64,
}

/// The sealed metadata of a block.
#[derive(Clone, Debug)]
pub struct Header {
    pub timestamp: Timestamp,
    pub nonce: u32,
    pub pre_hash: String,
    pub merkle_root: String,
    pub difficulty: u32,
}

/// A sealed batch of transactions; `count` is the number of transactions.
#[derive(Clone, Debug)]
pub struct Block {
    pub header: Header,
    pub count: u32,
    pub transactions: Vec<Transaction>,
}

pub struct TransactionView {
    pub sender: Seq<char>,
    pub receiver: Seq<char>,
    pub amount: u64,
}

pub struct HeaderView {
    pub timestamp: Timestamp,
    pub nonce: u32,
    pub pre_hash: Seq<char>,
    pub merkle_root: Seq<char>,
    pub difficulty: u32,
}

pub struct BlockView {
    pub header: HeaderView,
    pub count: u32,
    pub transactions: Seq<TransactionView>,
}

impl View for Transaction {
    type V = TransactionView;

    open spec fn view(&self) -> TransactionView {
        TransactionView { sender: self.sender@, receiver: self.receiver@, amount: self.amount }
    }
}

impl View for Header {
    type V = HeaderView;

    open spec fn view(&self) -> HeaderView {
        HeaderView {
            timestamp: self.timestamp,
            nonce: self.nonce,
            pre_hash: self.pre_hash@,
            merkle_root: self.merkle_root@,
            difficulty: self.difficulty,
        }
    }
}

/// The models of a list of transactions.
pub open spec fn tx_views(txs: Seq<Transaction>) -> Seq<TransactionView> {
    txs.map_values(|t: Transaction| t@)
}

impl View for Block {
    type V = BlockView;

    open spec fn view(&self) -> BlockView {
        BlockView {
            header: self.header@,
            count: self.count,
            transactions: tx_views(self.transactions@),
        }
    }
}

/// Canonical bytes of a transaction.
pub open spec fn encode_tx(t: TransactionView) -> Seq<u8> {
    framed(t.sender) + framed(t.receiver) + le_bytes(t.amount as nat, 8)
}

/// Canonical bytes of a header.
pub open spec fn encode_header(h: HeaderView) -> Seq<u8> {
    le_bytes(h.timestamp.secs as nat, 8) + le_bytes(h.timestamp.nanos as nat, 4) + le_bytes(
        h.nonce as nat,
        4,
    ) + framed(h.pre_hash) + framed(h.merkle_root) + le_bytes(h.difficulty as nat, 4)
}

/// The hash that identifies a header.
pub open spec fn header_hash(h: HeaderView) -> Seq<char> {
    hash_of(encode_header(h))
}

/// The hash of a transaction, a leaf of the Merkle tree.
pub open spec fn tx_hash(t: TransactionView) -> Seq<char> {
    hash_of(encode_tx(t))
}

impl Encode for Transaction {
    open spec fn encoding(&self) -> Seq<u8> {
        encode_tx(self@)
    }

    fn encode(&self) -> (r: Vec<u8>) {
        let mut out: Vec<u8> = Vec::new();
        push_framed(&mut out, self.sender.as_str());
        push_framed(&mut out, self.receiver.as_str());
        push_le(&mut out, self.amount, 8);
        assert(out@ =~= encode_tx(self@));
        out
    }
}

impl Encode for Header {
    open spec fn encoding(&self) -> Seq<u8> {
        encode_header(self@)
    }

    fn encode(&self) -> (r: Vec<u8>) {
        let mut out: Vec<u8> = Vec::new();
        push_le(&mut out, self.timestamp.secs, 8);
        push_le(&mut out, self.timestamp.nanos as u64, 4);
        push_le(&mut out, self.nonce as u64, 4);
        push_framed(&mut out, self.pre_hash.as_str());
        push_framed(&mut out, self.merkle_root.as_str());
        push_le(&mut out, self.difficulty as u64, 4);
        assert(out@ =~= encode_header(self@));
        out
    }
}

} // verus!
