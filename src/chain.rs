//! The chain: balances, sealed blocks and the queue of pending transfers.

use vstd::prelude::*;
use crate::block::{
    Block,
    BlockView,
    Header,
    HeaderView,
    Timestamp,
    Transaction,
    TransactionView,
    header_hash,
};
use crate::hashing::HASH_HEX_LEN;
use crate::ledger::{Ledger, credit_fits, credited};
use crate::merkle::merkle_root_of;
use crate::pow::{is_sealed, meets_difficulty, with_nonce};

verus! {

/// The reward issued for each sealed block to a new chain's miner.
pub const INITIAL_REWARD: u64 = 100;

/// The model of a chain.
pub struct ChainView {
    pub ledger: Map<Seq<char>, u64>,
    pub blocks: Seq<BlockView>,
    pub pending: Seq<TransactionView>,
    pub difficulty: u32,
    pub miner_address: Seq<char>,
    pub reward: u64,
}

/// The previous hash written into the first block: 64 `'0'` characters.
pub open spec fn genesis_hash() -> Seq<char> {
    Seq::new(HASH_HEX_LEN as nat, |i: int| '0')
}

/// The sender of every reward transaction.
pub open spec fn reward_sender() -> Seq<char> {
    seq!['R', 'o', 'o', 't']
}

/// The hash the next block links to.
pub open spec fn last_hash_of(blocks: Seq<BlockView>) -> Seq<char> {
    if blocks.len() == 0 {
        genesis_hash()
    } else {
        header_hash(blocks.last().header)
    }
}

/// The transaction that pays the reward of the next block.
pub open spec fn reward_tx(v: ChainView) -> TransactionView {
    TransactionView { sender: reward_sender(), receiver: v.miner_address, amount: v.reward }
}

/// Block `i` links to its predecessor, commits to its transactions, is sealed,
/// counts its transactions and opens with a reward to `miner`.
pub open spec fn block_valid(blocks: Seq<BlockView>, i: int, miner: Seq<char>) -> bool {
    let b = blocks[i];
    &&& b.header.pre_hash == (if i == 0 {
        genesis_hash()
    } else {
        header_hash(blocks[i - 1].header)
    })
    &&& b.count == b.transactions.len()
    &&& b.header.merkle_root == merkle_root_of(b.transactions)
    &&& is_sealed(b.header)
    &&& b.transactions.len() >= 1
    &&& b.transactions[0].sender == reward_sender()
    &&& b.transactions[0].receiver == miner
}

/// Every block of the chain is valid.
pub open spec fn chain_valid(v: ChainView) -> bool {
    forall|i: int| 0 <= i < v.blocks.len() ==> #[trigger] block_valid(v.blocks, i, v.miner_address)
}

/// The funds of `sender` cover `amount`.
pub open spec fn transfer_allowed(m: Map<Seq<char>, u64>, sender: Seq<char>, amount: u64) -> bool {
    m.contains_key(sender) && m[sender] >= amount
}

/// The balances after `amount` moved from `sender` to `receiver`.
pub open spec fn transferred(
    m: Map<Seq<char>, u64>,
    sender: Seq<char>,
    receiver: Seq<char>,
    amount: u64,
) -> Map<Seq<char>, u64> {
    credited(m.insert(sender, (m[sender] - amount) as u64), receiver, amount)
}

/// An allowed transfer keeps the receiver's balance within `u64`.
pub open spec fn transfer_fits(
    m: Map<Seq<char>, u64>,
    sender: Seq<char>,
    receiver: Seq<char>,
    amount: u64,
) -> bool {
    transfer_allowed(m, sender, amount) ==> credit_fits(
        m.insert(sender, (m[sender] - amount) as u64),
        receiver,
        amount,
    )
}

/// Submitting a transfer: applied and queued when the sender's funds cover it,
/// otherwise nothing changes.
pub open spec fn submit_step(
    v0: ChainView,
    sender: Seq<char>,
    receiver: Seq<char>,
    amount: u64,
    ok: bool,
    v1: ChainView,
) -> bool {
    &&& ok == transfer_allowed(v0.ledger, sender, amount)
    &&& ok ==> v1 == ChainView {
        ledger: transferred(v0.ledger, sender, receiver, amount),
        pending: v0.pending.push(
            TransactionView { sender: sender, receiver: receiver, amount: amount },
        ),
        ..v0
    }
    &&& !ok ==> v1 == v0
}

/// The header of the next block before its nonce is searched.
pub open spec fn candidate_header(v: ChainView, timestamp: Timestamp) -> HeaderView {
    HeaderView {
        timestamp: timestamp,
        nonce: 0,
        pre_hash: last_hash_of(v.blocks),
        merkle_root: merkle_root_of(seq![reward_tx(v)] + v.pending),
        difficulty: v.difficulty,
    }
}

/// Some nonce seals the next block.
pub open spec fn can_seal(v: ChainView, timestamp: Timestamp) -> bool {
    v.difficulty <= HASH_HEX_LEN && exists|n: u32|
        is_sealed(#[trigger] with_nonce(candidate_header(v, timestamp), n))
}

/// `b` is the next block: the reward followed by the pending transactions,
/// sealed with the smallest nonce that works.
pub open spec fn next_block(v: ChainView, timestamp: Timestamp, b: BlockView) -> bool {
    &&& b.transactions == seq![reward_tx(v)] + v.pending
    &&& b.count == b.transactions.len()
    &&& b.header == with_nonce(candidate_header(v, timestamp), b.header.nonce)
    &&& is_sealed(b.header)
    &&& forall|n: u32|
        n < b.header.nonce ==> !is_sealed(#[trigger] with_nonce(b.header, n))
}

/// Sealing a block: on success the block is appended, the queue emptied and the
/// reward credited to the miner; on failure nothing changes.
pub open spec fn seal_step(v0: ChainView, timestamp: Timestamp, ok: bool, v1: ChainView) -> bool {
    &&& ok == can_seal(v0, timestamp)
    &&& ok ==> {
        &&& v1.blocks.len() == v0.blocks.len() + 1
        &&& next_block(v0, timestamp, v1.blocks.last())
        &&& v1 == ChainView {
            ledger: credited(v0.ledger, v0.miner_address, v0.reward),
            blocks: v0.blocks.push(v1.blocks.last()),
            pending: Seq::empty(),
            ..v0
        }
    }
    &&& !ok ==> v1 == v0
}

/// A chain before its first block.
pub open spec fn empty_chain(miner_address: Seq<char>, difficulty: u32) -> ChainView {
    ChainView {
        ledger: Map::empty(),
        blocks: Seq::empty(),
        pending: Seq::empty(),
        difficulty: difficulty,
        miner_address: miner_address,
        reward: INITIAL_REWARD,
    }
}

/// Relies on std::time::SystemTime::now, read as the time elapsed since the Unix
/// epoch (zero for a clock set before it).
#[verifier::external_body]
fn clock_now() -> (r: Timestamp)
    ensures
        r.nanos < 1_000_000_000,
{
    let d = std::time::SystemTime::now().duration_since(std::time::UNIX_EPOCH).unwrap_or_default();
    Timestamp { secs: d.as_secs(), nanos: d.subsec_nanos() }
}

/// An append-only chain of sealed blocks together with the balances they imply.
pub struct Chain {
    records: Ledger,
    chain: Vec<Block>,
    current_transaction: Vec<Transaction>,
    difficulty: u32,
    miner_address: String,
    reward: u64,
}

impl View for Chain {
    type V = ChainView;

    closed spec fn view(&self) -> ChainView {
        ChainView {
            ledger: self.records@,
            blocks: self.chain@.map_values(|b: Block| b@),
            pending: self.current_transaction@.map_values(|t: Transaction| t@),
            difficulty: self.difficulty,
            miner_address: self.miner_address@,
            reward: self.reward,
        }
    }
}

impl Chain {
    /// The balances are well formed and every block is valid.
    pub closed spec fn wf(&self) -> bool {
        &&& self.records.wf()
        &&& chain_valid(self@)
    }

    /// The hash of the last block's header, or the genesis hash when there is none.
    pub fn last_hash(&self) -> (r: String)
        ensures
            r@ == last_hash_of(self@.blocks),
    {
        let n = self.chain.len();
        if n == 0 {
            let zeros = "0000000000000000000000000000000000000000000000000000000000000000";
            proof {
                reveal_strlit("0000000000000000000000000000000000000000000000000000000000000000");
            }
            let r = String::from_str(zeros);
            assert(r@ =~= genesis_hash());
            r
        } else {
            assert(self@.blocks.last() == self.chain@[n - 1]@);
            Chain::hash(&self.chain[n - 1].header)
        }
    }

    /// Moves `amount` from `sender` to `receiver` when the sender's balance covers
    /// it. A sender without an account is refused like one without funds.
    pub fn check_transfer_availability(
        &mut self,
        sender: &String,
        receiver: &String,
        amount: u64,
    ) -> (ok: bool)
        requires
            old(self).wf(),
            transfer_fits(old(self)@.ledger, sender@, receiver@, amount),
        ensures
            final(self).wf(),
            ok == transfer_allowed(old(self)@.ledger, sender@, amount),
            ok ==> final(self)@ == (ChainView {
                ledger: transferred(old(self)@.ledger, sender@, receiver@, amount),
                ..old(self)@
            }),
            !ok ==> final(self)@ == old(self)@,
    {
        match self.records.balance(sender) {
            Some(val) => {
                if val < amount {
                    return false;
                }
            },
            None => {
                return false;
            },
        }
        self.records.debit(sender, amount);
        self.records.credit(receiver, amount);
        assert(self@.blocks == old(self)@.blocks);
        assert(chain_valid(self@));
        true
    }

    /// Submits a transfer: when the sender's funds cover it, it is applied to the
    /// balances and queued for the next block; otherwise nothing changes.
    pub fn new_transaction(&mut self, sender: String, receiver: String, amount: u64) -> (ok: bool)
        requires
            old(self).wf(),
            transfer_fits(old(self)@.ledger, sender@, receiver@, amount),
        ensures
            final(self).wf(),
            submit_step(old(self)@, sender@, receiver@, amount, ok, final(self)@),
    {
        if !self.check_transfer_availability(&sender, &receiver, amount) {
            return false;
        }
        self.current_transaction.push(Transaction { sender, receiver, amount });
        assert(self@.pending =~= old(self)@.pending.push(
            TransactionView { sender: sender@, receiver: receiver@, amount: amount },
        ));
        true
    }

    /// Sets the difficulty of the blocks to come.
    pub fn update_difficulty(&mut self, difficulty: u32) -> (r: bool)
        requires
            old(self).wf(),
        ensures
            final(self).wf(),
            r,
            final(self)@ == (ChainView { difficulty: difficulty, ..old(self)@ }),
    {
        self.difficulty = difficulty;
        true
    }

    /// Sets the reward of the blocks to come.
    pub fn update_reward(&mut self, reward: u64) -> (r: bool)
        requires
            old(self).wf(),
        ensures
            final(self).wf(),
            r,
            final(self)@ == (ChainView { reward: reward, ..old(self)@ }),
    {
        self.reward = reward;
        true
    }

    /// Seals the next block at `timestamp`: the reward transaction followed by
    /// every pending transaction, linked to the last block, committed to by its
    /// Merkle root and sealed by proof of work. On success the queue is emptied,
    /// the miner is credited and the block appended; when no nonce seals the
    /// header, nothing changes.
    pub fn generate_new_block_at(&mut self, timestamp: Timestamp) -> (ok: bool)
        requires
            old(self).wf(),
            credit_fits(old(self)@.ledger, old(self)@.miner_address, old(self)@.reward),
            old(self)@.pending.len() < u32::MAX,
        ensures
            final(self).wf(),
            seal_step(old(self)@, timestamp, ok, final(self)@),
    {
        let ghost v0 = self@;
        let pre_hash = self.last_hash();
        proof {
            reveal_strlit("Root");
        }
        let transaction_reward = Transaction {
            sender: String::from_str("Root"),
            receiver: self.miner_address.clone(),
            amount: self.reward,
        };
        assert(transaction_reward@ == reward_tx(v0)) by {
            assert(transaction_reward.sender@ =~= reward_sender());
        }
        let mut transactions: Vec<Transaction> = Vec::new();
        transactions.push(transaction_reward);
        transactions.append(&mut self.current_transaction);
        let ghost txs = seq![reward_tx(v0)] + v0.pending;
        assert(transactions@.map_values(|t: Transaction| t@) =~= txs);
        let merkle_root = Chain::get_merkle(&transactions);
        let mut header = Header {
            timestamp,
            nonce: 0,
            pre_hash,
            merkle_root,
            difficulty: self.difficulty,
        };
        let ghost h0 = header@;
        assert(h0 == candidate_header(v0, timestamp));
        if !Chain::proof_of_work(&mut header) {
            transactions.remove(0);
            self.current_transaction = transactions;
            assert(self@.pending =~= v0.pending);
            assert(self@ == v0);
            return false;
        }
        assert(with_nonce(h0, header.nonce) == header@);
        assert(can_seal(v0, timestamp));
        let count = transactions.len() as u32;
        let block = Block { header, count, transactions };
        assert(next_block(v0, timestamp, block@)) by {
            assert forall|n: u32| n < block@.header.nonce implies !is_sealed(
                #[trigger] with_nonce(block@.header, n),
            ) by {
                assert(with_nonce(block@.header, n) == with_nonce(h0, n));
            }
        }
        self.records.credit(&self.miner_address, self.reward);
        self.chain.push(block);
        assert(self@.blocks =~= v0.blocks.push(block@));
        assert(self@.pending =~= Seq::<TransactionView>::empty());
        assert(chain_valid(self@)) by {
            assert forall|i: int| 0 <= i < self@.blocks.len() implies #[trigger] block_valid(
                self@.blocks,
                i,
                self@.miner_address,
            ) by {
                if i < v0.blocks.len() {
                    assert(block_valid(v0.blocks, i, v0.miner_address));
                }
            }
        }
        true
    }

    /// Seals the next block at the current time; see `generate_new_block_at`.
    pub fn generate_new_block(&mut self) -> (ok: bool)
        requires
            old(self).wf(),
            credit_fits(old(self)@.ledger, old(self)@.miner_address, old(self)@.reward),
            old(self)@.pending.len() < u32::MAX,
        ensures
            final(self).wf(),
            ok ==> seal_step(
                old(self)@,
                final(self)@.blocks.last().header.timestamp,
                true,
                final(self)@,
            ),
            !ok ==> final(self)@ == old(self)@,
            exists|t: Timestamp| #[trigger] seal_step(old(self)@, t, ok, final(self)@),
    {
        let now = clock_now();
        self.generate_new_block_at(now)
    }

    /// A chain for `miner_address` whose genesis block is sealed at once (the
    /// chain stays empty when no nonce seals it).
    pub fn new(miner_address: String, difficulty: u32) -> (c: Chain)
        ensures
            c.wf(),
            c@.blocks.len() <= 1,
            c@.blocks.len() == 1 ==> seal_step(
                empty_chain(miner_address@, difficulty),
                c@.blocks[0].header.timestamp,
                true,
                c@,
            ),
            c@.blocks.len() == 0 ==> c@ == empty_chain(miner_address@, difficulty),
            exists|t: Timestamp|
                seal_step(
                    empty_chain(miner_address@, difficulty),
                    t,
                    #[trigger] can_seal(empty_chain(miner_address@, difficulty), t),
                    c@,
                ),
    {
        let mut chain = Chain {
            records: Ledger::new(),
            chain: Vec::new(),
            current_transaction: Vec::new(),
            difficulty,
            miner_address,
            reward: INITIAL_REWARD,
        };
        assert(chain@.blocks =~= Seq::<BlockView>::empty());
        assert(chain@.pending =~= Seq::<TransactionView>::empty());
        assert(chain@ == empty_chain(chain.miner_address@, difficulty));
        let ghost e = chain@;
        let ok = chain.generate_new_block();
        proof {
            let t = choose|t: Timestamp| seal_step(e, t, ok, chain@);
            assert(seal_step(e, t, can_seal(e, t), chain@));
        }
        chain
    }

    /// The sealed blocks, oldest first.
    pub fn blocks(&self) -> (r: &Vec<Block>)
        ensures
            r@.map_values(|b: Block| b@) == self@.blocks,
    {
        &self.chain
    }

    /// The transfers waiting for the next block, in submission order.
    pub fn pending_transactions(&self) -> (r: &Vec<Transaction>)
        ensures
            r@.map_values(|t: Transaction| t@) == self@.pending,
    {
        &self.current_transaction
    }

    /// The balance of `id`, or `None` for an account that never received funds.
    pub fn balance(&self, id: &String) -> (r: Option<u64>)
        requires
            self.wf(),
        ensures
            r == (if self@.ledger.contains_key(id@) {
                Some(self@.ledger[id@])
            } else {
                None
            }),
    {
        self.records.balance(id)
    }

    /// The difficulty of the blocks to come.
    pub fn difficulty(&self) -> (r: u32)
        ensures
            r == self@.difficulty,
    {
        self.difficulty
    }

    /// The reward of the blocks to come.
    pub fn reward(&self) -> (r: u64)
        ensures
            r == self@.reward,
    {
        self.reward
    }

    /// The account that receives the rewards.
    pub fn miner_address(&self) -> (r: &String)
        ensures
            r@ == self@.miner_address,
    {
        &self.miner_address
    }
}

/// Every block of a chain records the number of its transactions.
pub proof fn lemma_block_counts(c: &Chain)
    requires
        c.wf(),
    ensures
        forall|i: int|
            0 <= i < c@.blocks.len() ==> #[trigger] c@.blocks[i].count
                == c@.blocks[i].transactions.len(),
{
    assert forall|i: int| 0 <= i < c@.blocks.len() implies #[trigger] c@.blocks[i].count
        == c@.blocks[i].transactions.len() by {
        assert(block_valid(c@.blocks, i, c@.miner_address));
    }
}

/// The first block links to the genesis hash and every later block to the hash
/// of its predecessor's header.
pub proof fn lemma_blocks_linked(c: &Chain)
    requires
        c.wf(),
    ensures
        c@.blocks.len() > 0 ==> c@.blocks[0].header.pre_hash == genesis_hash(),
        forall|i: int|
            0 < i < c@.blocks.len() ==> #[trigger] c@.blocks[i].header.pre_hash == header_hash(
                c@.blocks[i - 1].header,
            ),
{
    if c@.blocks.len() > 0 {
        assert(block_valid(c@.blocks, 0, c@.miner_address));
    }
    assert forall|i: int| 0 < i < c@.blocks.len() implies #[trigger] c@.blocks[i].header.pre_hash
        == header_hash(c@.blocks[i - 1].header) by {
        assert(block_valid(c@.blocks, i, c@.miner_address));
    }
}

/// The hash of every block's header begins with as many `'0'` characters as the
/// block's difficulty.
pub proof fn lemma_blocks_sealed(c: &Chain)
    requires
        c.wf(),
    ensures
        forall|i: int|
            0 <= i < c@.blocks.len() ==> meets_difficulty(
                header_hash(#[trigger] c@.blocks[i].header),
                c@.blocks[i].header.difficulty,
            ),
{
    assert forall|i: int| 0 <= i < c@.blocks.len() implies meets_difficulty(
        header_hash(#[trigger] c@.blocks[i].header),
        c@.blocks[i].header.difficulty,
    ) by {
        assert(block_valid(c@.blocks, i, c@.miner_address));
    }
}

/// The balance of `id` in `m`, zero for an account that never received funds.
pub open spec fn balance_or_zero(m: Map<Seq<char>, u64>, id: Seq<char>) -> int {
    if m.contains_key(id) {
        m[id] as int
    } else {
        0
    }
}

/// An accepted transfer from `a` to `b` followed by a sealed block leaves `b`
/// richer and `a` poorer by the amount (besides the reward when either one is
/// the miner); the transfer is the last transaction of the new block and the
/// queue is left empty, so no later block holds it.
pub proof fn lemma_transfer_then_seal(
    v0: ChainView,
    v1: ChainView,
    v2: ChainView,
    a: Seq<char>,
    b: Seq<char>,
    amount: u64,
    timestamp: Timestamp,
)
    requires
        transfer_fits(v0.ledger, a, b, amount),
        submit_step(v0, a, b, amount, true, v1),
        credit_fits(v1.ledger, v1.miner_address, v1.reward),
        seal_step(v1, timestamp, true, v2),
        a != b,
    ensures
        balance_or_zero(v2.ledger, b) == balance_or_zero(v0.ledger, b) + amount + (if b
            == v0.miner_address {
            v0.reward as int
        } else {
            0
        }),
        balance_or_zero(v2.ledger, a) == balance_or_zero(v0.ledger, a) - amount + (if a
            == v0.miner_address {
            v0.reward as int
        } else {
            0
        }),
        v2.blocks.len() == v0.blocks.len() + 1,
        v2.blocks.last().transactions.last() == (TransactionView {
            sender: a,
            receiver: b,
            amount: amount,
        }),
        v2.pending.len() == 0,
{
    let m0 = v0.ledger;
    let md = m0.insert(a, (m0[a] - amount) as u64);
    assert(v1.ledger == credited(md, b, amount));
    assert(v2.ledger == credited(v1.ledger, v0.miner_address, v0.reward));
    let txs = v2.blocks.last().transactions;
    assert(txs == seq![reward_tx(v1)] + v1.pending);
    assert(txs.last() == v1.pending.last());
}

/// A transfer that the sender's funds do not cover is refused and changes
/// nothing: no balance, no block and no queued transaction.
pub proof fn lemma_rejected_transfer(
    v0: ChainView,
    v1: ChainView,
    a: Seq<char>,
    b: Seq<char>,
    amount: u64,
    ok: bool,
)
    requires
        submit_step(v0, a, b, amount, ok, v1),
        !transfer_allowed(v0.ledger, a, amount),
    ensures
        !ok,
        v1 == v0,
{
}

} // verus!
