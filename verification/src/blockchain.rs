//! The ledger engine: transactions, block headers, blocks and the chain,
//! with the merkle aggregation, hash linking and proof-of-work search that
//! tie them together.
//!
//! Amounts are fixed-point: a `u64` counting hundredths of a unit, so that
//! every value the engine handles is a plain integer.

use crate::hashing::{hash_text, hex_nopad, sha256};
use crate::numerals::{dec_rep, digit_str, u64_to_string};
use vstd::prelude::*;
use vstd::string::{StrSliceExecFns, StringExecFns};

verus! {

/// The reward granted to the miner of each block until it is changed:
/// 100.00 units, in hundredths.
pub const DEFAULT_REWARD: u64 = 10000;

/// A value transfer, pending until absorbed into a mined block.
#[derive(Debug)]
pub struct Transaction {
    pub sender: String,
    pub receiver: String,
    /// Hundredths of a unit.
    pub amount: u64,
}

/// A block header: what gets hashed to link blocks and to prove work.
#[derive(Debug)]
pub struct BlockHeader {
    /// Second within the minute at which mining began.
    pub timestamp: u8,
    pub nonce: u32,
    pub pre_hash: String,
    pub merkle: String,
    pub difficulty: u32,
}

/// An immutable batch of transactions under a mined header.
#[derive(Debug)]
pub struct Block {
    pub header: BlockHeader,
    pub count: u32,
    pub transactions: Vec<Transaction>,
}

/// The ledger engine: the block list, the pending pool, and the mining
/// parameters.
pub struct Chain {
    pub chain: Vec<Block>,
    pub current_transactions: Vec<Transaction>,
    pub difficulty: u32,
    pub miner_addr: String,
    pub reward: u64,
}

/// The mathematical value of a transaction.
#[verifier::ext_equal]
pub ghost struct TransactionView {
    pub sender: Seq<char>,
    pub receiver: Seq<char>,
    pub amount: u64,
}

/// The mathematical value of a block header.
#[verifier::ext_equal]
pub ghost struct HeaderView {
    pub timestamp: u8,
    pub nonce: u32,
    pub pre_hash: Seq<char>,
    pub merkle: Seq<char>,
    pub difficulty: u32,
}

/// The mathematical value of a block.
#[verifier::ext_equal]
pub ghost struct BlockView {
    pub header: HeaderView,
    pub count: u32,
    pub transactions: Seq<TransactionView>,
}

/// The mathematical value of the whole engine state.
#[verifier::ext_equal]
pub ghost struct ChainView {
    pub blocks: Seq<BlockView>,
    pub pending: Seq<TransactionView>,
    pub difficulty: u32,
    pub miner_addr: Seq<char>,
    pub reward: u64,
}

impl View for Transaction {
    type V = TransactionView;

    open spec fn view(&self) -> TransactionView {
        TransactionView { sender: self.sender@, receiver: self.receiver@, amount: self.amount }
    }
}

impl View for BlockHeader {
    type V = HeaderView;

    open spec fn view(&self) -> HeaderView {
        HeaderView {
            timestamp: self.timestamp,
            nonce: self.nonce,
            pre_hash: self.pre_hash@,
            merkle: self.merkle@,
            difficulty: self.difficulty,
        }
    }
}

pub open spec fn txs_view(s: Seq<Transaction>) -> Seq<TransactionView> {
    s.map_values(|t: Transaction| t@)
}

pub open spec fn blocks_view(s: Seq<Block>) -> Seq<BlockView> {
    s.map_values(|b: Block| b@)
}

impl View for Block {
    type V = BlockView;

    open spec fn view(&self) -> BlockView {
        BlockView { header: self.header@, count: self.count, transactions: txs_view(self.transactions@) }
    }
}

impl View for Chain {
    type V = ChainView;

    open spec fn view(&self) -> ChainView {
        ChainView {
            blocks: blocks_view(self.chain@),
            pending: txs_view(self.current_transactions@),
            difficulty: self.difficulty,
            miner_addr: self.miner_addr@,
            reward: self.reward,
        }
    }
}

/// The canonical text form of a transaction: fields in declaration order,
/// no whitespace.
pub open spec fn transaction_text(t: TransactionView) -> Seq<char> {
    "{\"sender\":\""@ + t.sender + "\",\"receiver\":\""@ + t.receiver + "\",\"amount\":"@
        + dec_rep(t.amount as nat) + "}"@
}

/// The canonical text form of a block header.
pub open spec fn header_text(h: HeaderView) -> Seq<char> {
    "{\"timestamp\":"@ + dec_rep(h.timestamp as nat) + ",\"nonce\":"@ + dec_rep(h.nonce as nat)
        + ",\"pre_hash\":\""@ + h.pre_hash + "\",\"merkle\":\""@ + h.merkle
        + "\",\"difficulty\":"@ + dec_rep(h.difficulty as nat) + "}"@
}

/// The hash string of a header: its canonical text under the content hash.
pub open spec fn header_hash(h: HeaderView) -> Seq<char> {
    hash_text(header_text(h))
}

/// The hash string of a transaction.
pub open spec fn transaction_hash(t: TransactionView) -> Seq<char> {
    hash_text(transaction_text(t))
}

/// The 64-character all-zero sentinel that stands for "no predecessor".
pub open spec fn zero_sentinel() -> Seq<char> {
    Seq::new(64, |i: int| '0')
}

/// Builds the canonical text form of a transaction.
pub fn transaction_string(t: &Transaction) -> (r: String)
    ensures
        r@ == transaction_text(t@),
{
    let mut s = String::from_str("{\"sender\":\"");
    s.append(t.sender.as_str());
    s.append("\",\"receiver\":\"");
    s.append(t.receiver.as_str());
    s.append("\",\"amount\":");
    let amt = u64_to_string(t.amount);
    s.append(amt.as_str());
    s.append("}");
    proof {
        assert(s@ =~= transaction_text(t@));
    }
    s
}

/// Builds the canonical text form of a block header.
pub fn header_string(h: &BlockHeader) -> (r: String)
    ensures
        r@ == header_text(h@),
{
    let mut s = String::from_str("{\"timestamp\":");
    let ts = u64_to_string(h.timestamp as u64);
    s.append(ts.as_str());
    s.append(",\"nonce\":");
    let nonce = u64_to_string(h.nonce as u64);
    s.append(nonce.as_str());
    s.append(",\"pre_hash\":\"");
    s.append(h.pre_hash.as_str());
    s.append("\",\"merkle\":\"");
    s.append(h.merkle.as_str());
    s.append("\",\"difficulty\":");
    let diff = u64_to_string(h.difficulty as u64);
    s.append(diff.as_str());
    s.append("}");
    proof {
        assert(s@ =~= header_text(h@));
    }
    s
}

impl Chain {
    /// Renders a digest byte sequence as the unpadded hex string.
    pub fn hex_to_string(vec_result: &[u8]) -> (s: String)
        ensures
            s@ == hex_nopad(vec_result@),
    {
        let mut s = String::new();
        let mut i: usize = 0;
        while i < vec_result.len()
            invariant
                i <= vec_result@.len(),
                s@ == hex_nopad(vec_result@.subrange(0, i as int)),
            decreases vec_result@.len() - i,
        {
            let b = vec_result[i];
            if b < 16 {
                s.append(digit_str(b));
            } else {
                s.append(digit_str(b / 16));
                s.append(digit_str(b % 16));
            }
            proof {
                let pre = vec_result@.subrange(0, i as int);
                assert(vec_result@.subrange(0, i + 1) =~= pre.push(vec_result@[i as int]));
                crate::hashing::lemma_hex_nopad_push(pre, vec_result@[i as int]);
                assert(s@ =~= hex_nopad(vec_result@.subrange(0, i + 1)));
            }
            i += 1;
        }
        proof {
            assert(vec_result@.subrange(0, vec_result@.len() as int) =~= vec_result@);
        }
        s
    }

    /// Hashes a text: SHA-256 of its UTF-8 bytes, rendered without
    /// zero-padding.
    pub fn hash(input: &str) -> (r: String)
        ensures
            r@ == hash_text(input@),
    {
        let digest = sha256(input);
        Self::hex_to_string(digest.as_slice())
    }

    /// Hashes a transaction's canonical text form.
    pub fn hash_transaction(t: &Transaction) -> (r: String)
        ensures
            r@ == transaction_hash(t@),
    {
        let s = transaction_string(t);
        Self::hash(s.as_str())
    }

    /// Hashes a header's canonical text form.
    pub fn hash_header(h: &BlockHeader) -> (r: String)
        ensures
            r@ == header_hash(h@),
    {
        let s = header_string(h);
        Self::hash(s.as_str())
    }
}

/// The ordered leaf hashes of a transaction list.
pub open spec fn leaf_hashes(txs: Seq<TransactionView>) -> Seq<Seq<char>> {
    txs.map_values(|t: TransactionView| transaction_hash(t))
}

/// The leaf level padded to even length by duplicating the last hash.
pub open spec fn pad_leaves(hs: Seq<Seq<char>>) -> Seq<Seq<char>> {
    if hs.len() % 2 == 1 {
        hs.push(hs.last())
    } else {
        hs
    }
}

/// Pairwise queue reduction: the front two hashes are replaced, at the
/// back, by the hash of their concatenation, until one remains.
pub open spec fn merkle_reduce(hs: Seq<Seq<char>>) -> Seq<char>
    decreases hs.len(),
{
    if hs.len() == 0 {
        Seq::empty()
    } else if hs.len() == 1 {
        hs[0]
    } else {
        merkle_reduce(hs.skip(2).push(hash_text(hs[0] + hs[1])))
    }
}

/// The merkle root of an ordered, non-empty transaction list.
pub open spec fn merkle_root_of(txs: Seq<TransactionView>) -> Seq<char> {
    merkle_reduce(pad_leaves(leaf_hashes(txs)))
}

impl Chain {
    /// Reduces an ordered, non-empty transaction list to its merkle root.
    pub fn get_merkle(current_trans: &Vec<Transaction>) -> (r: String)
        requires
            current_trans@.len() >= 1,
        ensures
            r@ == merkle_root_of(txs_view(current_trans@)),
    {
        let mut merkle: Vec<String> = Vec::new();
        let mut i: usize = 0;
        while i < current_trans.len()
            invariant
                i <= current_trans@.len(),
                merkle@.len() == i,
                forall|j: int|
                    0 <= j < i ==> (#[trigger] merkle@[j])@ == leaf_hashes(
                        txs_view(current_trans@),
                    )[j],
            decreases current_trans@.len() - i,
        {
            let h = Self::hash_transaction(&current_trans[i]);
            merkle.push(h);
            i += 1;
        }
        let ghost goal = merkle_root_of(txs_view(current_trans@));
        proof {
            assert(str_views(merkle@) =~~= leaf_hashes(txs_view(current_trans@)));
        }
        if merkle.len() % 2 == 1 {
            let last = merkle[merkle.len() - 1].clone();
            merkle.push(last);
        }
        proof {
            assert(str_views(merkle@) =~~= pad_leaves(leaf_hashes(txs_view(current_trans@))));
            assert(merkle_reduce(str_views(merkle@)) == goal);
        }
        while merkle.len() > 1
            invariant
                merkle@.len() >= 1,
                merkle_reduce(str_views(merkle@)) == goal,
            decreases merkle@.len(),
        {
            let ghost before = str_views(merkle@);
            let h1 = merkle.remove(0);
            let h2 = merkle.remove(0);
            let combined = h1.concat(h2.as_str());
            let nh = Self::hash(combined.as_str());
            merkle.push(nh);
            proof {
                assert(str_views(merkle@) =~~= before.skip(2).push(
                    hash_text(before[0] + before[1]),
                ));
            }
        }
        proof {
            assert(merkle_reduce(str_views(merkle@)) == str_views(merkle@)[0]);
        }
        let root = merkle.remove(0);
        root
    }
}

/// The views of a list of strings.
pub open spec fn str_views(ss: Seq<String>) -> Seq<Seq<char>> {
    ss.map_values(|s: String| s@)
}

/// The merkle root of a single-transaction list is the hash of that
/// transaction's leaf hash concatenated with itself: the lone leaf is
/// duplicated to make the level even, then the pair is combined.
pub proof fn lemma_merkle_single(t: TransactionView)
    ensures
        merkle_root_of(seq![t]) == hash_text(transaction_hash(t) + transaction_hash(t)),
{
    let l = transaction_hash(t);
    assert(leaf_hashes(seq![t]) =~~= seq![l]);
    assert(pad_leaves(seq![l]) =~~= seq![l, l]);
    let two = seq![l, l];
    let one = seq![hash_text(l + l)];
    assert(two.skip(2).push(hash_text(two[0] + two[1])) =~~= one);
    assert(merkle_reduce(two) == merkle_reduce(one));
    assert(merkle_reduce(one) == hash_text(l + l));
}

/// The difficulty predicate: the hash string is at least `d` characters
/// long and its first `d` characters, read as a number, are zero — that
/// is, all of them are the digit zero. A zero difficulty is satisfied by
/// every hash.
pub open spec fn pow_ok(h: Seq<char>, d: nat) -> bool {
    d <= h.len() && (forall|i: int| 0 <= i < d ==> h[i] == '0')
}

/// The same header with another nonce.
pub open spec fn with_nonce(h: HeaderView, nonce: u32) -> HeaderView {
    HeaderView { nonce, ..h }
}

impl Chain {
    /// Decides the difficulty predicate on a hash string.
    pub fn meets_difficulty(h: &str, difficulty: u32) -> (r: bool)
        ensures
            r == pow_ok(h@, difficulty as nat),
    {
        let len = h.unicode_len();
        if difficulty as usize > len {
            return false;
        }
        let mut i: usize = 0;
        while i < difficulty as usize
            invariant
                difficulty as usize <= h@.len(),
                i <= difficulty as usize,
                forall|j: int| 0 <= j < i ==> h@[j] == '0',
            decreases difficulty as usize - i,
        {
            if h.get_char(i) != '0' {
                return false;
            }
            i += 1;
        }
        true
    }

    /// Searches for a nonce that makes the header's hash satisfy its own
    /// difficulty, trying every 32-bit value once. On success the header
    /// keeps the successful nonce; when no nonce at all satisfies the
    /// predicate — possible, since the hash string may be shorter than the
    /// difficulty — the header is left as it was.
    #[verifier::loop_isolation(false)]
    pub fn proof_of_work(header: &mut BlockHeader) -> (found: bool)
        ensures
            found ==> final(header)@ == with_nonce(old(header)@, final(header).nonce)
                && pow_ok(header_hash(final(header)@), final(header).difficulty as nat),
            !found ==> final(header)@ == old(header)@ && (forall|m: u32|
                !pow_ok(
                    header_hash(#[trigger] with_nonce(old(header)@, m)),
                    old(header).difficulty as nat,
                )),
            found == exists|m: u32|
                pow_ok(header_hash(#[trigger] with_nonce(old(header)@, m)), old(header).difficulty as nat),
    {
        let start: u32 = header.nonce;
        let ghost orig = header@;
        let mut n: u64 = 0;
        while n < 0x1_0000_0000
            invariant
                n <= 0x1_0000_0000,
                header@ == with_nonce(orig, header.nonce),
                header.difficulty == orig.difficulty,
                forall|m: u32|
                    (m as u64) < n ==> !pow_ok(
                        header_hash(#[trigger] with_nonce(orig, m)),
                        orig.difficulty as nat,
                    ),
            decreases 0x1_0000_0000u64 - n,
        {
            header.nonce = n as u32;
            let h = Self::hash_header(header);
            if Self::meets_difficulty(h.as_str(), header.difficulty) {
                return true;
            }
            n = n + 1;
        }
        header.nonce = start;
        proof {
            assert(header@ =~= orig);
        }
        false
    }
}

/// The hash a new block must link to: the latest block header's hash, or
/// the all-zero sentinel while no block exists yet.
pub open spec fn last_hash_of(c: ChainView) -> Seq<char> {
    if c.blocks.len() == 0 {
        zero_sentinel()
    } else {
        header_hash(c.blocks.last().header)
    }
}

/// The reward transaction a chain in state `c` would mint: from the
/// sentinel sender to the miner, for the current reward.
pub open spec fn reward_view(c: ChainView) -> TransactionView {
    TransactionView { sender: "Root"@, receiver: c.miner_addr, amount: c.reward }
}

/// The transaction list a block mined in state `c` carries: the reward
/// first, then the pending pool in submission order.
pub open spec fn built_txs(c: ChainView) -> Seq<TransactionView> {
    seq![reward_view(c)] + c.pending
}

/// The header a chain in state `c` would mine at second `ts`, with the
/// given nonce.
pub open spec fn built_header(c: ChainView, ts: u8, nonce: u32) -> HeaderView {
    HeaderView {
        timestamp: ts,
        nonce,
        pre_hash: last_hash_of(c),
        merkle: merkle_root_of(built_txs(c)),
        difficulty: c.difficulty,
    }
}

/// The block a chain in state `c` would append at second `ts`, with the
/// given nonce.
pub open spec fn built_block(c: ChainView, ts: u8, nonce: u32) -> BlockView {
    BlockView {
        header: built_header(c, ts, nonce),
        count: (c.pending.len() + 1) as u32,
        transactions: built_txs(c),
    }
}

/// What a mined block holds: the pool is drained into it whole, so its
/// count is the number of pending transactions plus one, the reward
/// transaction stands at position zero, and every pending transaction
/// follows in strict submission order.
pub proof fn lemma_mined_block_contents(c: ChainView, ts: u8, k: u32)
    requires
        c.pending.len() + 1 <= u32::MAX,
    ensures
        built_block(c, ts, k).count == c.pending.len() + 1,
        built_block(c, ts, k).transactions.len() == c.pending.len() + 1,
        built_block(c, ts, k).transactions[0] == reward_view(c),
        forall|i: int|
            0 <= i < c.pending.len() ==> built_block(c, ts, k).transactions[i + 1]
                == c.pending[i],
{
}

/// A block is well formed when its count matches its transaction list,
/// the reward transaction leads it, its merkle root summarizes it, and
/// its header's hash meets its own difficulty.
pub open spec fn block_ok(b: BlockView) -> bool {
    &&& b.transactions.len() >= 1
    &&& b.count == b.transactions.len()
    &&& b.transactions[0].sender == "Root"@
    &&& b.header.merkle == merkle_root_of(b.transactions)
    &&& pow_ok(header_hash(b.header), b.header.difficulty as nat)
}

/// The hash-linking discipline: every block is well formed, the first
/// block links to the all-zero sentinel, and every later block links to
/// the hash of its immediate predecessor's header.
pub open spec fn linked(c: ChainView) -> bool {
    &&& forall|i: int| 0 <= i < c.blocks.len() ==> block_ok(#[trigger] c.blocks[i])
    &&& c.blocks.len() >= 1 ==> c.blocks[0].header.pre_hash == zero_sentinel()
    &&& forall|i: int|
        1 <= i < c.blocks.len() ==> (#[trigger] c.blocks[i]).header.pre_hash == header_hash(
            c.blocks[i - 1].header,
        )
}

/// A well-formed engine state: hash-linked, with the genesis block in
/// place.
pub open spec fn wf(c: ChainView) -> bool {
    linked(c) && c.blocks.len() >= 1
}

/// No nonce at all makes the header a chain in state `c` would mine at
/// second `ts` satisfy the difficulty: the one way mining can fail.
pub open spec fn pow_exhausted(c: ChainView, ts: u8) -> bool {
    forall|k: u32| !pow_ok(header_hash(#[trigger] built_header(c, ts, k)), c.difficulty as nat)
}

/// The engine state a new chain starts from, before its genesis block is
/// mined.
pub open spec fn initial_view(miner_addr: Seq<char>, difficulty: u32) -> ChainView {
    ChainView {
        blocks: Seq::empty(),
        pending: Seq::empty(),
        difficulty,
        miner_addr,
        reward: DEFAULT_REWARD,
    }
}

impl Chain {
    /// Builds the 64-character all-zero sentinel string.
    fn zero_hash() -> (r: String)
        ensures
            r@ == zero_sentinel(),
    {
        let mut s = String::new();
        let mut i: usize = 0;
        while i < 64
            invariant
                i <= 64,
                s@ == Seq::new(i as nat, |j: int| '0'),
            decreases 64 - i,
        {
            s.append(digit_str(0));
            proof {
                assert(s@ =~= Seq::new((i + 1) as nat, |j: int| '0'));
            }
            i += 1;
        }
        s
    }

    /// The hash the next block must link to: the latest header's hash, or
    /// the all-zero sentinel while the chain is empty.
    pub fn last_hash(&mut self) -> (r: String)
        ensures
            *final(self) == *old(self),
            r@ == last_hash_of(old(self)@),
    {
        if self.chain.len() == 0 {
            Self::zero_hash()
        } else {
            let b: &Block = &self.chain[self.chain.len() - 1];
            Self::hash_header(&b.header)
        }
    }

    /// Appends a transfer to the pending pool; always succeeds, by design
    /// without any balance or duplicate validation.
    pub fn new_transaction(&mut self, sender: String, receiver: String, amount: u64) -> (r: bool)
        ensures
            r == true,
            final(self)@ == (ChainView {
                pending: old(self)@.pending.push(
                    TransactionView { sender: sender@, receiver: receiver@, amount },
                ),
                ..old(self)@
            }),
    {
        self.current_transactions.push(Transaction { sender, receiver, amount });
        proof {
            assert(final(self)@ =~= (ChainView {
                pending: old(self)@.pending.push(
                    TransactionView { sender: sender@, receiver: receiver@, amount },
                ),
                ..old(self)@
            }));
        }
        true
    }

    /// Sets the difficulty of future blocks; blocks already mined keep
    /// theirs.
    pub fn update_difficulty(&mut self, difficulty: u32) -> (r: bool)
        ensures
            r == true,
            final(self)@ == (ChainView { difficulty, ..old(self)@ }),
    {
        self.difficulty = difficulty;
        proof {
            assert(final(self)@ =~= (ChainView { difficulty, ..old(self)@ }));
        }
        true
    }

    /// Mines and appends a block at the given second-of-minute: the reward
    /// transaction followed by the whole pending pool, under a merkle root
    /// and a proof-of-work. On success the pool is drained; when no nonce
    /// at all satisfies the difficulty, the engine is left exactly as it
    /// was, pool included.
    #[verifier::loop_isolation(false)]
    pub fn generate_new_block_at(&mut self, timestamp: u8) -> (r: bool)
        requires
            old(self)@.pending.len() + 1 <= u32::MAX,
        ensures
            final(self)@.difficulty == old(self)@.difficulty,
            final(self)@.miner_addr == old(self)@.miner_addr,
            final(self)@.reward == old(self)@.reward,
            r == exists|k: u32|
                pow_ok(
                    header_hash(#[trigger] built_header(old(self)@, timestamp, k)),
                    old(self)@.difficulty as nat,
                ),
            r ==> final(self)@.pending.len() == 0 && exists|k: u32|
                final(self)@.blocks == old(self)@.blocks.push(
                    #[trigger] built_block(old(self)@, timestamp, k),
                ) && pow_ok(
                    header_hash(built_header(old(self)@, timestamp, k)),
                    old(self)@.difficulty as nat,
                ),
            !r ==> final(self)@ == old(self)@,
            linked(old(self)@) ==> linked(final(self)@),
    {
        let pre_hash = self.last_hash();
        let mut txs: Vec<Transaction> = Vec::new();
        txs.push(
            Transaction {
                sender: String::from_str("Root"),
                receiver: self.miner_addr.clone(),
                amount: self.reward,
            },
        );
        txs.append(&mut self.current_transactions);
        proof {
            assert(txs_view(txs@) =~= built_txs(old(self)@));
        }
        let count = txs.len() as u32;
        let merkle = Self::get_merkle(&txs);
        let mut header = BlockHeader {
            timestamp,
            nonce: 0,
            pre_hash,
            merkle,
            difficulty: self.difficulty,
        };
        proof {
            assert(header@ =~= built_header(old(self)@, timestamp, 0));
        }
        let found = Self::proof_of_work(&mut header);
        proof {
            assert(forall|k: u32|
                with_nonce(built_header(old(self)@, timestamp, 0), k) =~= built_header(
                    old(self)@,
                    timestamp,
                    k,
                ));
        }
        if found {
            let ghost k = header.nonce;
            proof {
                assert(header@ =~= built_header(old(self)@, timestamp, k));
            }
            let block = Block { header, count, transactions: txs };
            proof {
                assert(block@ =~= built_block(old(self)@, timestamp, k));
            }
            self.chain.push(block);
            proof {
                let c0 = old(self)@;
                let c1 = final(self)@;
                let b = built_block(c0, timestamp, k);
                assert(c1.blocks =~= c0.blocks.push(b));
                if linked(c0) {
                    assert(block_ok(b));
                    assert forall|i: int| 0 <= i < c1.blocks.len() implies block_ok(
                        #[trigger] c1.blocks[i],
                    ) by {
                        if i < c0.blocks.len() {
                            assert(c1.blocks[i] == c0.blocks[i]);
                        }
                    }
                    assert forall|i: int|
                        1 <= i < c1.blocks.len() implies (#[trigger] c1.blocks[i]).header.pre_hash
                        == header_hash(c1.blocks[i - 1].header) by {
                        if i < c0.blocks.len() {
                            assert(c1.blocks[i] == c0.blocks[i]);
                            assert(c1.blocks[i - 1] == c0.blocks[i - 1]);
                        } else {
                            assert(c1.blocks[i] == b);
                            assert(c1.blocks[i - 1] == c0.blocks.last());
                        }
                    }
                    assert(linked(c1));
                }
            }
            true
        } else {
            txs.remove(0);
            self.current_transactions = txs;
            proof {
                assert(txs_view(final(self).current_transactions@) =~= old(self)@.pending);
                assert(final(self)@ =~= old(self)@);
                assert forall|k: u32|
                    !pow_ok(
                        header_hash(#[trigger] built_header(old(self)@, timestamp, k)),
                        old(self)@.difficulty as nat,
                    ) by {
                    assert(with_nonce(built_header(old(self)@, timestamp, 0), k) =~= built_header(
                        old(self)@,
                        timestamp,
                        k,
                    ));
                }
            }
            false
        }
    }

    /// Mines and appends a block stamped with the current second of the
    /// minute: the reward transaction followed by the whole pending pool,
    /// drained on success. Fails, leaving the engine untouched, only when
    /// no nonce at all satisfies the difficulty.
    pub fn generate_new_block(&mut self) -> (r: bool)
        requires
            old(self)@.pending.len() + 1 <= u32::MAX,
        ensures
            final(self)@.difficulty == old(self)@.difficulty,
            final(self)@.miner_addr == old(self)@.miner_addr,
            final(self)@.reward == old(self)@.reward,
            r ==> final(self)@.pending.len() == 0 && exists|ts: u8, k: u32|
                ts < 60 && final(self)@.blocks == old(self)@.blocks.push(
                    #[trigger] built_block(old(self)@, ts, k),
                ) && pow_ok(
                    header_hash(built_header(old(self)@, ts, k)),
                    old(self)@.difficulty as nat,
                ),
            !r ==> final(self)@ == old(self)@ && exists|ts: u8|
                ts < 60 && #[trigger] pow_exhausted(old(self)@, ts),
            linked(old(self)@) ==> linked(final(self)@),
    {
        let ts = crate::clock::now_second();
        let r = self.generate_new_block_at(ts);
        proof {
            if !r {
                assert(pow_exhausted(old(self)@, ts));
            }
        }
        r
    }

    /// Builds a chain that owns an empty pending pool, the default reward,
    /// and — unless no nonce satisfies the given difficulty — a freshly
    /// mined genesis block linking to the all-zero sentinel.
    pub fn new(miner_addr: String, difficulty: u32) -> (c: Chain)
        ensures
            c@.difficulty == difficulty,
            c@.miner_addr == miner_addr@,
            c@.reward == DEFAULT_REWARD,
            c@.pending.len() == 0,
            linked(c@),
            c@.blocks.len() <= 1,
            c@.blocks.len() == 1 ==> wf(c@) && exists|ts: u8, k: u32|
                ts < 60 && c@.blocks[0] == #[trigger] built_block(
                    initial_view(miner_addr@, difficulty),
                    ts,
                    k,
                ),
            c@.blocks.len() == 0 ==> exists|ts: u8|
                ts < 60 && #[trigger] pow_exhausted(initial_view(miner_addr@, difficulty), ts),
    {
        let ghost ma = miner_addr@;
        let mut chain = Chain {
            chain: Vec::new(),
            current_transactions: Vec::new(),
            difficulty,
            miner_addr,
            reward: DEFAULT_REWARD,
        };
        proof {
            assert(chain@ =~= initial_view(ma, difficulty));
        }
        let mined = chain.generate_new_block();
        proof {
            if mined {
                let (ts, k) = choose|ts: u8, k: u32|
                    ts < 60 && chain@.blocks == initial_view(ma, difficulty).blocks.push(
                        built_block(initial_view(ma, difficulty), ts, k),
                    ) && pow_ok(
                        header_hash(built_header(initial_view(ma, difficulty), ts, k)),
                        initial_view(ma, difficulty).difficulty as nat,
                    );
                assert(chain@.blocks[0] == built_block(initial_view(ma, difficulty), ts, k));
            }
        }
        chain
    }

    /// Sets the reward of future blocks, in hundredths of a unit; blocks
    /// already mined keep the reward they recorded.
    pub fn update_reward(&mut self, reward: u64) -> (r: bool)
        ensures
            r == true,
            final(self)@ == (ChainView { reward, ..old(self)@ }),
    {
        self.reward = reward;
        proof {
            assert(final(self)@ =~= (ChainView { reward, ..old(self)@ }));
        }
        true
    }
}

} // verus!
