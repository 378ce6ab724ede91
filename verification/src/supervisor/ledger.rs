//! Ledger: cryptographic, append-only log of supervised interactions.

use crate::supervisor::chain::{
    chain_valid, entry_valid_at, genesis, lemma_next_entry_valid, link_digest, link_preimage,
    next_entry, EntryView,
};
use crate::supervisor::digest::{
    content_hash, has_digest_shape, hashable, is_hex_digest, lemma_digest_hex_shape,
    lemma_hex_digest_bytes, push_be_bytes, sha256_hex, SHA256_INPUT_LIMIT,
};
use vstd::prelude::*;
use vstd::utf8::*;

verus! {

/// One entry in the audit ledger.
#[derive(Debug, Clone)]
pub struct LedgerEntry {
    pub index: u64,
    pub input_hash: String,
    pub output_hash: String,
    pub prev_hash: String,
    pub hash: String,
}

impl View for LedgerEntry {
    type V = EntryView;

    open spec fn view(&self) -> EntryView {
        EntryView {
            index: self.index,
            input_hash: self.input_hash@,
            output_hash: self.output_hash@,
            prev_hash: self.prev_hash@,
            hash: self.hash@,
        }
    }
}

/// What a run of entries records, entry by entry.
pub open spec fn entry_views(entries: Seq<LedgerEntry>) -> Seq<EntryView> {
    entries.map_values(|e: LedgerEntry| e@)
}

/// Whether the link preimage of the three hashes is short enough for SHA-256.
pub open spec fn linkable(input_hash: Seq<char>, output_hash: Seq<char>, prev_hash: Seq<char>) -> bool {
    8 + encode_utf8(input_hash).len() + encode_utf8(output_hash).len() + encode_utf8(
        prev_hash,
    ).len() < SHA256_INPUT_LIMIT
}

/// The hashes that stand in a chain are far below the limit of SHA-256: two
/// hex digests, and a hex digest or the genesis sentinel before them.
proof fn lemma_chain_hashes_linkable(
    input_hash: Seq<char>,
    output_hash: Seq<char>,
    prev_hash: Seq<char>,
)
    requires
        is_hex_digest(input_hash),
        is_hex_digest(output_hash),
        is_hex_digest(prev_hash) || prev_hash == genesis(),
    ensures
        linkable(input_hash, output_hash, prev_hash),
{
    lemma_hex_digest_bytes(input_hash);
    lemma_hex_digest_bytes(output_hash);
    if is_hex_digest(prev_hash) {
        lemma_hex_digest_bytes(prev_hash);
    } else {
        reveal_strlit("GENESIS");
        is_ascii_chars_encode_utf8(prev_hash);
    }
}

/// Lays out the bytes that an entry's hash binds: the index as eight
/// big-endian bytes, then the bytes of the three hashes as they are written.
pub fn link_bytes(index: u64, input_hash: &str, output_hash: &str, prev_hash: &str) -> (preimage:
    Vec<u8>)
    ensures
        preimage@ == link_preimage(index, input_hash@, output_hash@, prev_hash@),
{
    let mut preimage: Vec<u8> = Vec::new();
    push_be_bytes(&mut preimage, index);
    preimage.extend_from_slice(input_hash.as_bytes());
    preimage.extend_from_slice(output_hash.as_bytes());
    preimage.extend_from_slice(prev_hash.as_bytes());
    assert(preimage@ =~= link_preimage(index, input_hash@, output_hash@, prev_hash@));
    preimage
}

/// Computes the chain link of an entry from the four fields it binds.
pub fn link_hash(index: u64, input_hash: &str, output_hash: &str, prev_hash: &str) -> (hash: String)
    requires
        linkable(input_hash@, output_hash@, prev_hash@),
    ensures
        hash@ == link_digest(index, input_hash@, output_hash@, prev_hash@),
        is_hex_digest(hash@),
{
    let preimage = link_bytes(index, input_hash, output_hash, prev_hash);
    sha256_hex(preimage.as_slice())
}

/// Recomputes a run of entries as a chain from the first entry on: positions,
/// shapes, links to the predecessor and every hash.
pub fn verify_chain(entries: &[LedgerEntry]) -> (valid: bool)
    ensures
        valid == chain_valid(entry_views(entries@)),
{
    let ghost chain = entry_views(entries@);
    let genesis: String = "GENESIS".to_owned();
    let n: usize = entries.len();
    let mut i: usize = 0;
    while i < n
        invariant
            i <= n,
            n == entries@.len(),
            chain == entry_views(entries@),
            genesis@ == "GENESIS"@,
            forall|j: int| 0 <= j < i ==> #[trigger] entry_valid_at(chain, j),
        decreases n - i,
    {
        let entry: &LedgerEntry = &entries[i];
        assert(chain[i as int] == entry@);
        let linked: bool = if i == 0 {
            entry.prev_hash == genesis
        } else {
            assert(chain[i - 1] == entries@[i - 1]@);
            entry.prev_hash == entries[i - 1].hash
        };
        if entry.index != i as u64 || !linked || !has_digest_shape(entry.input_hash.as_str())
            || !has_digest_shape(entry.output_hash.as_str()) {
            assert(!entry_valid_at(chain, i as int));
            return false;
        }
        proof {
            if i > 0 {
                assert(entry_valid_at(chain, i - 1));
                lemma_digest_hex_shape(chain[i - 1].preimage());
            }
            lemma_chain_hashes_linkable(entry.input_hash@, entry.output_hash@, entry.prev_hash@);
        }
        let expected: String = link_hash(
            entry.index,
            entry.input_hash.as_str(),
            entry.output_hash.as_str(),
            entry.prev_hash.as_str(),
        );
        if entry.hash != expected {
            assert(!entry_valid_at(chain, i as int));
            return false;
        }
        assert(entry_valid_at(chain, i as int));
        i = i + 1;
    }
    true
}

/// In-memory, append-only ledger whose entries form a valid hash chain.
pub struct Ledger {
    entries: Vec<LedgerEntry>,
}

impl View for Ledger {
    type V = Seq<EntryView>;

    closed spec fn view(&self) -> Seq<EntryView> {
        entry_views(self.entries@)
    }
}

impl Default for Ledger {
    fn default() -> (ledger: Self)
        ensures
            ledger@ == Seq::<EntryView>::empty(),
    {
        Ledger::new()
    }
}

impl Ledger {
    #[verifier::type_invariant]
    spec fn chain_holds(&self) -> bool {
        chain_valid(self@)
    }

    /// An empty ledger.
    pub fn new() -> (ledger: Self)
        ensures
            ledger@ == Seq::<EntryView>::empty(),
    {
        Self { entries: Vec::new() }
    }

    /// Records one exchange and returns the entry created for it.
    pub fn append(&mut self, user_input: &str, supervised_output: &str) -> (entry: &LedgerEntry)
        requires
            hashable(user_input@),
            hashable(supervised_output@),
        ensures
            entry@ == next_entry(old(self)@, user_input@, supervised_output@),
            final(self)@ == old(self)@.push(entry@),
            chain_valid(final(self)@),
    {
        proof {
            use_type_invariant(&*self);
        }
        let count: usize = self.entries.len();
        let index: u64 = count as u64;
        let input_hash = content_hash(user_input);
        let output_hash = content_hash(supervised_output);
        let prev_hash = if count == 0 {
            "GENESIS".to_owned()
        } else {
            self.entries[count - 1].hash.clone()
        };
        proof {
            if count > 0 {
                assert(entry_valid_at(self@, count - 1));
                lemma_digest_hex_shape(self@[count - 1].preimage());
            }
            lemma_chain_hashes_linkable(input_hash@, output_hash@, prev_hash@);
        }
        let hash = link_hash(index, input_hash.as_str(), output_hash.as_str(), prev_hash.as_str());
        let entry = LedgerEntry { index, input_hash, output_hash, prev_hash, hash };
        // The chain must hold whenever a field of the ledger is lent out, so the
        // entries are taken out, extended, and put back whole.
        let mut entries: Vec<LedgerEntry> = Vec::new();
        core::mem::swap(&mut self.entries, &mut entries);
        entries.push(entry);
        proof {
            lemma_next_entry_valid(old(self)@, user_input@, supervised_output@);
            assert(entry_views(entries@) =~= old(self)@.push(entry@));
        }
        core::mem::swap(&mut self.entries, &mut entries);
        &self.entries[count]
    }

    /// All entries, oldest first.
    pub fn entries(&self) -> (entries: &[LedgerEntry])
        ensures
            entry_views(entries@) == self@,
            chain_valid(self@),
    {
        proof {
            use_type_invariant(self);
        }
        self.entries.as_slice()
    }
}

} // verus!
