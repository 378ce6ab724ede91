//! The mathematical model of the ledger: entries, links and valid chains.

use crate::supervisor::digest::{
    be_bytes, digest_hex, is_hex_digest, lemma_be_bytes_injective, lemma_digest_hex_shape,
    lemma_hex_digest_bytes, lemma_hex_lower_injective, sha256, sha256_collision, text_digest,
};
use vstd::prelude::*;
use vstd::utf8::*;

verus! {

/// What one ledger entry records.
pub struct EntryView {
    pub index: u64,
    pub input_hash: Seq<char>,
    pub output_hash: Seq<char>,
    pub prev_hash: Seq<char>,
    pub hash: Seq<char>,
}

/// What the first entry records in place of a predecessor's hash.
pub open spec fn genesis() -> Seq<char> {
    "GENESIS"@
}

/// The bytes that an entry's hash binds: the index as eight big-endian bytes,
/// then the UTF-8 bytes of the input hash, the output hash and the previous hash.
pub open spec fn link_preimage(
    index: u64,
    input_hash: Seq<char>,
    output_hash: Seq<char>,
    prev_hash: Seq<char>,
) -> Seq<u8> {
    be_bytes(index) + encode_utf8(input_hash) + encode_utf8(output_hash) + encode_utf8(prev_hash)
}

/// The chain link: the hexadecimal SHA-256 digest of the link preimage.
pub open spec fn link_digest(
    index: u64,
    input_hash: Seq<char>,
    output_hash: Seq<char>,
    prev_hash: Seq<char>,
) -> Seq<char> {
    digest_hex(link_preimage(index, input_hash, output_hash, prev_hash))
}

impl EntryView {
    /// The bytes that this entry's hash binds.
    pub open spec fn preimage(self) -> Seq<u8> {
        link_preimage(self.index, self.input_hash, self.output_hash, self.prev_hash)
    }

    /// The hash that the four bound fields call for.
    pub open spec fn expected_hash(self) -> Seq<char> {
        link_digest(self.index, self.input_hash, self.output_hash, self.prev_hash)
    }

    /// Both content hashes have the shape of a hex digest.
    pub open spec fn well_shaped(self) -> bool {
        is_hex_digest(self.input_hash) && is_hex_digest(self.output_hash)
    }

    /// Whether two entries agree on the four fields that the hash binds.
    pub open spec fn same_bound_fields(self, other: EntryView) -> bool {
        &&& self.index == other.index
        &&& self.input_hash == other.input_hash
        &&& self.output_hash == other.output_hash
        &&& self.prev_hash == other.prev_hash
    }
}

/// The hash that entry `i` of `chain` must name as its predecessor's.
pub open spec fn prev_hash_at(chain: Seq<EntryView>, i: int) -> Seq<char> {
    if i <= 0 {
        genesis()
    } else {
        chain[i - 1].hash
    }
}

/// Entry `i` is in its place: it carries its position, names its predecessor's
/// hash, holds two well-shaped content hashes and the hash they call for.
pub open spec fn entry_valid_at(chain: Seq<EntryView>, i: int) -> bool {
    &&& chain[i].index == i
    &&& chain[i].prev_hash == prev_hash_at(chain, i)
    &&& chain[i].well_shaped()
    &&& chain[i].hash == chain[i].expected_hash()
}

/// Every entry of the chain is in its place.
pub open spec fn chain_valid(chain: Seq<EntryView>) -> bool {
    forall|i: int| 0 <= i < chain.len() ==> #[trigger] entry_valid_at(chain, i)
}

/// The entry that recording the exchange `(input, output)` adds to `chain`.
pub open spec fn next_entry(chain: Seq<EntryView>, input: Seq<char>, output: Seq<char>) -> EntryView {
    let index = chain.len() as u64;
    let input_hash = text_digest(input);
    let output_hash = text_digest(output);
    let prev_hash = prev_hash_at(chain, chain.len() as int);
    EntryView {
        index,
        input_hash,
        output_hash,
        prev_hash,
        hash: link_digest(index, input_hash, output_hash, prev_hash),
    }
}

/// The chain that recording `exchanges` in order, from an empty ledger, yields.
pub open spec fn chain_of(exchanges: Seq<(Seq<char>, Seq<char>)>) -> Seq<EntryView>
    decreases exchanges.len(),
{
    if exchanges.len() == 0 {
        Seq::empty()
    } else {
        let earlier = chain_of(exchanges.drop_last());
        earlier.push(next_entry(earlier, exchanges.last().0, exchanges.last().1))
    }
}

/// A text is determined by its UTF-8 bytes.
pub proof fn lemma_utf8_injective(a: Seq<char>, b: Seq<char>)
    requires
        encode_utf8(a) == encode_utf8(b),
    ensures
        a == b,
{
    encode_utf8_decode_utf8(a);
    encode_utf8_decode_utf8(b);
}

/// Two digests in hexadecimal agree only if the data agree or collide under SHA-256.
pub proof fn lemma_digest_hex_injective(a: Seq<u8>, b: Seq<u8>)
    requires
        digest_hex(a) == digest_hex(b),
    ensures
        a == b || sha256_collision(a, b),
{
    lemma_hex_lower_injective(sha256(a)@, sha256(b)@);
    assert(sha256(a) =~= sha256(b));
}

/// Between well-shaped entries the link preimage determines the four bound
/// fields: the index and both content hashes have fixed widths, and the
/// previous hash is what is left.
pub proof fn lemma_preimage_injective(e: EntryView, t: EntryView)
    requires
        e.well_shaped(),
        t.well_shaped(),
        e.preimage() == t.preimage(),
    ensures
        e.same_bound_fields(t),
{
    lemma_hex_digest_bytes(e.input_hash);
    lemma_hex_digest_bytes(e.output_hash);
    lemma_hex_digest_bytes(t.input_hash);
    lemma_hex_digest_bytes(t.output_hash);
    let pe = e.preimage();
    let pt = t.preimage();
    assert(pe.subrange(0, 8) =~= be_bytes(e.index));
    assert(pt.subrange(0, 8) =~= be_bytes(t.index));
    lemma_be_bytes_injective(e.index, t.index);
    assert(pe.subrange(8, 72) =~= encode_utf8(e.input_hash));
    assert(pt.subrange(8, 72) =~= encode_utf8(t.input_hash));
    lemma_utf8_injective(e.input_hash, t.input_hash);
    assert(pe.subrange(72, 136) =~= encode_utf8(e.output_hash));
    assert(pt.subrange(72, 136) =~= encode_utf8(t.output_hash));
    lemma_utf8_injective(e.output_hash, t.output_hash);
    assert(pe.subrange(136, pe.len() as int) =~= encode_utf8(e.prev_hash));
    assert(pt.subrange(136, pt.len() as int) =~= encode_utf8(t.prev_hash));
    lemma_utf8_injective(e.prev_hash, t.prev_hash);
}

/// Recording an exchange extends a valid chain to a valid chain.
pub proof fn lemma_next_entry_valid(chain: Seq<EntryView>, input: Seq<char>, output: Seq<char>)
    requires
        chain_valid(chain),
        chain.len() <= u64::MAX,
    ensures
        chain_valid(chain.push(next_entry(chain, input, output))),
{
    let entry = next_entry(chain, input, output);
    let longer = chain.push(entry);
    lemma_digest_hex_shape(encode_utf8(input));
    lemma_digest_hex_shape(encode_utf8(output));
    assert forall|i: int| 0 <= i < longer.len() implies #[trigger] entry_valid_at(longer, i) by {
        if i < chain.len() {
            assert(entry_valid_at(chain, i));
        }
    }
}

/// Chains built by recording exchanges are valid and hold one entry per exchange.
pub proof fn lemma_chain_of_valid(exchanges: Seq<(Seq<char>, Seq<char>)>)
    requires
        exchanges.len() <= u64::MAX,
    ensures
        chain_of(exchanges).len() == exchanges.len(),
        chain_valid(chain_of(exchanges)),
    decreases exchanges.len(),
{
    if exchanges.len() > 0 {
        lemma_chain_of_valid(exchanges.drop_last());
        lemma_next_entry_valid(
            chain_of(exchanges.drop_last()),
            exchanges.last().0,
            exchanges.last().1,
        );
    }
}

/// Chain contiguity: after recording `n >= 1` exchanges the entries carry the
/// indices `0..n-1`, the first names the genesis sentinel and every later one
/// names the hash of the entry before it. The bound on `n` is that of the
/// 64-bit index.
pub proof fn lemma_chain_contiguity(exchanges: Seq<(Seq<char>, Seq<char>)>)
    requires
        1 <= exchanges.len() <= u64::MAX,
    ensures
        chain_of(exchanges).len() == exchanges.len(),
        forall|i: int| 0 <= i < exchanges.len() ==> (#[trigger] chain_of(exchanges)[i]).index == i,
        chain_of(exchanges)[0].prev_hash == genesis(),
        forall|i: int|
            1 <= i < exchanges.len() ==> (#[trigger] chain_of(exchanges)[i]).prev_hash == chain_of(
                exchanges,
            )[i - 1].hash,
{
    lemma_chain_of_valid(exchanges);
    let chain = chain_of(exchanges);
    assert forall|i: int| 0 <= i < chain.len() implies (#[trigger] chain[i]).index == i && chain[i].prev_hash
        == prev_hash_at(chain, i) by {
        assert(entry_valid_at(chain, i));
    }
}

/// Hash sensitivity: recording the same input with two different outputs, on
/// whatever chains, yields two different hashes, unless SHA-256 collides on
/// the two outputs or on the two link preimages.
pub proof fn lemma_hash_sensitivity(
    chain_a: Seq<EntryView>,
    chain_b: Seq<EntryView>,
    input: Seq<char>,
    output_a: Seq<char>,
    output_b: Seq<char>,
)
    requires
        output_a != output_b,
        !sha256_collision(encode_utf8(output_a), encode_utf8(output_b)),
        !sha256_collision(
            next_entry(chain_a, input, output_a).preimage(),
            next_entry(chain_b, input, output_b).preimage(),
        ),
    ensures
        next_entry(chain_a, input, output_a).output_hash != next_entry(
            chain_b,
            input,
            output_b,
        ).output_hash,
        next_entry(chain_a, input, output_a).hash != next_entry(chain_b, input, output_b).hash,
{
    let a = next_entry(chain_a, input, output_a);
    let b = next_entry(chain_b, input, output_b);
    if a.output_hash == b.output_hash {
        lemma_digest_hex_injective(encode_utf8(output_a), encode_utf8(output_b));
        lemma_utf8_injective(output_a, output_b);
    }
    lemma_digest_hex_shape(encode_utf8(input));
    lemma_digest_hex_shape(encode_utf8(output_a));
    lemma_digest_hex_shape(encode_utf8(output_b));
    if a.hash == b.hash {
        lemma_digest_hex_injective(a.preimage(), b.preimage());
        lemma_preimage_injective(a, b);
    }
}

/// Tamper detection, the entry's own hash: changing any bound field of a
/// well-shaped entry into other well-shaped content changes the hash that the
/// fields call for, unless SHA-256 collides on the two link preimages.
pub proof fn lemma_tamper_changes_hash(entry: EntryView, tampered: EntryView)
    requires
        entry.well_shaped(),
        tampered.well_shaped(),
        !entry.same_bound_fields(tampered),
        !sha256_collision(entry.preimage(), tampered.preimage()),
    ensures
        entry.expected_hash() != tampered.expected_hash(),
{
    if entry.expected_hash() == tampered.expected_hash() {
        lemma_digest_hex_injective(entry.preimage(), tampered.preimage());
        lemma_preimage_injective(entry, tampered);
    }
}

/// Tamper detection, the linkage: replacing an entry that has a successor by
/// anything else leaves no valid chain, unless SHA-256 collides on the two
/// link preimages. If the replacement is valid in its place, the successor no
/// longer names its hash.
pub proof fn lemma_tamper_breaks_chain(chain: Seq<EntryView>, k: int, tampered: EntryView)
    requires
        chain_valid(chain),
        0 <= k < chain.len() - 1,
        tampered != chain[k],
        !sha256_collision(chain[k].preimage(), tampered.preimage()),
    ensures
        !chain_valid(chain.update(k, tampered)),
        entry_valid_at(chain.update(k, tampered), k) ==> chain.update(k, tampered)[k + 1].prev_hash
            != tampered.hash,
{
    let changed = chain.update(k, tampered);
    assert(entry_valid_at(chain, k));
    assert(entry_valid_at(chain, k + 1));
    if entry_valid_at(changed, k) && changed[k + 1].prev_hash == tampered.hash {
        assert(tampered.expected_hash() == chain[k].expected_hash());
        lemma_digest_hex_injective(chain[k].preimage(), tampered.preimage());
        lemma_preimage_injective(chain[k], tampered);
        assert(tampered.hash == chain[k].hash);
        assert(false);
    }
    if chain_valid(changed) {
        assert(entry_valid_at(changed, k));
        assert(entry_valid_at(changed, k + 1));
    }
}

/// A change spreads down the chain: if two valid chains differ in a bound field
/// of entry `k`, the hashes of entry `k` and of every later entry differ too,
/// unless SHA-256 collides on the link preimages of two entries in the same
/// place from `k` on.
pub proof fn lemma_change_spreads(a: Seq<EntryView>, b: Seq<EntryView>, k: int, j: int)
    requires
        chain_valid(a),
        chain_valid(b),
        0 <= k <= j,
        j < a.len(),
        j < b.len(),
        !a[k].same_bound_fields(b[k]),
        forall|i: int|
            k <= i <= j ==> !sha256_collision(#[trigger] a[i].preimage(), #[trigger] b[i].preimage()),
    ensures
        a[j].hash != b[j].hash,
    decreases j - k,
{
    assert(entry_valid_at(a, j));
    assert(entry_valid_at(b, j));
    assert(!sha256_collision(a[j].preimage(), b[j].preimage()));
    if j > k {
        lemma_change_spreads(a, b, k, j - 1);
        assert(a[j].prev_hash != b[j].prev_hash);
    }
    lemma_tamper_changes_hash(a[j], b[j]);
}

/// The hash of the newest entry commits to the whole chain: two valid chains
/// whose newest entries carry the same hash are the same chain, unless
/// SHA-256 collides on the link preimages of two of their entries.
pub proof fn lemma_head_hash_commits(a: Seq<EntryView>, b: Seq<EntryView>)
    requires
        chain_valid(a),
        chain_valid(b),
        a.len() >= 1,
        b.len() >= 1,
        a.last().hash == b.last().hash,
        forall|i: int, j: int|
            0 <= i < a.len() && 0 <= j < b.len() ==> !sha256_collision(
                #[trigger] a[i].preimage(),
                #[trigger] b[j].preimage(),
            ),
    ensures
        a == b,
    decreases a.len(),
{
    let i = a.len() - 1;
    let j = b.len() - 1;
    assert(entry_valid_at(a, i));
    assert(entry_valid_at(b, j));
    assert(!sha256_collision(a[i].preimage(), b[j].preimage()));
    lemma_digest_hex_injective(a[i].preimage(), b[j].preimage());
    lemma_preimage_injective(a[i], b[j]);
    assert(a[i] == b[j] && i == j);
    if i > 0 {
        let shorter_a = a.drop_last();
        let shorter_b = b.drop_last();
        assert forall|n: int| 0 <= n < shorter_a.len() implies #[trigger] entry_valid_at(shorter_a, n) by {
            assert(entry_valid_at(a, n));
        }
        assert forall|n: int| 0 <= n < shorter_b.len() implies #[trigger] entry_valid_at(shorter_b, n) by {
            assert(entry_valid_at(b, n));
        }
        assert forall|m: int, n: int|
            0 <= m < shorter_a.len() && 0 <= n < shorter_b.len() implies !sha256_collision(
            #[trigger] shorter_a[m].preimage(),
            #[trigger] shorter_b[n].preimage(),
        ) by {
            assert(!sha256_collision(a[m].preimage(), b[n].preimage()));
        }
        lemma_head_hash_commits(shorter_a, shorter_b);
        assert(a =~= shorter_a.push(a[i]) && b =~= shorter_b.push(b[j]));
    } else {
        assert(a =~= b);
    }
}

} // verus!
