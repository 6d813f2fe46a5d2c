//! The hashed character n-gram embedder: each lower-cased character and each
//! run of three characters adds plus or minus one to a slot picked by its
//! FNV-1a hash. The float vector is these counts, L2-normalised.
use vstd::prelude::*;

use crate::text::{chars_of, string_of};

verus! {

/// The model name of the hashed n-gram embedder.
pub const MODEL_VERSION: &'static str = "hash-ngram-v1";

pub const FNV_OFFSET: u64 = 0xcbf2_9ce4_8422_2325;

pub const FNV_PRIME: u64 = 0x0000_0100_0000_01b3;

/// FNV-1a over `bytes`.
pub open spec fn fnv1a_spec(bytes: Seq<u8>) -> u64
    decreases bytes.len(),
{
    if bytes.len() == 0 {
        FNV_OFFSET
    } else {
        (fnv1a_spec(bytes.drop_last()) ^ (bytes.last() as u64)).wrapping_mul(FNV_PRIME)
    }
}

/// FNV-1a, 64 bits.
pub fn fnv1a_64(bytes: &[u8]) -> (h: u64)
    ensures
        h == fnv1a_spec(bytes@),
{
    let mut hash: u64 = FNV_OFFSET;
    let mut i: usize = 0;
    while i < bytes.len()
        invariant
            i <= bytes@.len(),
            hash == fnv1a_spec(bytes@.take(i as int)),
        decreases bytes@.len() - i,
    {
        proof {
            assert(bytes@.take(i + 1).drop_last() =~= bytes@.take(i as int));
        }
        hash = hash ^ (bytes[i] as u64);
        hash = hash.wrapping_mul(FNV_PRIME);
        i += 1;
    }
    proof {
        assert(bytes@.take(bytes@.len() as int) =~= bytes@);
    }
    hash
}

/// What `str::to_lowercase` makes of a string (full Unicode lower-casing).
pub uninterp spec fn lowercase_spec(s: Seq<char>) -> Seq<char>;

/// `str::to_lowercase`.
#[verifier::external_body]
fn lowercase(s: &str) -> (r: String)
    ensures
        r@ == lowercase_spec(s@),
{
    s.to_lowercase()
}

/// The n-grams that feed the embedding: every character, then every run of
/// three consecutive characters.
pub open spec fn grams(cs: Seq<char>) -> Seq<Seq<char>> {
    let uni = Seq::new(cs.len(), |i: int| seq![cs[i]]);
    let tri = if cs.len() >= 3 {
        Seq::new((cs.len() - 2) as nat, |i: int| cs.subrange(i, i + 3))
    } else {
        seq![]
    };
    uni + tri
}

/// The hash of a gram: FNV-1a of its UTF-8 bytes.
pub open spec fn gram_hash(g: Seq<char>) -> u64 {
    fnv1a_spec(vstd::utf8::encode_utf8(g))
}

/// The slot a gram counts in.
pub open spec fn gram_slot(g: Seq<char>, dim: nat) -> int {
    (gram_hash(g) as int) % (dim as int)
}

/// Plus one when the hash's second bit is clear, minus one otherwise.
pub open spec fn gram_sign(g: Seq<char>) -> int {
    if (gram_hash(g) >> 1u64) & 1u64 == 0 {
        1
    } else {
        -1
    }
}

/// The slot counts after the grams `gs`.
pub open spec fn counts_of(gs: Seq<Seq<char>>, dim: nat) -> Seq<int>
    decreases gs.len(),
{
    if gs.len() == 0 {
        Seq::new(dim, |i: int| 0)
    } else {
        let prev = counts_of(gs.drop_last(), dim);
        let k = gram_slot(gs.last(), dim);
        prev.update(k, prev[k] + gram_sign(gs.last()))
    }
}

/// The hashed n-gram embedder.
#[derive(Debug, Clone, Copy, PartialEq, Eq)]
pub struct HashNgramEmbedder {
    dim: usize,
}

impl HashNgramEmbedder {
    pub closed spec fn dim_spec(&self) -> usize {
        self.dim
    }

    /// The width is never 0.
    #[verifier::type_invariant]
    closed spec fn positive_width(self) -> bool {
        self.dim > 0
    }

    /// An embedder of width `dim`; a width of 0 becomes 1.
    pub fn new(dim: usize) -> (e: HashNgramEmbedder)
        ensures
            e.dim_spec() == if dim == 0 { 1 } else { dim },
    {
        HashNgramEmbedder { dim: if dim == 0 { 1 } else { dim } }
    }

    /// The width of the vectors.
    pub fn dim(&self) -> (d: usize)
        ensures
            d == self.dim_spec(),
            d > 0,
    {
        proof {
            use_type_invariant(self);
        }
        self.dim
    }

    /// The model name.
    pub fn model_version(&self) -> (v: &'static str)
        ensures
            v@ == MODEL_VERSION@,
    {
        MODEL_VERSION
    }

    fn add_gram(&self, counts: &mut Vec<i128>, gram: &[char], Ghost(seen): Ghost<nat>)
        requires
            self.dim_spec() > 0,
            old(counts)@.len() == self.dim_spec(),
            forall|j: int| 0 <= j < old(counts)@.len() ==> -(seen as int) <= #[trigger] old(counts)@[j] <= seen,
            seen < 0x1_0000_0000_0000_0000_0000_0000nat,
        ensures
            final(counts)@.len() == old(counts)@.len(),
            forall|j: int| 0 <= j < final(counts)@.len() ==> -(seen + 1) <= #[trigger] final(counts)@[j] <= seen + 1,
            final(counts)@.map_values(|x: i128| x as int) == old(counts)@.map_values(|x: i128| x as int).update(
                gram_slot(gram@, self.dim_spec() as nat),
                old(counts)@[gram_slot(gram@, self.dim_spec() as nat)] + gram_sign(gram@),
            ),
    {
        let s = string_of(gram);
        let h = fnv1a_64(s.as_str().as_bytes());
        let idx = (h % (self.dim as u64)) as usize;
        let bit = (h >> 1u64) & 1u64;
        let c = counts[idx];
        let v: i128 = if bit == 0 { c + 1 } else { c - 1 };
        let ghost before = counts@;
        counts.set(idx, v);
        proof {
            assert(counts@.map_values(|x: i128| x as int) =~= before.map_values(|x: i128| x as int).update(
                gram_slot(gram@, self.dim_spec() as nat),
                before[gram_slot(gram@, self.dim_spec() as nat)] + gram_sign(gram@),
            ));
        }
    }

    /// The signed slot counts of `text` before normalisation: each gram of
    /// the lower-cased text adds its sign to its slot.
    pub fn slot_counts(&self, text: &str) -> (r: Vec<i128>)
        ensures
            r@.map_values(|x: i128| x as int) == counts_of(grams(lowercase_spec(text@)), self.dim_spec() as nat),
    {
        let lowered = lowercase(text);
        self.counts_of_lowered(lowered.as_str())
    }

    /// The signed slot counts of text that is already lower-cased: each
    /// gram of `lowered` adds its sign to its slot.
    pub fn counts_of_lowered(&self, lowered: &str) -> (r: Vec<i128>)
        ensures
            r@.map_values(|x: i128| x as int) == counts_of(grams(lowered@), self.dim_spec() as nat),
    {
        proof {
            use_type_invariant(self);
        }
        let cs = chars_of(lowered);
        let ghost gs = grams(cs@);
        let mut counts: Vec<i128> = Vec::new();
        let mut j: usize = 0;
        while j < self.dim
            invariant
                j <= self.dim_spec(),
                counts@.len() == j,
                forall|k: int| 0 <= k < j ==> #[trigger] counts@[k] == 0,
            decreases self.dim_spec() - j,
        {
            counts.push(0);
            j += 1;
        }
        proof {
            assert(counts@.map_values(|x: i128| x as int) =~= counts_of(gs.take(0), self.dim_spec() as nat));
        }
        let n = cs.len();
        let mut i: usize = 0;
        while i < n
            invariant
                self.dim_spec() > 0,
                n == cs@.len(),
                gs == grams(cs@),
                i <= n,
                counts@.len() == self.dim_spec(),
                forall|k: int| 0 <= k < counts@.len() ==> -(i as int) <= #[trigger] counts@[k] <= i,
                counts@.map_values(|x: i128| x as int) == counts_of(gs.take(i as int), self.dim_spec() as nat),
            decreases n - i,
        {
            let g = [cs[i]];
            proof {
                assert(g@ =~= seq![cs@[i as int]]);
                assert(gs[i as int] == g@);
                assert(gs.take(i + 1).drop_last() =~= gs.take(i as int));
            }
            self.add_gram(&mut counts, &g, Ghost(i as nat));
            i += 1;
        }
        if n >= 3 {
            let mut w: usize = 0;
            while w + 2 < n
                invariant
                    self.dim_spec() > 0,
                    n == cs@.len(),
                    n >= 3,
                    gs == grams(cs@),
                    w <= n - 2,
                    counts@.len() == self.dim_spec(),
                    forall|k: int| 0 <= k < counts@.len() ==> -((n + w) as int) <= #[trigger] counts@[k] <= n + w,
                    counts@.map_values(|x: i128| x as int) == counts_of(gs.take(n + w), self.dim_spec() as nat),
                decreases n - w,
            {
                let g = [cs[w], cs[w + 1], cs[w + 2]];
                proof {
                    assert(g@ =~= cs@.subrange(w as int, w + 3));
                    assert(gs[n + w] == g@);
                    assert(gs.take(n + w + 1).drop_last() =~= gs.take(n + w));
                }
                self.add_gram(&mut counts, &g, Ghost((n + w) as nat));
                w += 1;
            }
            proof {
                assert(gs.take(n + w) =~= gs);
            }
        } else {
            proof {
                assert(gs.take(n as int) =~= gs);
            }
        }
        counts
    }
}

} // verus!
