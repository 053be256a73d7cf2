use vstd::prelude::*;
use crate::crypto::{pbkdf2_sha512, pbkdf2_sha512_of, sha256, sha256_of};
use crate::data::copy_range;
use crate::error::{Error, MnemonicError};

verus! {

/// PBKDF2 rounds of the mnemonic-to-seed key stretch.
pub const SEED_ITERATIONS: u32 = 2048;

/// Bit `i` of a byte, most significant first, as 0 or 1.
pub open spec fn bit_of_byte(b: u8, i: int) -> u8 {
    (b >> ((7 - i) as u8)) & 1
}

/// A byte sequence as its bits, most significant first.
pub open spec fn bits_of_bytes(s: Seq<u8>) -> Seq<u8> {
    Seq::new(s.len() * 8, |i: int| bit_of_byte(s[i / 8], i % 8))
}

/// Eight bits, most significant first, as a byte.
pub open spec fn byte_of_bits(bs: Seq<u8>) -> u8
    recommends
        bs.len() == 8,
{
    (bs[0] * 128 + bs[1] * 64 + bs[2] * 32 + bs[3] * 16 + bs[4] * 8 + bs[5] * 4 + bs[6] * 2
        + bs[7]) as u8
}

/// A bit sequence, grouped into bytes.
pub open spec fn bytes_of_bits(bs: Seq<u8>) -> Seq<u8> {
    Seq::new(bs.len() / 8, |i: int| byte_of_bits(bs.subrange(8 * i, 8 * i + 8)))
}

/// Bit `i` of an eleven-bit word index, most significant first.
pub open spec fn bit_of_index(w: u16, i: int) -> u8 {
    ((w >> ((10 - i) as u16)) & 1) as u8
}

/// Eleven bits, most significant first, as a word index.
pub open spec fn index_of_bits(bs: Seq<u8>) -> u16
    recommends
        bs.len() == 11,
{
    (bs[0] * 1024 + bs[1] * 512 + bs[2] * 256 + bs[3] * 128 + bs[4] * 64 + bs[5] * 32 + bs[6]
        * 16 + bs[7] * 8 + bs[8] * 4 + bs[9] * 2 + bs[10]) as u16
}

/// A bit sequence, grouped into eleven-bit word indices.
pub open spec fn indices_of_bits(bs: Seq<u8>) -> Seq<u16> {
    Seq::new(bs.len() / 11, |w: int| index_of_bits(bs.subrange(11 * w, 11 * w + 11)))
}

/// Word indices, spelled back out as bits.
pub open spec fn bits_of_indices(ws: Seq<u16>) -> Seq<u8> {
    Seq::new(ws.len() * 11, |i: int| bit_of_index(ws[i / 11], i % 11))
}

/// The entropy byte lengths a mnemonic supports: multiples of four from
/// sixteen to thirty-two.
pub open spec fn entropy_len_supported(n: int) -> bool {
    16 <= n <= 32 && n % 4 == 0
}

/// The word counts a mnemonic supports.
pub open spec fn word_count_supported(n: int) -> bool {
    n == 12 || n == 15 || n == 18 || n == 21 || n == 24
}

/// A mnemonic's bit stream: the entropy's bits followed by the checksum,
/// one leading bit of the entropy's digest for every four entropy bytes.
pub open spec fn spec_mnemonic_bits(entropy: Seq<u8>) -> Seq<u8> {
    bits_of_bytes(entropy) + Seq::new(
        entropy.len() / 4,
        |j: int| bit_of_byte(sha256_of(entropy)[0], j),
    )
}

/// The word indices an entropy value renders to.
pub open spec fn spec_indices_of(entropy: Seq<u8>) -> Seq<u16> {
    indices_of_bits(spec_mnemonic_bits(entropy))
}

/// The entropy bytes embedded in a sequence of word indices.
pub open spec fn spec_entropy_of(ws: Seq<u16>) -> Seq<u8> {
    bytes_of_bits(bits_of_indices(ws).take(8 * (4 * ws.len() as int / 3)))
}

/// The 64-byte seed of a rendered mnemonic sentence and a passphrase,
/// stretched with PBKDF2-HMAC-SHA-512: a pure function of the two inputs,
/// so the same sentence and passphrase always give the same seed.
pub open spec fn seed_of(sentence: Seq<u8>, passphrase: Seq<u8>) -> Seq<u8> {
    pbkdf2_sha512_of(sentence, seed_salt_tag() + passphrase, SEED_ITERATIONS)
}

/// The fixed prefix of the seed salt, the word "mnemonic" as bytes.
pub open spec fn seed_salt_tag() -> Seq<u8> {
    seq![0x6du8, 0x6e, 0x65, 0x6d, 0x6f, 0x6e, 0x69, 0x63]
}

/// Derives the seed of a rendered mnemonic sentence under a passphrase.
pub fn to_seed(sentence: &Vec<u8>, passphrase: &Vec<u8>) -> (r: Vec<u8>)
    ensures
        r@ == seed_of(sentence@, passphrase@),
        r@.len() == 64,
{
    let mut salt: Vec<u8> = Vec::new();
    salt.push(0x6d);
    salt.push(0x6e);
    salt.push(0x65);
    salt.push(0x6d);
    salt.push(0x6f);
    salt.push(0x6e);
    salt.push(0x69);
    salt.push(0x63);
    proof {
        assert(salt@ =~= seed_salt_tag());
    }
    salt.extend_from_slice(passphrase.as_slice());
    proof {
        assert(salt@ =~= seed_salt_tag() + passphrase@);
    }
    pbkdf2_sha512(sentence.as_slice(), salt.as_slice(), SEED_ITERATIONS)
}

/// A byte sequence as a bit vector, most significant bit of each byte
/// first.
fn bytes_to_bits(s: &Vec<u8>) -> (r: Vec<u8>)
    requires
        s@.len() <= 4096,
    ensures
        r@ == bits_of_bytes(s@),
{
    let n = s.len();
    let mut r: Vec<u8> = Vec::new();
    let mut k: usize = 0;
    while k < 8 * n
        invariant
            n == s@.len() <= 4096,
            k <= 8 * n,
            r@.len() == k,
            forall|t: int| 0 <= t < k ==> r@[t] == bit_of_byte(s@[t / 8], t % 8),
        decreases 8 * n - k,
    {
        let b = s[k / 8];
        let sh: u8 = 7 - ((k % 8) as u8);
        r.push((b >> sh) & 1);
        k = k + 1;
    }
    proof {
        assert(r@ =~= bits_of_bytes(s@));
    }
    r
}

/// A bit vector, grouped into eleven-bit word indices.
fn bits_to_indices(bits: &Vec<u8>) -> (r: Vec<u16>)
    requires
        bits@.len() % 11 == 0,
        bits@.len() <= 4096,
        forall|t: int| 0 <= t < bits@.len() ==> bits@[t] <= 1,
    ensures
        r@ == indices_of_bits(bits@),
        forall|w: int| 0 <= w < r@.len() ==> r@[w] < 2048,
{
    let n = bits.len() / 11;
    let mut r: Vec<u16> = Vec::new();
    let mut w: usize = 0;
    while w < n
        invariant
            bits@.len() == 11 * n,
            bits@.len() <= 4096,
            forall|t: int| 0 <= t < bits@.len() ==> bits@[t] <= 1,
            w <= n,
            r@.len() == w,
            forall|v: int|
                0 <= v < w ==> r@[v] == index_of_bits(bits@.subrange(11 * v, 11 * v + 11))
                    && r@[v] < 2048,
        decreases n - w,
    {
        let base = 11 * w;
        let idx: u16 = (bits[base] as u16) * 1024 + (bits[base + 1] as u16) * 512 + (bits[base
            + 2] as u16) * 256 + (bits[base + 3] as u16) * 128 + (bits[base + 4] as u16) * 64 + (
        bits[base + 5] as u16) * 32 + (bits[base + 6] as u16) * 16 + (bits[base + 7] as u16) * 8
            + (bits[base + 8] as u16) * 4 + (bits[base + 9] as u16) * 2 + (bits[base
            + 10] as u16);
        proof {
            let sub = bits@.subrange(11 * w as int, 11 * w as int + 11);
            assert(sub[0] == bits@[11 * w as int] && sub[1] == bits@[11 * w as int + 1] && sub[2]
                == bits@[11 * w as int + 2] && sub[3] == bits@[11 * w as int + 3] && sub[4]
                == bits@[11 * w as int + 4] && sub[5] == bits@[11 * w as int + 5] && sub[6]
                == bits@[11 * w as int + 6] && sub[7] == bits@[11 * w as int + 7] && sub[8]
                == bits@[11 * w as int + 8] && sub[9] == bits@[11 * w as int + 9] && sub[10]
                == bits@[11 * w as int + 10]);
        }
        r.push(idx);
        w = w + 1;
    }
    proof {
        assert(r@ =~= indices_of_bits(bits@));
    }
    r
}

/// Word indices, spelled back out as a bit vector.
fn indices_to_bits(ws: &Vec<u16>) -> (r: Vec<u8>)
    requires
        ws@.len() <= 256,
    ensures
        r@ == bits_of_indices(ws@),
        forall|t: int| 0 <= t < r@.len() ==> r@[t] <= 1,
{
    let n = ws.len();
    let mut r: Vec<u8> = Vec::new();
    let mut k: usize = 0;
    while k < 11 * n
        invariant
            n == ws@.len() <= 256,
            k <= 11 * n,
            r@.len() == k,
            forall|t: int| 0 <= t < k ==> r@[t] == bit_of_index(ws@[t / 11], t % 11) && r@[t]
                <= 1,
        decreases 11 * n - k,
    {
        let x = ws[k / 11];
        let sh: u16 = 10 - ((k % 11) as u16);
        let bit = ((x >> sh) & 1) as u8;
        proof {
            let v = x;
            let s = sh;
            assert((v >> s) & 1 <= 1) by (bit_vector);
        }
        r.push(bit);
        k = k + 1;
    }
    proof {
        assert(r@ =~= bits_of_indices(ws@));
    }
    r
}

/// A bit vector, grouped back into bytes.
fn bits_to_bytes(bits: &Vec<u8>) -> (r: Vec<u8>)
    requires
        bits@.len() % 8 == 0,
        bits@.len() <= 4096,
        forall|t: int| 0 <= t < bits@.len() ==> bits@[t] <= 1,
    ensures
        r@ == bytes_of_bits(bits@),
{
    let n = bits.len() / 8;
    let mut r: Vec<u8> = Vec::new();
    let mut i: usize = 0;
    while i < n
        invariant
            bits@.len() == 8 * n,
            bits@.len() <= 4096,
            forall|t: int| 0 <= t < bits@.len() ==> bits@[t] <= 1,
            i <= n,
            r@.len() == i,
            forall|v: int| 0 <= v < i ==> r@[v] == byte_of_bits(bits@.subrange(8 * v, 8 * v + 8)),
        decreases n - i,
    {
        let base = 8 * i;
        let byte: u8 = bits[base] * 128 + bits[base + 1] * 64 + bits[base + 2] * 32 + bits[base
            + 3] * 16 + bits[base + 4] * 8 + bits[base + 5] * 4 + bits[base + 6] * 2 + bits[base
            + 7];
        proof {
            let sub = bits@.subrange(8 * i as int, 8 * i as int + 8);
            assert(sub[0] == bits@[8 * i as int] && sub[1] == bits@[8 * i as int + 1] && sub[2]
                == bits@[8 * i as int + 2] && sub[3] == bits@[8 * i as int + 3] && sub[4]
                == bits@[8 * i as int + 4] && sub[5] == bits@[8 * i as int + 5] && sub[6]
                == bits@[8 * i as int + 6] && sub[7] == bits@[8 * i as int + 7]);
        }
        r.push(byte);
        i = i + 1;
    }
    proof {
        assert(r@ =~= bytes_of_bits(bits@));
    }
    r
}

/// A mnemonic: entropy of a supported length together with the word
/// indices that render it, checksum bits included.
#[derive(Debug)]
pub struct Mnemonic {
    entropy: Vec<u8>,
    indices: Vec<u16>,
}

impl Mnemonic {
    pub closed spec fn spec_entropy(self) -> Seq<u8> {
        self.entropy@
    }

    pub closed spec fn spec_indices(self) -> Seq<u16> {
        self.indices@
    }

    pub open spec fn wf(self) -> bool {
        entropy_len_supported(self.spec_entropy().len() as int) && self.spec_indices()
            == spec_indices_of(self.spec_entropy())
    }

    /// The entropy this mnemonic encodes.
    pub fn entropy(&self) -> (r: &Vec<u8>)
        ensures
            r@ == self.spec_entropy(),
    {
        &self.entropy
    }

    /// The word indices that render this mnemonic, each below the
    /// wordlist's size of 2048.
    pub fn indices(&self) -> (r: &Vec<u16>)
        ensures
            r@ == self.spec_indices(),
    {
        &self.indices
    }

    /// Renders entropy of a supported length into a mnemonic, appending
    /// one checksum bit per four entropy bytes before grouping into
    /// eleven-bit word indices; unsupported lengths are `NotEnoughData`.
    pub fn generate(entropy: &Vec<u8>) -> (r: Result<Mnemonic, Error>)
        ensures
            r is Ok <==> entropy_len_supported(entropy@.len() as int),
            match r {
                Ok(m) => m.wf() && m.spec_entropy() == entropy@ && m.spec_indices()
                    == spec_indices_of(entropy@) && m.spec_indices().len() == 3 * (
                entropy@.len() as int) / 4,
                Err(e) => e == Error::NotEnoughData,
            },
    {
        let n = entropy.len();
        if n < 16 || n > 32 || n % 4 != 0 {
            return Err(Error::NotEnoughData);
        }
        let mut bits = bytes_to_bits(entropy);
        let digest = sha256(entropy.as_slice());
        let cs = n / 4;
        let d0 = digest[0];
        let mut j: usize = 0;
        while j < cs
            invariant
                cs == n / 4,
                n == entropy@.len(),
                16 <= n <= 32,
                j <= cs,
                d0 == sha256_of(entropy@)[0],
                sha256_of(entropy@).len() == 32,
                bits@.len() == 8 * n + j,
                bits@.take(8 * n as int) == bits_of_bytes(entropy@),
                forall|t: int|
                    8 * n <= t < bits@.len() ==> bits@[t] == bit_of_byte(
                        sha256_of(entropy@)[0],
                        t - 8 * n,
                    ),
            decreases cs - j,
        {
            let sh: u8 = 7 - (j as u8);
            bits.push((d0 >> sh) & 1);
            proof {
                assert(bits@.take(8 * n as int) =~= bits_of_bytes(entropy@));
            }
            j = j + 1;
        }
        proof {
            let mb = spec_mnemonic_bits(entropy@);
            assert forall|t: int| 0 <= t < mb.len() implies bits@[t] == mb[t] by {
                if t < 8 * n {
                    assert(bits@.take(8 * n as int)[t] == bits_of_bytes(entropy@)[t]);
                }
            }
            assert(bits@ =~= mb);
            assert(n == 16 || n == 20 || n == 24 || n == 28 || n == 32);
            lemma_bits_of_bytes_bounded(entropy@);
            assert forall|t: int| 0 <= t < bits@.len() implies bits@[t] <= 1 by {
                if t < 8 * n {
                    assert(bits@[t] == bits_of_bytes(entropy@)[t]);
                } else {
                    lemma_bit_le1(sha256_of(entropy@)[0], t - 8 * n);
                }
            }
        }
        let indices = bits_to_indices(&bits);
        proof {
            assert(indices@.len() == 3 * (entropy@.len() as int) / 4);
        }
        let e = copy_range(entropy, 0, n);
        proof {
            assert(e@ =~= entropy@);
        }
        Ok(Mnemonic { entropy: e, indices })
    }

    /// Reads a mnemonic back from word indices: the count must be
    /// supported, every index within the wordlist, and the embedded
    /// checksum must match the recovered entropy; the first failing check
    /// names the error.
    #[verifier::rlimit(60)]
    pub fn from_indices(ws: &Vec<u16>) -> (r: Result<Mnemonic, Error>)
        ensures
            r is Ok <==> (word_count_supported(ws@.len() as int) && (forall|i: int|
                0 <= i < ws@.len() ==> ws@[i] < 2048) && spec_indices_of(spec_entropy_of(ws@))
                == ws@),
            match r {
                Ok(m) => m.wf() && m.spec_indices() == ws@ && m.spec_entropy() == spec_entropy_of(
                    ws@,
                ),
                Err(e) => {
                    if !word_count_supported(ws@.len() as int) {
                        e == Error::MnemonicError(MnemonicError::InvalidWordCount(ws@.len() as usize))
                    } else if exists|i: int| 0 <= i < ws@.len() && (#[trigger] ws@[i]) >= 2048 {
                        e matches Error::MnemonicError(MnemonicError::InvalidWord(i))
                            && ws@[i as int] >= 2048
                    } else {
                        e == Error::MnemonicError(MnemonicError::InvalidChecksum)
                    }
                },
            },
    {
        let n = ws.len();
        if !(n == 12 || n == 15 || n == 18 || n == 21 || n == 24) {
            return Err(Error::MnemonicError(MnemonicError::InvalidWordCount(n)));
        }
        let mut i: usize = 0;
        while i < n
            invariant
                n == ws@.len(),
                word_count_supported(n as int),
                i <= n,
                forall|k: int| 0 <= k < i ==> (#[trigger] ws@[k]) < 2048,
            decreases n - i,
        {
            if ws[i] >= 2048 {
                proof {
                    assert(exists|k: int| 0 <= k < ws@.len() && (#[trigger] ws@[k]) >= 2048);
                }
                return Err(Error::MnemonicError(MnemonicError::InvalidWord(i)));
            }
            i = i + 1;
        }
        let bits = indices_to_bits(ws);
        let el = n / 3 * 4;
        proof {
            assert(el == 4 * ws@.len() as int / 3);
            assert(8 * el <= bits@.len());
        }
        let ebits = copy_range(&bits, 0, 8 * el);
        proof {
            assert(ebits@ =~= bits_of_indices(ws@).take(8 * (4 * ws@.len() as int / 3)));
            assert(ebits@.len() % 8 == 0);
        }
        let entropy = bits_to_bytes(&ebits);
        proof {
            assert(entropy@ == spec_entropy_of(ws@));
        }
        let m = match Mnemonic::generate(&entropy) {
            Ok(m) => m,
            Err(_) => {
                proof {
                    assert(entropy_len_supported(entropy@.len() as int));
                    assert(false);
                }
                return Err(Error::MnemonicError(MnemonicError::InvalidChecksum));
            },
        };
        let expect = copy_indices_all(m.indices());
        proof {
            assert(expect@.len() == 3 * (entropy@.len() as int) / 4);
            assert(entropy@.len() == el);
            assert(expect@.len() == n);
        }
        let mut j: usize = 0;
        while j < n
            invariant
                n == ws@.len(),
                word_count_supported(n as int),
                forall|k: int| 0 <= k < n ==> (#[trigger] ws@[k]) < 2048,
                expect@ == spec_indices_of(spec_entropy_of(ws@)),
                expect@.len() == n,
                j <= n,
                forall|k: int| 0 <= k < j ==> ws@[k] == expect@[k],
            decreases n - j,
        {
            if ws[j] != expect[j] {
                proof {
                    assert(spec_indices_of(spec_entropy_of(ws@)) != ws@);
                }
                return Err(Error::MnemonicError(MnemonicError::InvalidChecksum));
            }
            j = j + 1;
        }
        proof {
            assert(ws@ =~= expect@);
        }
        let indices = copy_indices_all(ws);
        Ok(Mnemonic { entropy: m.into_entropy(), indices })
    }

    fn into_entropy(self) -> (r: Vec<u8>)
        ensures
            r@ == self.spec_entropy(),
    {
        self.entropy
    }
}

/// Copies the indices into a fresh vector.
fn copy_indices_all(v: &Vec<u16>) -> (r: Vec<u16>)
    ensures
        r@ == v@,
{
    let n = v.len();
    let mut out: Vec<u16> = Vec::new();
    let mut i: usize = 0;
    while i < n
        invariant
            n == v@.len(),
            i <= n,
            out@ == v@.subrange(0, i as int),
        decreases n - i,
    {
        out.push(v[i]);
        proof {
            assert(out@ =~= v@.subrange(0, i + 1));
        }
        i = i + 1;
    }
    proof {
        assert(out@ =~= v@);
    }
    out
}

/// A single bit of a byte is 0 or 1.
proof fn lemma_bit_le1(b: u8, i: int)
    requires
        0 <= i < 8,
    ensures
        bit_of_byte(b, i) <= 1,
{
    let sh = (7 - i) as u8;
    assert((b >> sh) & 1 <= 1) by (bit_vector);
}

/// Every bit of a byte sequence's bit stream is 0 or 1.
pub proof fn lemma_bits_of_bytes_bounded(s: Seq<u8>)
    ensures
        forall|t: int| 0 <= t < bits_of_bytes(s).len() ==> #[trigger] bits_of_bytes(s)[t] <= 1,
{
    assert forall|t: int| 0 <= t < bits_of_bytes(s).len() implies #[trigger] bits_of_bytes(s)[t]
        <= 1 by {
        let b = s[t / 8];
        let sh = (7 - t % 8) as u8;
        assert((b >> sh) & 1 <= 1) by (bit_vector);
    }
}

/// The eight bits of a byte, taken in order, rebuild the byte.
proof fn lemma_byte_roundtrip(b: u8)
    ensures
        byte_of_bits(Seq::new(8, |i: int| bit_of_byte(b, i))) == b,
{
    let s = Seq::new(8, |i: int| bit_of_byte(b, i));
    assert(s[0] == (b >> 7u8) & 1 && s[1] == (b >> 6u8) & 1 && s[2] == (b >> 5u8) & 1 && s[3] == (
    b >> 4u8) & 1 && s[4] == (b >> 3u8) & 1 && s[5] == (b >> 2u8) & 1 && s[6] == (b >> 1u8) & 1
        && s[7] == (b >> 0u8) & 1);
    assert((((b >> 7u8) & 1) * 128 + ((b >> 6u8) & 1) * 64 + ((b >> 5u8) & 1) * 32 + ((b >> 4u8)
        & 1) * 16 + ((b >> 3u8) & 1) * 8 + ((b >> 2u8) & 1) * 4 + ((b >> 1u8) & 1) * 2 + ((b
        >> 0u8) & 1)) as u8 == b) by (bit_vector);
}

/// A byte sequence survives the trip through its bit stream.
proof fn lemma_bytes_bits_roundtrip(s: Seq<u8>)
    ensures
        bytes_of_bits(bits_of_bytes(s)) =~= s,
{
    let bits = bits_of_bytes(s);
    assert(bytes_of_bits(bits).len() == s.len());
    assert forall|i: int| 0 <= i < s.len() implies bytes_of_bits(bits)[i] == s[i] by {
        let sub = bits.subrange(8 * i, 8 * i + 8);
        let canon = Seq::new(8, |j: int| bit_of_byte(s[i], j));
        assert forall|j: int| 0 <= j < 8 implies sub[j] == canon[j] by {
            assert((8 * i + j) / 8 == i && (8 * i + j) % 8 == j) by (nonlinear_arith)
                requires
                    0 <= j < 8,
                    0 <= i,
            ;
            assert(sub[j] == bits[8 * i + j]);
        }
        assert(sub =~= canon);
        lemma_byte_roundtrip(s[i]);
    }
}

/// Eleven bits, each 0 or 1, fit in a word index below 2048 and are read
/// back from it unchanged.
proof fn lemma_index_bits_roundtrip(bs: Seq<u8>)
    requires
        bs.len() == 11,
        forall|t: int| 0 <= t < 11 ==> bs[t] <= 1,
    ensures
        index_of_bits(bs) < 2048,
        forall|j: int| 0 <= j < 11 ==> #[trigger] bit_of_index(index_of_bits(bs), j) == bs[j],
{
    let b0 = bs[0];
    let b1 = bs[1];
    let b2 = bs[2];
    let b3 = bs[3];
    let b4 = bs[4];
    let b5 = bs[5];
    let b6 = bs[6];
    let b7 = bs[7];
    let b8 = bs[8];
    let b9 = bs[9];
    let b10 = bs[10];
    let w = index_of_bits(bs);
    assert(w < 2048 && ((w >> 10u16) & 1) as u8 == b0 && ((w >> 9u16) & 1) as u8 == b1 && ((w
        >> 8u16) & 1) as u8 == b2 && ((w >> 7u16) & 1) as u8 == b3 && ((w >> 6u16) & 1) as u8
        == b4 && ((w >> 5u16) & 1) as u8 == b5 && ((w >> 4u16) & 1) as u8 == b6 && ((w >> 3u16)
        & 1) as u8 == b7 && ((w >> 2u16) & 1) as u8 == b8 && ((w >> 1u16) & 1) as u8 == b9 && ((
    w >> 0u16) & 1) as u8 == b10) by (bit_vector)
        requires
            w == (b0 * 1024 + b1 * 512 + b2 * 256 + b3 * 128 + b4 * 64 + b5 * 32 + b6 * 16 + b7
                * 8 + b8 * 4 + b9 * 2 + b10) as u16,
            b0 <= 1,
            b1 <= 1,
            b2 <= 1,
            b3 <= 1,
            b4 <= 1,
            b5 <= 1,
            b6 <= 1,
            b7 <= 1,
            b8 <= 1,
            b9 <= 1,
            b10 <= 1,
    ;
    assert forall|j: int| 0 <= j < 11 implies #[trigger] bit_of_index(w, j) == bs[j] by {
        if j == 0 {
            assert(bit_of_index(w, 0) == ((w >> 10u16) & 1) as u8);
        } else if j == 1 {
            assert(bit_of_index(w, 1) == ((w >> 9u16) & 1) as u8);
        } else if j == 2 {
            assert(bit_of_index(w, 2) == ((w >> 8u16) & 1) as u8);
        } else if j == 3 {
            assert(bit_of_index(w, 3) == ((w >> 7u16) & 1) as u8);
        } else if j == 4 {
            assert(bit_of_index(w, 4) == ((w >> 6u16) & 1) as u8);
        } else if j == 5 {
            assert(bit_of_index(w, 5) == ((w >> 5u16) & 1) as u8);
        } else if j == 6 {
            assert(bit_of_index(w, 6) == ((w >> 4u16) & 1) as u8);
        } else if j == 7 {
            assert(bit_of_index(w, 7) == ((w >> 3u16) & 1) as u8);
        } else if j == 8 {
            assert(bit_of_index(w, 8) == ((w >> 2u16) & 1) as u8);
        } else if j == 9 {
            assert(bit_of_index(w, 9) == ((w >> 1u16) & 1) as u8);
        } else {
            assert(bit_of_index(w, 10) == ((w >> 0u16) & 1) as u8);
        }
    }
}

/// A bit stream whose length is a multiple of eleven survives the trip
/// through word indices, and every index stays below 2048.
proof fn lemma_bits_indices_roundtrip(bits: Seq<u8>)
    requires
        bits.len() % 11 == 0,
        forall|t: int| 0 <= t < bits.len() ==> bits[t] <= 1,
    ensures
        bits_of_indices(indices_of_bits(bits)) =~= bits,
        forall|v: int|
            0 <= v < indices_of_bits(bits).len() ==> #[trigger] indices_of_bits(bits)[v] < 2048,
{
    let ws = indices_of_bits(bits);
    assert(ws.len() == bits.len() / 11);
    assert forall|v: int| 0 <= v < ws.len() implies #[trigger] ws[v] < 2048 by {
        let sub = bits.subrange(11 * v, 11 * v + 11);
        assert(11 * v + 11 <= bits.len()) by (nonlinear_arith)
            requires
                0 <= v < bits.len() / 11,
                bits.len() % 11 == 0,
        ;
        lemma_index_bits_roundtrip(sub);
    }
    assert(bits_of_indices(ws).len() == 11 * (bits.len() / 11));
    assert(11 * (bits.len() / 11) == bits.len()) by (nonlinear_arith)
        requires
            bits.len() % 11 == 0,
    ;
    assert forall|k: int| 0 <= k < bits.len() implies bits_of_indices(ws)[k] == bits[k] by {
        let v = k / 11;
        let j = k % 11;
        assert(0 <= j < 11 && k == 11 * v + j && 0 <= v < bits.len() / 11) by (nonlinear_arith)
            requires
                0 <= k < bits.len(),
                v == k / 11,
                j == k % 11,
                bits.len() % 11 == 0,
        ;
        let sub = bits.subrange(11 * v, 11 * v + 11);
        lemma_index_bits_roundtrip(sub);
        assert(bits_of_indices(ws)[k] == bit_of_index(ws[v], j));
        assert(ws[v] == index_of_bits(sub));
        assert(bit_of_index(index_of_bits(sub), j) == sub[j]);
        assert(sub[j] == bits[11 * v + j]);
    }
}

/// The mnemonic round trip is the identity: rendering supported entropy
/// into word indices gives a supported word count with every index in the
/// wordlist's range, reading the indices back recovers the entropy
/// byte-for-byte, and the indices pass the checksum test.
pub proof fn lemma_mnemonic_roundtrip(e: Seq<u8>)
    requires
        entropy_len_supported(e.len() as int),
    ensures
        spec_indices_of(e).len() == 3 * e.len() as int / 4,
        word_count_supported(spec_indices_of(e).len() as int),
        forall|i: int| 0 <= i < spec_indices_of(e).len() ==> #[trigger] spec_indices_of(e)[i]
            < 2048,
        spec_entropy_of(spec_indices_of(e)) == e,
        spec_indices_of(spec_entropy_of(spec_indices_of(e))) == spec_indices_of(e),
{
    let mb = spec_mnemonic_bits(e);
    let el = e.len() as int;
    assert(el == 16 || el == 20 || el == 24 || el == 28 || el == 32);
    assert(mb.len() == 8 * el + el / 4);
    assert(mb.len() % 11 == 0);
    lemma_bits_of_bytes_bounded(e);
    assert forall|t: int| 0 <= t < mb.len() implies mb[t] <= 1 by {
        if t < 8 * el {
            assert(mb[t] == bits_of_bytes(e)[t]);
        } else {
            lemma_bit_le1(sha256_of(e)[0], t - 8 * el);
        }
    }
    lemma_bits_indices_roundtrip(mb);
    let ws = spec_indices_of(e);
    assert(ws.len() == mb.len() / 11);
    assert(ws.len() == 3 * el / 4);
    assert(bits_of_indices(ws) =~= mb);
    assert(4 * ws.len() as int / 3 == el);
    assert(bits_of_indices(ws).take(8 * el) =~= bits_of_bytes(e));
    lemma_bytes_bits_roundtrip(e);
    assert(spec_entropy_of(ws) =~= e);
}

} // verus!
