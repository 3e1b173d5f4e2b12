//! SHA-256 (FIPS 180-4), used to compare cache files byte for byte.
//!
//! The specification below follows the standard: the message is padded
//! to whole 64-byte blocks, each block is expanded into a 64-word message
//! schedule and compressed into the eight-word state by 64 rounds.  The
//! hasher accepts its input in pieces; the digest depends only on the
//! bytes fed, in order.
use vstd::prelude::*;
use crate::text::push_char;

verus! {

// ------------------------------------------------------------------
// Specification
// ------------------------------------------------------------------

/// Addition modulo 2^32.
pub open spec fn add32(a: u32, b: u32) -> u32 {
    if a + b > u32::MAX {
        (a + b - 0x1_0000_0000) as u32
    } else {
        (a + b) as u32
    }
}

/// Rotation right by `n` bits, `0 < n < 32`.
pub open spec fn rotr(x: u32, n: u32) -> u32 {
    (x >> n) | (x << ((32 - n) as u32))
}

pub open spec fn big_sigma0(x: u32) -> u32 {
    rotr(x, 2) ^ rotr(x, 13) ^ rotr(x, 22)
}

pub open spec fn big_sigma1(x: u32) -> u32 {
    rotr(x, 6) ^ rotr(x, 11) ^ rotr(x, 25)
}

pub open spec fn small_sigma0(x: u32) -> u32 {
    rotr(x, 7) ^ rotr(x, 18) ^ (x >> 3u32)
}

pub open spec fn small_sigma1(x: u32) -> u32 {
    rotr(x, 17) ^ rotr(x, 19) ^ (x >> 10u32)
}

pub open spec fn choice(e: u32, f: u32, g: u32) -> u32 {
    (e & f) ^ (!e & g)
}

pub open spec fn majority(a: u32, b: u32, c: u32) -> u32 {
    (a & b) ^ (a & c) ^ (b & c)
}

/// The round constants K0..K63 (first 32 bits of the fractional parts of
/// the cube roots of the first 64 primes).
pub open spec fn round_constant(i: int) -> u32 {
    if i == 0 {
        0x428a2f98
    } else if i == 1 {
        0x71374491
    } else if i == 2 {
        0xb5c0fbcf
    } else if i == 3 {
        0xe9b5dba5
    } else if i == 4 {
        0x3956c25b
    } else if i == 5 {
        0x59f111f1
    } else if i == 6 {
        0x923f82a4
    } else if i == 7 {
        0xab1c5ed5
    } else if i == 8 {
        0xd807aa98
    } else if i == 9 {
        0x12835b01
    } else if i == 10 {
        0x243185be
    } else if i == 11 {
        0x550c7dc3
    } else if i == 12 {
        0x72be5d74
    } else if i == 13 {
        0x80deb1fe
    } else if i == 14 {
        0x9bdc06a7
    } else if i == 15 {
        0xc19bf174
    } else if i == 16 {
        0xe49b69c1
    } else if i == 17 {
        0xefbe4786
    } else if i == 18 {
        0x0fc19dc6
    } else if i == 19 {
        0x240ca1cc
    } else if i == 20 {
        0x2de92c6f
    } else if i == 21 {
        0x4a7484aa
    } else if i == 22 {
        0x5cb0a9dc
    } else if i == 23 {
        0x76f988da
    } else if i == 24 {
        0x983e5152
    } else if i == 25 {
        0xa831c66d
    } else if i == 26 {
        0xb00327c8
    } else if i == 27 {
        0xbf597fc7
    } else if i == 28 {
        0xc6e00bf3
    } else if i == 29 {
        0xd5a79147
    } else if i == 30 {
        0x06ca6351
    } else if i == 31 {
        0x14292967
    } else if i == 32 {
        0x27b70a85
    } else if i == 33 {
        0x2e1b2138
    } else if i == 34 {
        0x4d2c6dfc
    } else if i == 35 {
        0x53380d13
    } else if i == 36 {
        0x650a7354
    } else if i == 37 {
        0x766a0abb
    } else if i == 38 {
        0x81c2c92e
    } else if i == 39 {
        0x92722c85
    } else if i == 40 {
        0xa2bfe8a1
    } else if i == 41 {
        0xa81a664b
    } else if i == 42 {
        0xc24b8b70
    } else if i == 43 {
        0xc76c51a3
    } else if i == 44 {
        0xd192e819
    } else if i == 45 {
        0xd6990624
    } else if i == 46 {
        0xf40e3585
    } else if i == 47 {
        0x106aa070
    } else if i == 48 {
        0x19a4c116
    } else if i == 49 {
        0x1e376c08
    } else if i == 50 {
        0x2748774c
    } else if i == 51 {
        0x34b0bcb5
    } else if i == 52 {
        0x391c0cb3
    } else if i == 53 {
        0x4ed8aa4a
    } else if i == 54 {
        0x5b9cca4f
    } else if i == 55 {
        0x682e6ff3
    } else if i == 56 {
        0x748f82ee
    } else if i == 57 {
        0x78a5636f
    } else if i == 58 {
        0x84c87814
    } else if i == 59 {
        0x8cc70208
    } else if i == 60 {
        0x90befffa
    } else if i == 61 {
        0xa4506ceb
    } else if i == 62 {
        0xbef9a3f7
    } else {
        0xc67178f2
    }
}

/// The initial hash value H(0) (first 32 bits of the fractional parts of
/// the square roots of the first 8 primes).
pub open spec fn initial_word(i: int) -> u32 {
    if i == 0 {
        0x6a09e667
    } else if i == 1 {
        0xbb67ae85
    } else if i == 2 {
        0x3c6ef372
    } else if i == 3 {
        0xa54ff53a
    } else if i == 4 {
        0x510e527f
    } else if i == 5 {
        0x9b05688c
    } else if i == 6 {
        0x1f83d9ab
    } else {
        0x5be0cd19
    }
}

pub open spec fn initial_state() -> Seq<u32> {
    Seq::new(8, |i: int| initial_word(i))
}

/// Big-endian word `i` of a block.
pub open spec fn be_word(b: Seq<u8>, i: int) -> u32 {
    ((b[4 * i] as u32) << 24u32) | ((b[4 * i + 1] as u32) << 16u32) | ((b[4 * i + 2] as u32)
        << 8u32) | (b[4 * i + 3] as u32)
}

/// Word `t` of the message schedule of `block`.
pub open spec fn schedule(block: Seq<u8>, t: int) -> u32
    decreases t,
{
    if t < 16 {
        be_word(block, t)
    } else {
        add32(
            add32(
                add32(schedule(block, t - 16), small_sigma0(schedule(block, t - 15))),
                schedule(block, t - 7),
            ),
            small_sigma1(schedule(block, t - 2)),
        )
    }
}

/// One round applied to the working variables `a..h`.
pub open spec fn round(s: Seq<u32>, k: u32, w: u32) -> Seq<u32> {
    let t1 = add32(add32(add32(add32(s[7], big_sigma1(s[4])), choice(s[4], s[5], s[6])), k), w);
    let t2 = add32(big_sigma0(s[0]), majority(s[0], s[1], s[2]));
    seq![add32(t1, t2), s[0], s[1], s[2], add32(s[3], t1), s[4], s[5], s[6]]
}

/// The working variables after the first `t` rounds over `block`.
pub open spec fn rounds(init: Seq<u32>, block: Seq<u8>, t: int) -> Seq<u32>
    decreases t,
{
    if t <= 0 {
        init
    } else {
        round(rounds(init, block, t - 1), round_constant(t - 1), schedule(block, t - 1))
    }
}

/// The state after compressing one 64-byte block into `st`.
pub open spec fn compress(st: Seq<u32>, block: Seq<u8>) -> Seq<u32> {
    let r = rounds(st, block, 64);
    Seq::new(8, |i: int| add32(st[i], r[i]))
}

/// The state after the first `n` 64-byte blocks of `data`.
pub open spec fn hash_blocks(data: Seq<u8>, n: nat) -> Seq<u32>
    decreases n,
{
    if n == 0 {
        initial_state()
    } else {
        compress(hash_blocks(data, (n - 1) as nat), data.subrange(64 * (n - 1), 64 * n as int))
    }
}

/// The number of zero bytes of padding after the `0x80` byte.
pub open spec fn pad_zeros(len: nat) -> nat {
    ((119 - (len % 64)) % 64) as nat
}

/// The big-endian bytes of a 64-bit value.
pub open spec fn be64(x: u64) -> Seq<u8> {
    seq![
        (x >> 56u64) as u8,
        (x >> 48u64) as u8,
        (x >> 40u64) as u8,
        (x >> 32u64) as u8,
        (x >> 24u64) as u8,
        (x >> 16u64) as u8,
        (x >> 8u64) as u8,
        x as u8,
    ]
}

/// The padded message: `0x80`, zeros, and the bit length as 64 bits.
pub open spec fn padded(msg: Seq<u8>) -> Seq<u8> {
    msg.push(0x80u8) + Seq::new(pad_zeros(msg.len()), |i: int| 0u8) + be64((msg.len() * 8) as u64)
}

/// The SHA-256 digest of `msg` as eight words.
pub open spec fn sha256(msg: Seq<u8>) -> Seq<u32> {
    hash_blocks(padded(msg), padded(msg).len() / 64)
}

/// The ASCII code of a lowercase hexadecimal digit, `n < 16`.
pub open spec fn hex_code(n: u8) -> u8 {
    if n <= 9 {
        (48 + n) as u8
    } else {
        (97 + (n - 10)) as u8
    }
}

/// The two lowercase hex digits of a byte.
pub open spec fn byte_hex(b: u8) -> Seq<char> {
    seq![hex_code(b >> 4u8) as char, hex_code(b & 0xfu8) as char]
}

/// The eight lowercase hex digits of a word, most significant first.
pub open spec fn word_hex(w: u32) -> Seq<char> {
    byte_hex((w >> 24u32) as u8) + byte_hex((w >> 16u32) as u8) + byte_hex((w >> 8u32) as u8)
        + byte_hex(w as u8)
}

/// The hex digits of a sequence of words.
pub open spec fn hex_words(ws: Seq<u32>) -> Seq<char>
    decreases ws.len(),
{
    if ws.len() == 0 {
        Seq::empty()
    } else {
        hex_words(ws.drop_last()) + word_hex(ws.last())
    }
}

/// The SHA-256 digest of `msg` as 64 lowercase hex digits.
pub open spec fn sha256_hex(msg: Seq<u8>) -> Seq<char> {
    hex_words(sha256(msg))
}

/// The longest message the hasher accepts: its length in bits, padding
/// included, must fit in 64 bits.
pub open spec fn max_message_len() -> nat {
    0x1FFF_FFFF_FFFF_FF00
}

// ------------------------------------------------------------------
// Lemmas
// ------------------------------------------------------------------

/// The first `n` blocks depend only on the first `64 n` bytes.
pub proof fn lemma_hash_blocks_prefix(d1: Seq<u8>, d2: Seq<u8>, n: nat)
    requires
        64 * n <= d1.len(),
        64 * n <= d2.len(),
        forall|i: int| 0 <= i < 64 * n ==> d1[i] == d2[i],
    ensures
        hash_blocks(d1, n) == hash_blocks(d2, n),
    decreases n,
{
    if n > 0 {
        lemma_hash_blocks_prefix(d1, d2, (n - 1) as nat);
        assert(d1.subrange(64 * (n - 1), 64 * n as int) =~= d2.subrange(64 * (n - 1), 64 * n as int));
    }
}

/// Feeding a message to a fresh hasher in two pieces gives the digest of
/// the whole message in one piece.
pub proof fn law_split_feed_same_digest(a: Seq<u8>, b: Seq<u8>)
    ensures
        sha256_hex((Seq::<u8>::empty() + a) + b) == sha256_hex(a + b),
{
    assert((Seq::<u8>::empty() + a) + b =~= a + b);
}

pub proof fn lemma_hex_words_len(ws: Seq<u32>)
    ensures
        hex_words(ws).len() == 8 * ws.len(),
    decreases ws.len(),
{
    if ws.len() > 0 {
        lemma_hex_words_len(ws.drop_last());
    }
}

// ------------------------------------------------------------------
// Implementation
// ------------------------------------------------------------------

fn round_constant_exec(i: usize) -> (k: u32)
    requires
        i < 64,
    ensures
        k == round_constant(i as int),
{
    match i {
        0 => 0x428a2f98,
        1 => 0x71374491,
        2 => 0xb5c0fbcf,
        3 => 0xe9b5dba5,
        4 => 0x3956c25b,
        5 => 0x59f111f1,
        6 => 0x923f82a4,
        7 => 0xab1c5ed5,
        8 => 0xd807aa98,
        9 => 0x12835b01,
        10 => 0x243185be,
        11 => 0x550c7dc3,
        12 => 0x72be5d74,
        13 => 0x80deb1fe,
        14 => 0x9bdc06a7,
        15 => 0xc19bf174,
        16 => 0xe49b69c1,
        17 => 0xefbe4786,
        18 => 0x0fc19dc6,
        19 => 0x240ca1cc,
        20 => 0x2de92c6f,
        21 => 0x4a7484aa,
        22 => 0x5cb0a9dc,
        23 => 0x76f988da,
        24 => 0x983e5152,
        25 => 0xa831c66d,
        26 => 0xb00327c8,
        27 => 0xbf597fc7,
        28 => 0xc6e00bf3,
        29 => 0xd5a79147,
        30 => 0x06ca6351,
        31 => 0x14292967,
        32 => 0x27b70a85,
        33 => 0x2e1b2138,
        34 => 0x4d2c6dfc,
        35 => 0x53380d13,
        36 => 0x650a7354,
        37 => 0x766a0abb,
        38 => 0x81c2c92e,
        39 => 0x92722c85,
        40 => 0xa2bfe8a1,
        41 => 0xa81a664b,
        42 => 0xc24b8b70,
        43 => 0xc76c51a3,
        44 => 0xd192e819,
        45 => 0xd6990624,
        46 => 0xf40e3585,
        47 => 0x106aa070,
        48 => 0x19a4c116,
        49 => 0x1e376c08,
        50 => 0x2748774c,
        51 => 0x34b0bcb5,
        52 => 0x391c0cb3,
        53 => 0x4ed8aa4a,
        54 => 0x5b9cca4f,
        55 => 0x682e6ff3,
        56 => 0x748f82ee,
        57 => 0x78a5636f,
        58 => 0x84c87814,
        59 => 0x8cc70208,
        60 => 0x90befffa,
        61 => 0xa4506ceb,
        62 => 0xbef9a3f7,
        _ => 0xc67178f2,
    }
}

fn initial_word_exec(i: usize) -> (h: u32)
    requires
        i < 8,
    ensures
        h == initial_word(i as int),
{
    match i {
        0 => 0x6a09e667,
        1 => 0xbb67ae85,
        2 => 0x3c6ef372,
        3 => 0xa54ff53a,
        4 => 0x510e527f,
        5 => 0x9b05688c,
        6 => 0x1f83d9ab,
        _ => 0x5be0cd19,
    }
}

fn add32_exec(a: u32, b: u32) -> (r: u32)
    ensures
        r == add32(a, b),
{
    a.wrapping_add(b)
}

fn rotr_exec(x: u32, n: u32) -> (r: u32)
    requires
        0 < n < 32,
    ensures
        r == rotr(x, n),
{
    (x >> n) | (x << (32 - n))
}

/// Convert a nibble (0–15) to its lowercase ASCII hex character.
pub fn hex_nibble(n: u8) -> (c: u8)
    requires
        n < 16,
    ensures
        c == hex_code(n),
{
    if n <= 9 {
        48u8 + n
    } else {
        97u8 + (n - 10)
    }
}

/// A streaming SHA-256 hasher.
pub struct Sha256 {
    state: Vec<u32>,
    buf: Vec<u8>,
    buf_len: usize,
    total_bits: u64,
    /// The bytes fed so far.
    fed: Ghost<Seq<u8>>,
    /// The number of whole blocks compressed into `state`.
    blocks: Ghost<nat>,
}

impl View for Sha256 {
    type V = Seq<u8>;

    /// The bytes fed to the hasher so far.
    closed spec fn view(&self) -> Seq<u8> {
        self.fed@
    }
}

impl Sha256 {
    /// The hasher's fields agree with the bytes fed so far.
    pub closed spec fn wf(&self) -> bool {
        &&& self.state@.len() == 8
        &&& self.buf@.len() == 64
        &&& self.buf_len < 64
        &&& self.fed@.len() == 64 * self.blocks@ + self.buf_len
        &&& self.fed@.len() <= max_message_len() + 72
        &&& self.total_bits as int == self.fed@.len() * 8
        &&& self.state@ == hash_blocks(self.fed@, self.blocks@)
        &&& forall|i: int|
            0 <= i < self.buf_len ==> #[trigger] self.buf@[i] == self.fed@[64 * self.blocks@ + i]
    }

    /// Construct a new SHA-256 hasher with the standard initial state.
    pub fn new() -> (h: Self)
        ensures
            h.wf(),
            h@ == Seq::<u8>::empty(),
    {
        let mut state: Vec<u32> = Vec::new();
        let mut i: usize = 0;
        while i < 8
            invariant
                i <= 8,
                state@ == initial_state().take(i as int),
            decreases 8 - i,
        {
            state.push(initial_word_exec(i));
            assert(state@ =~= initial_state().take(i + 1));
            i = i + 1;
        }
        assert(initial_state().take(8) =~= initial_state());
        let mut buf: Vec<u8> = Vec::new();
        let mut j: usize = 0;
        while j < 64
            invariant
                j <= 64,
                buf@.len() == j,
            decreases 64 - j,
        {
            buf.push(0u8);
            j = j + 1;
        }
        Sha256 {
            state,
            buf,
            buf_len: 0,
            total_bits: 0,
            fed: Ghost(Seq::empty()),
            blocks: Ghost(0),
        }
    }

    /// Process the buffered 64-byte block with the compression function.
    fn compress_block(state: &mut Vec<u32>, block: &Vec<u8>)
        requires
            old(state)@.len() == 8,
            block@.len() == 64,
        ensures
            final(state)@ == compress(old(state)@, block@),
    {
        // Message schedule.
        let mut w: Vec<u32> = Vec::new();
        let mut i: usize = 0;
        while i < 64
            invariant
                i <= 64,
                block@.len() == 64,
                w@.len() == i,
                forall|j: int| 0 <= j < i ==> w@[j] == schedule(block@, j),
            decreases 64 - i,
        {
            if i < 16 {
                let word = ((block[4 * i] as u32) << 24u32) | ((block[4 * i + 1] as u32) << 16u32)
                    | ((block[4 * i + 2] as u32) << 8u32) | (block[4 * i + 3] as u32);
                w.push(word);
            } else {
                let w15 = w[i - 15];
                let w2 = w[i - 2];
                let s0 = rotr_exec(w15, 7) ^ rotr_exec(w15, 18) ^ (w15 >> 3u32);
                let s1 = rotr_exec(w2, 17) ^ rotr_exec(w2, 19) ^ (w2 >> 10u32);
                let word = add32_exec(add32_exec(add32_exec(w[i - 16], s0), w[i - 7]), s1);
                w.push(word);
            }
            assert(w@[i as int] == schedule(block@, i as int));
            i = i + 1;
        }

        // Rounds.
        let mut a = state[0];
        let mut b = state[1];
        let mut c = state[2];
        let mut d = state[3];
        let mut e = state[4];
        let mut f = state[5];
        let mut g = state[6];
        let mut h = state[7];
        let ghost init = state@;
        assert(seq![a, b, c, d, e, f, g, h] =~= rounds(init, block@, 0));
        let mut t: usize = 0;
        while t < 64
            invariant
                t <= 64,
                w@.len() == 64,
                forall|j: int| 0 <= j < 64 ==> w@[j] == schedule(block@, j),
                seq![a, b, c, d, e, f, g, h] == rounds(init, block@, t as int),
            decreases 64 - t,
        {
            let ghost before = seq![a, b, c, d, e, f, g, h];
            let s1 = rotr_exec(e, 6) ^ rotr_exec(e, 11) ^ rotr_exec(e, 25);
            let ch = (e & f) ^ ((!e) & g);
            let temp1 = add32_exec(
                add32_exec(add32_exec(add32_exec(h, s1), ch), round_constant_exec(t)),
                w[t],
            );
            let s0 = rotr_exec(a, 2) ^ rotr_exec(a, 13) ^ rotr_exec(a, 22);
            let maj = (a & b) ^ (a & c) ^ (b & c);
            let temp2 = add32_exec(s0, maj);
            h = g;
            g = f;
            f = e;
            e = add32_exec(d, temp1);
            d = c;
            c = b;
            b = a;
            a = add32_exec(temp1, temp2);
            assert(seq![a, b, c, d, e, f, g, h] =~= round(
                before,
                round_constant(t as int),
                schedule(block@, t as int),
            ));
            t = t + 1;
        }

        // Add the compressed chunk to the current state.
        let ghost r = rounds(init, block@, 64);
        let vals = [a, b, c, d, e, f, g, h];
        let mut k: usize = 0;
        while k < 8
            invariant
                k <= 8,
                state@.len() == 8,
                init.len() == 8,
                vals@ == r,
                forall|j: int| 0 <= j < k ==> state@[j] == add32(init[j], r[j]),
                forall|j: int| k <= j < 8 ==> state@[j] == init[j],
            decreases 8 - k,
        {
            let v = add32_exec(state[k], vals[k]);
            state.set(k, v);
            k = k + 1;
        }
        assert(state@ =~= compress(init, block@));
    }

    /// Feed bytes into the hasher, padding included.
    fn absorb(&mut self, data: &[u8])
        requires
            old(self).wf(),
            old(self)@.len() + data@.len() <= max_message_len() + 72,
        ensures
            final(self).wf(),
            final(self)@ == old(self)@ + data@,
    {
        let mut offset: usize = 0;
        while offset < data.len()
            invariant
                self.wf(),
                offset <= data@.len(),
                self@ == old(self)@ + data@.take(offset as int),
                old(self)@.len() + data@.len() <= max_message_len() + 72,
            decreases data.len() - offset,
        {
            let byte = data[offset];
            let ghost fed0 = self.fed@;
            let ghost blocks0 = self.blocks@;
            self.buf.set(self.buf_len, byte);
            self.buf_len = self.buf_len + 1;
            self.total_bits = self.total_bits + 8;
            self.fed = Ghost(fed0.push(byte));
            proof {
                lemma_hash_blocks_prefix(fed0, self.fed@, blocks0);
                assert(data@.take(offset + 1) =~= data@.take(offset as int).push(byte));
            }
            if self.buf_len == 64 {
                proof {
                    assert(self.buf@ =~= self.fed@.subrange(64 * blocks0 as int, 64 * (blocks0 + 1) as int));
                }
                Self::compress_block(&mut self.state, &self.buf);
                self.buf_len = 0;
                self.blocks = Ghost(blocks0 + 1);
            }
            offset = offset + 1;
        }
        assert(data@.take(data@.len() as int) =~= data@);
    }

    /// Feed bytes into the hasher.
    pub fn update(&mut self, data: &[u8])
        requires
            old(self).wf(),
            old(self)@.len() + data@.len() <= max_message_len(),
        ensures
            final(self).wf(),
            final(self)@ == old(self)@ + data@,
    {
        self.absorb(data);
    }

    /// Finalise the digest and return a 64-character lowercase hex string.
    pub fn finalize_hex(self) -> (hex: String)
        requires
            self.wf(),
            self@.len() <= max_message_len(),
        ensures
            hex@ == sha256_hex(self@),
            hex@.len() == 64,
    {
        let mut h = self;
        let ghost msg = h.fed@;
        let total_bits = h.total_bits;
        // Padding: append 0x80 byte.
        let one = vec![0x80u8];
        assert(one@ =~= seq![0x80u8]);
        h.absorb(one.as_slice());
        // Pad to 56 bytes mod 64 so there is room for the 8-byte length.
        let zero = vec![0u8];
        let ghost k = pad_zeros(msg.len());
        proof {
            assert(zero@ =~= seq![0u8]);
            assert(h.fed@ =~= msg.push(0x80u8) + Seq::new(0, |i: int| 0u8));
            lemma_pad_zeros(msg.len());
        }
        while h.buf_len % 64 != 56
            invariant
                h.wf(),
                h.fed@ == msg.push(0x80u8) + Seq::new((h.fed@.len() - msg.len() - 1) as nat, |i: int| 0u8),
                msg.len() + 1 <= h.fed@.len() <= msg.len() + 1 + k,
                k == pad_zeros(msg.len()),
                k < 64,
                zero@ == seq![0u8],
                (msg.len() + 1 + k) % 64 == 56,
                msg.len() <= max_message_len(),
            decreases msg.len() + 1 + k - h.fed@.len(),
        {
            let ghost z = (h.fed@.len() - msg.len() - 1) as nat;
            proof {
                lemma_len_mod(h.fed@.len(), h.blocks@, h.buf_len as nat);
                lemma_pad_step(msg.len(), z, k);
            }
            h.absorb(zero.as_slice());
            proof {
                assert(h.fed@ =~= msg.push(0x80u8) + Seq::new(z + 1, |i: int| 0u8));
            }
        }
        proof {
            let z = (h.fed@.len() - msg.len() - 1) as nat;
            lemma_len_mod(h.fed@.len(), h.blocks@, h.buf_len as nat);
            lemma_pad_step(msg.len(), z, k);
        }
        let len_bytes = vec![
            (total_bits >> 56u64) as u8,
            (total_bits >> 48u64) as u8,
            (total_bits >> 40u64) as u8,
            (total_bits >> 32u64) as u8,
            (total_bits >> 24u64) as u8,
            (total_bits >> 16u64) as u8,
            (total_bits >> 8u64) as u8,
            total_bits as u8,
        ];
        h.absorb(len_bytes.as_slice());
        proof {
            assert(len_bytes@ =~= be64((msg.len() * 8) as u64));
            assert(h.fed@ =~= padded(msg));
            lemma_len_mod(h.fed@.len(), h.blocks@, h.buf_len as nat);
            vstd::arithmetic::div_mod::lemma_fundamental_div_mod_converse(
                h.fed@.len() as int, 64, h.blocks@ as int, h.buf_len as int);
        }
        // Encode state as big-endian hex.
        let mut out = String::new();
        let mut i: usize = 0;
        proof {
            assert(h.state@.take(0) =~= Seq::<u32>::empty());
        }
        while i < 8
            invariant
                i <= 8,
                h.state@.len() == 8,
                out@ == hex_words(h.state@.take(i as int)),
            decreases 8 - i,
        {
            let word = h.state[i];
            let ghost out0 = out@;
            let b0 = (word >> 24u32) as u8;
            let b1 = (word >> 16u32) as u8;
            let b2 = (word >> 8u32) as u8;
            let b3 = word as u8;
            proof {
                lemma_nibbles(b0);
                lemma_nibbles(b1);
                lemma_nibbles(b2);
                lemma_nibbles(b3);
            }
            push_char(&mut out, hex_nibble(b0 >> 4u8) as char);
            push_char(&mut out, hex_nibble(b0 & 0xfu8) as char);
            push_char(&mut out, hex_nibble(b1 >> 4u8) as char);
            push_char(&mut out, hex_nibble(b1 & 0xfu8) as char);
            push_char(&mut out, hex_nibble(b2 >> 4u8) as char);
            push_char(&mut out, hex_nibble(b2 & 0xfu8) as char);
            push_char(&mut out, hex_nibble(b3 >> 4u8) as char);
            push_char(&mut out, hex_nibble(b3 & 0xfu8) as char);
            proof {
                assert(out@ =~= out0 + word_hex(word));
                assert(h.state@.take(i + 1).drop_last() =~= h.state@.take(i as int));
            }
            i = i + 1;
        }
        proof {
            assert(h.state@.take(8) =~= h.state@);
            lemma_hex_words_len(h.state@);
        }
        out
    }
}

proof fn lemma_nibbles(b: u8)
    ensures
        b >> 4u8 < 16,
        b & 0xfu8 < 16,
{
    assert(b >> 4u8 < 16) by (bit_vector);
    assert(b & 0xfu8 < 16) by (bit_vector);
}

/// A length written as whole blocks plus a remainder below 64.
proof fn lemma_len_mod(len: nat, blocks: nat, rem: nat)
    requires
        len == 64 * blocks + rem,
        rem < 64,
    ensures
        len % 64 == rem,
        len / 64 == blocks,
{
    vstd::arithmetic::div_mod::lemma_fundamental_div_mod_converse(len as int, 64, blocks as int, rem as int);
}

proof fn lemma_pad_zeros(len: nat)
    ensures
        pad_zeros(len) < 64,
        (len + 1 + pad_zeros(len)) % 64 == 56,
{
    let q = len / 64;
    let r = len % 64;
    vstd::arithmetic::div_mod::lemma_fundamental_div_mod(len as int, 64);
    let k = pad_zeros(len);
    if r <= 55 {
        assert(k == 55 - r);
        lemma_len_mod((len + 1 + k) as nat, q, 56);
    } else {
        assert(k == 119 - r);
        lemma_len_mod((len + 1 + k) as nat, q + 1, 56);
    }
}

/// Below the full padding, the length is not yet 56 modulo 64; at it, it is.
proof fn lemma_pad_step(len: nat, z: nat, k: nat)
    requires
        k == pad_zeros(len),
        z <= k,
    ensures
        ((len + 1 + z) % 64 == 56) <==> z == k,
{
    lemma_pad_zeros(len);
    let q = len / 64;
    let r = len % 64;
    vstd::arithmetic::div_mod::lemma_fundamental_div_mod(len as int, 64);
    if r + 1 + z < 64 {
        lemma_len_mod((len + 1 + z) as nat, q, (r + 1 + z) as nat);
    } else {
        lemma_len_mod((len + 1 + z) as nat, q + 1, (r + 1 + z - 64) as nat);
    }
    if r + 1 + k < 64 {
        lemma_len_mod((len + 1 + k) as nat, q, (r + 1 + k) as nat);
    } else {
        lemma_len_mod((len + 1 + k) as nat, q + 1, (r + 1 + k - 64) as nat);
    }
}

} // verus!
