//! A 64-bit block cipher with a 128-bit key (sixteen Feistel-style rounds over
//! two 32-bit halves), run in a chained-feedback mode over padded buffers.
use vstd::prelude::*;
use crate::buffer::{bytes_view, bytes_mut_view};
use crate::buffer::{bytes_mut_with_capacity, put_u32, freeze, bytes_mut_as_slice, bytes_slice};
use crate::wire::{
    be_word, word_bytes, lemma_bytes_round_trip, lemma_word_round_trip, append_bytes, append_zeros,
    read_u32_be,
};

verus! {

/// The golden-ratio constant that the round deltas are multiples of.
pub const GOLDEN: u32 = 0x9e37_79b9;

/// Number of rounds of the block transform.
pub const ROUNDS: usize = 16;

/// Two 32-bit halves of one 8-byte block.
pub type Block = (u32, u32);

pub open spec fn add32(x: u32, y: u32) -> u32 {
    vstd::wrapping::u32_specs::wrapping_add(x, y)
}

pub open spec fn sub32(x: u32, y: u32) -> u32 {
    vstd::wrapping::u32_specs::wrapping_sub(x, y)
}

/// The delta of round `i`: `(i + 1)` times the golden-ratio constant, wrapped.
pub open spec fn round_delta(i: nat) -> u32
    decreases i,
{
    if i == 0 {
        GOLDEN
    } else {
        add32(round_delta((i - 1) as nat), GOLDEN)
    }
}

/// The per-half mixing function of one round.
pub open spec fn mix(x: u32, ka: u32, kb: u32, delta: u32) -> u32 {
    (add32(ka, x << 4u32) ^ add32(x, delta)) ^ add32(kb, x >> 5u32)
}

pub open spec fn enc_step(v: Block, k: Seq<u32>, i: nat) -> Block {
    let x = add32(v.0, mix(v.1, k[0], k[1], round_delta(i)));
    let y = add32(v.1, mix(x, k[2], k[3], round_delta(i)));
    (x, y)
}

pub open spec fn dec_step(v: Block, k: Seq<u32>, i: nat) -> Block {
    let y = sub32(v.1, mix(v.0, k[2], k[3], round_delta(i)));
    let x = sub32(v.0, mix(y, k[0], k[1], round_delta(i)));
    (x, y)
}

/// The first `n` rounds applied to `v`.
pub open spec fn enc_rounds(v: Block, k: Seq<u32>, n: nat) -> Block
    decreases n,
{
    if n == 0 {
        v
    } else {
        enc_step(enc_rounds(v, k, (n - 1) as nat), k, (n - 1) as nat)
    }
}

/// Rounds `n - 1` down to `0` undone on `v`.
pub open spec fn dec_rounds(v: Block, k: Seq<u32>, n: nat) -> Block
    decreases n,
{
    if n == 0 {
        v
    } else {
        dec_rounds(dec_step(v, k, (n - 1) as nat), k, (n - 1) as nat)
    }
}

pub open spec fn encipher_spec(v: Block, k: Seq<u32>) -> Block {
    enc_rounds(v, k, ROUNDS as nat)
}

pub open spec fn decipher_spec(v: Block, k: Seq<u32>) -> Block {
    dec_rounds(v, k, ROUNDS as nat)
}

pub open spec fn xor_block(a: Block, b: Block) -> Block {
    (a.0 ^ b.0, a.1 ^ b.1)
}

/// The feedback registers of the encrypting direction after `j` blocks:
/// the last ciphertext block and the last pre-transform block.
pub open spec fn enc_chain(k: Seq<u32>, p: Seq<Block>, j: nat) -> (Block, Block)
    decreases j,
{
    if j == 0 {
        ((0, 0), (0, 0))
    } else {
        let (r, t) = enc_chain(k, p, (j - 1) as nat);
        let b = xor_block(p[j - 1], r);
        (xor_block(encipher_spec(b, k), t), b)
    }
}

/// The feedback registers of the decrypting direction after `j` blocks:
/// the last block transform output and the last ciphertext block.
pub open spec fn dec_chain(k: Seq<u32>, c: Seq<Block>, j: nat) -> (Block, Block)
    decreases j,
{
    if j == 0 {
        ((0, 0), (0, 0))
    } else {
        let (x, t) = dec_chain(k, c, (j - 1) as nat);
        (decipher_spec(xor_block(c[j - 1], x), k), c[j - 1])
    }
}

pub open spec fn chain_encrypt(k: Seq<u32>, p: Seq<Block>) -> Seq<Block> {
    Seq::new(p.len(), |j: int| enc_chain(k, p, (j + 1) as nat).0)
}

pub open spec fn chain_decrypt(k: Seq<u32>, c: Seq<Block>) -> Seq<Block> {
    Seq::new(
        c.len(),
        |j: int| xor_block(dec_chain(k, c, (j + 1) as nat).0, dec_chain(k, c, j as nat).1),
    )
}

/// The blocks held by a buffer whose length is a multiple of 8.
pub open spec fn blocks_of(s: Seq<u8>) -> Seq<Block> {
    Seq::new(s.len() / 8, |j: int| (be_word(s, 8 * j), be_word(s, 8 * j + 4)))
}

/// The bytes of a sequence of blocks, each half big-endian.
pub open spec fn flatten(bs: Seq<Block>) -> Seq<u8>
    decreases bs.len(),
{
    if bs.len() == 0 {
        Seq::empty()
    } else {
        flatten(bs.drop_last()) + word_bytes(bs.last().0) + word_bytes(bs.last().1)
    }
}

/// Number of zero bytes that pad a plaintext of `len` bytes: `(6 - len) mod 8 + 2`.
pub open spec fn pad_len(len: nat) -> nat {
    ((6 - len) % 8 + 2) as nat
}

/// The leading byte of a padded buffer: top five bits set, `pad - 2` below.
pub open spec fn pad_header(pad: nat) -> u8 {
    0xF8u8 | ((pad - 2) as u8)
}

/// The buffer that gets encrypted: header byte, `pad` zeros, the data, 7 zeros.
pub open spec fn padded(d: Seq<u8>) -> Seq<u8> {
    seq![pad_header(pad_len(d.len()))] + Seq::new(pad_len(d.len()), |i: int| 0u8) + d + Seq::new(
        7,
        |i: int| 0u8,
    )
}

/// What `Tea::encrypt` returns for key `k` and data `d`.
pub open spec fn encrypt_spec(k: Seq<u32>, d: Seq<u8>) -> Seq<u8> {
    flatten(chain_encrypt(k, blocks_of(padded(d))))
}

/// The whole buffer recovered from ciphertext `c`, before the padding is stripped.
pub open spec fn dechained(k: Seq<u32>, c: Seq<u8>) -> Seq<u8> {
    flatten(chain_decrypt(k, blocks_of(c)))
}

/// How many leading bytes the header byte `h` says to strip.
pub open spec fn header_skip(h: u8) -> nat {
    ((h & 7u8) + 3) as nat
}

/// Whether `c` is rejected by `Tea::decrypt`: its length is not a multiple
/// of 8, it is too short for the padding its header announces, or the
/// recovered buffer is not laid out as encryption lays it out.
pub open spec fn decrypt_fails(k: Seq<u32>, c: Seq<u8>) -> bool {
    c.len() % 8 != 0 || c.len() < 7 + header_skip(dechained(k, c)[0]) || !padding_valid(
        dechained(k, c),
    )
}

/// Whether a recovered buffer is laid out as encryption lays it out: the
/// header byte carries the `0xF8` marker, and the pad bytes after it and the
/// seven trailing bytes are zero.
pub open spec fn padding_valid(p: Seq<u8>) -> bool {
    &&& p[0] & 0xF8u8 == 0xF8u8
    &&& forall|i: int| 1 <= i < header_skip(p[0]) ==> p[i] == 0
    &&& forall|i: int| p.len() - 7 <= i < p.len() ==> p[i] == 0
}

/// What `Tea::decrypt` returns on success.
pub open spec fn decrypt_spec(k: Seq<u32>, c: Seq<u8>) -> Seq<u8> {
    dechained(k, c).subrange(header_skip(dechained(k, c)[0]) as int, c.len() - 7)
}

/// The cipher, holding its 128-bit key as four 32-bit words.
pub struct Tea {
    key: [u32; 4],
}

/// The ciphertext could not be decrypted: its length is not a multiple of 8,
/// or it is too short for the padding its header byte announces.
#[derive(Debug, Clone, Copy, PartialEq, Eq, Structural)]
pub struct DecryptError;

impl DecryptError {
    /// A description of the error.
    pub fn message(&self) -> (r: &'static str)
        ensures
            r@ == "Invalid encrypted data"@,
    {
        "Invalid encrypted data"
    }
}

fn calc(x: u32, v0: u32, v1: u32, delta: u32) -> (r: u32)
    ensures
        r == mix(x, v0, v1, delta),
{
    (v0.wrapping_add(x << 4u32) ^ x.wrapping_add(delta)) ^ v1.wrapping_add(x >> 5u32)
}

fn round_deltas() -> (r: Vec<u32>)
    ensures
        r@.len() == ROUNDS,
        forall|i: int| 0 <= i < ROUNDS ==> r@[i] == round_delta(i as nat),
{
    let mut r: Vec<u32> = Vec::new();
    let mut d: u32 = GOLDEN;
    let mut i: usize = 0;
    while i < ROUNDS
        invariant
            i <= ROUNDS,
            r@.len() == i,
            d == round_delta(i as nat),
            forall|j: int| 0 <= j < i ==> r@[j] == round_delta(j as nat),
        decreases ROUNDS - i,
    {
        r.push(d);
        d = d.wrapping_add(GOLDEN);
        i = i + 1;
    }
    r
}

fn encipher(v: Block, k: &[u32; 4], deltas: &Vec<u32>) -> (r: Block)
    requires
        deltas@.len() == ROUNDS,
        forall|i: int| 0 <= i < ROUNDS ==> deltas@[i] == round_delta(i as nat),
    ensures
        r == encipher_spec(v, k@),
{
    let (mut x, mut y) = v;
    let mut i: usize = 0;
    while i < ROUNDS
        invariant
            i <= ROUNDS,
            deltas@.len() == ROUNDS,
            forall|j: int| 0 <= j < ROUNDS ==> deltas@[j] == round_delta(j as nat),
            (x, y) == enc_rounds(v, k@, i as nat),
        decreases ROUNDS - i,
    {
        let delta = deltas[i];
        let a = calc(y, k[0], k[1], delta);
        x = x.wrapping_add(a);
        let b = calc(x, k[2], k[3], delta);
        y = y.wrapping_add(b);
        i = i + 1;
    }
    (x, y)
}

fn decipher(v: Block, k: &[u32; 4], deltas: &Vec<u32>) -> (r: Block)
    requires
        deltas@.len() == ROUNDS,
        forall|i: int| 0 <= i < ROUNDS ==> deltas@[i] == round_delta(i as nat),
    ensures
        r == decipher_spec(v, k@),
{
    let (mut x, mut y) = v;
    let mut i: usize = ROUNDS;
    while i > 0
        invariant
            i <= ROUNDS,
            deltas@.len() == ROUNDS,
            forall|j: int| 0 <= j < ROUNDS ==> deltas@[j] == round_delta(j as nat),
            dec_rounds(v, k@, ROUNDS as nat) == dec_rounds((x, y), k@, i as nat),
        decreases i,
    {
        let delta = deltas[i - 1];
        let a = calc(x, k[2], k[3], delta);
        y = y.wrapping_sub(a);
        let b = calc(y, k[0], k[1], delta);
        x = x.wrapping_sub(b);
        i = i - 1;
    }
    (x, y)
}

impl View for Tea {
    type V = Seq<u32>;

    closed spec fn view(&self) -> Seq<u32> {
        self.key@
    }
}

fn pad(data: &[u8]) -> (p: Vec<u8>)
    requires
        data@.len() + 17 <= usize::MAX,
    ensures
        p@ == padded(data@),
{
    let len = data.len();
    let rem = len % 8;
    let n: usize = if rem <= 6 {
        8 - rem
    } else {
        16 - rem
    };
    proof {
        lemma_pad_len(len as nat);
    }
    let mut p: Vec<u8> = Vec::with_capacity(len + n + 8);
    p.push(0xF8u8 | ((n - 2) as u8));
    append_zeros(&mut p, n);
    append_bytes(&mut p, data);
    append_zeros(&mut p, 7);
    assert(p@ =~= padded(data@));
    p
}

impl Tea {
    /// The cipher for a 128-bit key given as four 32-bit words.
    pub fn from_key(key: [u32; 4]) -> (r: Self)
        ensures
            r@ == key@,
    {
        Tea { key }
    }

    /// The key, as four 32-bit words.
    pub fn key(&self) -> (r: &[u32; 4])
        ensures
            r@ == self@,
    {
        &self.key
    }

    /// Pads `data`, then encrypts the padded buffer block by block with feedback.
    pub fn encrypt(&self, data: &[u8]) -> (r: bytes::Bytes)
        requires
            data@.len() + 17 <= usize::MAX,
        ensures
            bytes_view(r) == encrypt_spec(self@, data@),
    {
        let p = pad(data);
        proof {
            lemma_padded_len(data@);
        }
        let nblocks = p.len() / 8;
        let deltas = round_deltas();
        let mut out = bytes_mut_with_capacity(p.len());
        let mut r: Block = (0, 0);
        let mut t: Block = (0, 0);
        let ghost blocks = blocks_of(p@);
        let ghost cs = chain_encrypt(self@, blocks);
        let mut j: usize = 0;
        while j < nblocks
            invariant
                p@ == padded(data@),
                p@.len() == 8 * nblocks,
                blocks == blocks_of(p@),
                blocks.len() == nblocks,
                cs == chain_encrypt(self@, blocks),
                j <= nblocks,
                deltas@.len() == ROUNDS,
                forall|i: int| 0 <= i < ROUNDS ==> deltas@[i] == round_delta(i as nat),
                (r, t) == enc_chain(self@, blocks, j as nat),
                bytes_mut_view(out) == flatten(cs.subrange(0, j as int)),
            decreases nblocks - j,
        {
            assert(8 * j + 8 <= 8 * nblocks) by (nonlinear_arith)
                requires
                    j < nblocks,
            ;
            assert(8 * j + 8 <= p@.len());
            let a1 = read_u32_be(p.as_slice(), 8 * j);
            let a2 = read_u32_be(p.as_slice(), 8 * j + 4);
            let b: Block = (a1 ^ r.0, a2 ^ r.1);
            let (x, y) = encipher(b, &self.key, &deltas);
            let c: Block = (x ^ t.0, y ^ t.1);
            put_u32(&mut out, c.0);
            put_u32(&mut out, c.1);
            r = c;
            t = b;
            j = j + 1;
            assert(cs.subrange(0, j as int).drop_last() =~= cs.subrange(0, j - 1));
        }
        assert(cs.subrange(0, nblocks as int) =~= cs);
        freeze(out)
    }

    /// Undoes the chaining and the block transform, then strips the padding.
    pub fn decrypt(&self, encrypted: &[u8]) -> (r: Result<bytes::Bytes, DecryptError>)
        ensures
            r is Err <==> decrypt_fails(self@, encrypted@),
            r matches Ok(b) ==> bytes_view(b) == decrypt_spec(self@, encrypted@),
    {
        let len = encrypted.len();
        if len % 8 != 0 {
            return Err(DecryptError);
        }
        if len == 0 {
            return Err(DecryptError);
        }
        let nblocks = len / 8;
        let deltas = round_deltas();
        let mut out = bytes_mut_with_capacity(len);
        let mut x: Block = (0, 0);
        let mut t: Block = (0, 0);
        let ghost blocks = blocks_of(encrypted@);
        let ghost ps = chain_decrypt(self@, blocks);
        let mut j: usize = 0;
        while j < nblocks
            invariant
                len == encrypted@.len(),
                len == 8 * nblocks,
                blocks == blocks_of(encrypted@),
                blocks.len() == nblocks,
                ps == chain_decrypt(self@, blocks),
                j <= nblocks,
                deltas@.len() == ROUNDS,
                forall|i: int| 0 <= i < ROUNDS ==> deltas@[i] == round_delta(i as nat),
                (x, t) == dec_chain(self@, blocks, j as nat),
                bytes_mut_view(out) == flatten(ps.subrange(0, j as int)),
            decreases nblocks - j,
        {
            assert(8 * j + 8 <= 8 * nblocks) by (nonlinear_arith)
                requires
                    j < nblocks,
            ;
            let a1 = read_u32_be(encrypted, 8 * j);
            let a2 = read_u32_be(encrypted, 8 * j + 4);
            let b: Block = (a1 ^ x.0, a2 ^ x.1);
            let d = decipher(b, &self.key, &deltas);
            let plain: Block = (d.0 ^ t.0, d.1 ^ t.1);
            put_u32(&mut out, plain.0);
            put_u32(&mut out, plain.1);
            x = d;
            t = (a1, a2);
            j = j + 1;
            assert(ps.subrange(0, j as int).drop_last() =~= ps.subrange(0, j - 1));
        }
        assert(ps.subrange(0, nblocks as int) =~= ps);
        proof {
            lemma_flatten_len(ps);
        }
        let plain = bytes_mut_as_slice(&out);
        assert(plain@ == dechained(self@, encrypted@));
        let head = plain[0];
        let start = ((head & 7u8) as usize) + 3;
        if len < 7 + start {
            return Err(DecryptError);
        }
        if head & 0xF8u8 != 0xF8u8 {
            return Err(DecryptError);
        }
        let mut i: usize = 1;
        while i < start
            invariant
                1 <= i <= start,
                start + 7 <= len,
                plain@.len() == len,
                plain@ == dechained(self@, encrypted@),
                start == header_skip(plain@[0]),
                forall|j: int| 1 <= j < i ==> plain@[j] == 0,
            decreases start - i,
        {
            if plain[i] != 0 {
                return Err(DecryptError);
            }
            i = i + 1;
        }
        let mut i: usize = len - 7;
        while i < len
            invariant
                7 <= len,
                len - 7 <= i <= len,
                plain@.len() == len,
                plain@ == dechained(self@, encrypted@),
                forall|j: int| len - 7 <= j < i ==> plain@[j] == 0,
            decreases len - i,
        {
            if plain[i] != 0 {
                return Err(DecryptError);
            }
            i = i + 1;
        }
        let full = freeze(out);
        Ok(bytes_slice(&full, start, len - 7))
    }
}

proof fn lemma_pad_len(len: nat)
    ensures
        pad_len(len) == if len % 8 <= 6 { 8 - len % 8 } else { 16 - len % 8 },
        2 <= pad_len(len) <= 9,
{
    assert((6 - len) % 8 == if len % 8 <= 6 { 6 - len % 8 } else { 14 - len % 8 }) by (nonlinear_arith);
}

proof fn lemma_padded_len(d: Seq<u8>)
    ensures
        padded(d).len() % 8 == 0,
        padded(d).len() == d.len() + pad_len(d.len()) + 8,
{
    lemma_pad_len(d.len());
    assert((d.len() + pad_len(d.len()) + 8) % 8 == 0) by (nonlinear_arith)
        requires
            pad_len(d.len()) == if d.len() % 8 <= 6 { 8 - d.len() % 8 } else { 16 - d.len() % 8 },
    ;
}

/// A buffer of blocks has 8 bytes per block.
pub proof fn lemma_flatten_len(bs: Seq<Block>)
    ensures
        flatten(bs).len() == 8 * bs.len(),
    decreases bs.len(),
{
    if bs.len() > 0 {
        lemma_flatten_len(bs.drop_last());
    }
}

proof fn lemma_step_inverse(v: Block, k: Seq<u32>, i: nat)
    ensures
        dec_step(enc_step(v, k, i), k, i) == v,
        enc_step(dec_step(v, k, i), k, i) == v,
{
}

proof fn lemma_rounds_inverse(v: Block, k: Seq<u32>, n: nat)
    ensures
        dec_rounds(enc_rounds(v, k, n), k, n) == v,
        enc_rounds(dec_rounds(v, k, n), k, n) == v,
    decreases n,
{
    if n > 0 {
        let m = (n - 1) as nat;
        lemma_rounds_inverse(v, k, m);
        lemma_step_inverse(enc_rounds(v, k, m), k, m);
        lemma_rounds_inverse(dec_step(v, k, m), k, m);
        lemma_step_inverse(v, k, m);
    }
}

/// The block transform is undone by its inverse, and the inverse is one to one.
pub proof fn lemma_block_inverse(v: Block, w: Block, k: Seq<u32>)
    ensures
        decipher_spec(encipher_spec(v, k), k) == v,
        decipher_spec(v, k) == decipher_spec(w, k) ==> v == w,
{
    lemma_rounds_inverse(v, k, ROUNDS as nat);
    lemma_rounds_inverse(w, k, ROUNDS as nat);
}

proof fn lemma_xor_cancel(a: u32, b: u32)
    ensures
        (a ^ b) ^ b == a,
{
    assert((a ^ b) ^ b == a) by (bit_vector);
}

proof fn lemma_xor_block_cancel(a: Block, b: Block)
    ensures
        xor_block(xor_block(a, b), b) == a,
{
    lemma_xor_cancel(a.0, b.0);
    lemma_xor_cancel(a.1, b.1);
}

proof fn lemma_chain_registers(k: Seq<u32>, p: Seq<Block>, j: nat)
    requires
        j <= p.len(),
    ensures
        dec_chain(k, chain_encrypt(k, p), j) == (enc_chain(k, p, j).1, enc_chain(k, p, j).0),
    decreases j,
{
    if j > 0 {
        let m = (j - 1) as nat;
        lemma_chain_registers(k, p, m);
        let (r, t) = enc_chain(k, p, m);
        let b = xor_block(p[m as int], r);
        lemma_xor_block_cancel(encipher_spec(b, k), t);
        lemma_block_inverse(b, b, k);
    }
}

/// Decrypting the chain of an encrypted chain gives the plaintext blocks.
pub proof fn lemma_chain_round_trip(k: Seq<u32>, p: Seq<Block>)
    ensures
        chain_decrypt(k, chain_encrypt(k, p)) == p,
{
    let c = chain_encrypt(k, p);
    assert forall|j: int| 0 <= j < p.len() implies #[trigger] chain_decrypt(k, c)[j] == p[j] by {
        lemma_chain_registers(k, p, j as nat);
        lemma_chain_registers(k, p, (j + 1) as nat);
        let (r, t) = enc_chain(k, p, j as nat);
        lemma_xor_block_cancel(p[j], r);
    }
    assert(chain_decrypt(k, c) =~= p);
}

proof fn lemma_flatten_block(bs: Seq<Block>, j: int)
    requires
        0 <= j < bs.len(),
    ensures
        flatten(bs).subrange(8 * j, 8 * j + 8) == word_bytes(bs[j].0) + word_bytes(bs[j].1),
    decreases bs.len(),
{
    lemma_flatten_len(bs);
    lemma_flatten_len(bs.drop_last());
    if j < bs.len() - 1 {
        lemma_flatten_block(bs.drop_last(), j);
        assert(flatten(bs).subrange(8 * j, 8 * j + 8) =~= flatten(bs.drop_last()).subrange(
            8 * j,
            8 * j + 8,
        ));
    } else {
        assert(flatten(bs).subrange(8 * j, 8 * j + 8) =~= word_bytes(bs[j].0) + word_bytes(
            bs[j].1,
        ));
    }
}

proof fn lemma_be_word_agree(s: Seq<u8>, i: int, t: Seq<u8>, j: int)
    requires
        0 <= i,
        i + 4 <= s.len(),
        0 <= j,
        j + 4 <= t.len(),
        s[i] == t[j],
        s[i + 1] == t[j + 1],
        s[i + 2] == t[j + 2],
        s[i + 3] == t[j + 3],
    ensures
        be_word(s, i) == be_word(t, j),
{
}

/// Reading blocks back from their bytes gives the blocks.
pub proof fn lemma_blocks_of_flatten(bs: Seq<Block>)
    ensures
        blocks_of(flatten(bs)) == bs,
{
    let s = flatten(bs);
    lemma_flatten_len(bs);
    assert(s.len() / 8 == bs.len());
    assert forall|j: int| 0 <= j < bs.len() implies #[trigger] blocks_of(s)[j] == bs[j] by {
        lemma_flatten_block(bs, j);
        lemma_word_round_trip(bs[j].0);
        lemma_word_round_trip(bs[j].1);
        let w0 = word_bytes(bs[j].0);
        let w1 = word_bytes(bs[j].1);
        let u = w0 + w1;
        assert forall|m: int| 0 <= m < 8 implies s[8 * j + m] == u[m] by {
            assert(s.subrange(8 * j, 8 * j + 8)[m] == s[8 * j + m]);
        }
        assert(s[8 * j + 0] == u[0] && s[8 * j + 1] == u[1] && s[8 * j + 2] == u[2] && s[8 * j + 3]
            == u[3]);
        assert(s[8 * j + 4] == u[4] && s[8 * j + 5] == u[5] && s[8 * j + 6] == u[6] && s[8 * j + 7]
            == u[7]);
        assert(u[0] == w0[0] && u[1] == w0[1] && u[2] == w0[2] && u[3] == w0[3]);
        assert(u[4] == w1[0] && u[5] == w1[1] && u[6] == w1[2] && u[7] == w1[3]);
        lemma_be_word_agree(s, 8 * j, w0, 0);
        lemma_be_word_agree(s, 8 * j + 4, w1, 0);
    }
    assert(blocks_of(s) =~= bs);
}

proof fn lemma_flatten_blocks_of_n(s: Seq<u8>, m: nat)
    requires
        s.len() == 8 * m,
    ensures
        flatten(blocks_of(s)) == s,
    decreases m,
{
    let bs = blocks_of(s);
    assert(s.len() / 8 == m);
    if m > 0 {
        let s2 = s.subrange(0, s.len() - 8);
        assert(s2.len() / 8 == m - 1);
        assert(bs.drop_last() =~= blocks_of(s2));
        lemma_flatten_blocks_of_n(s2, (m - 1) as nat);
        lemma_bytes_round_trip(s, s.len() - 8);
        lemma_bytes_round_trip(s, s.len() - 4);
        assert(s =~= s2 + s.subrange(s.len() - 8, s.len() - 4) + s.subrange(s.len() - 4, s.len() as int));
    } else {
        assert(s =~= Seq::<u8>::empty());
    }
}

/// A buffer whose length is a multiple of 8 is the bytes of its blocks.
pub proof fn lemma_flatten_blocks_of(s: Seq<u8>)
    requires
        s.len() % 8 == 0,
    ensures
        flatten(blocks_of(s)) == s,
{
    lemma_flatten_blocks_of_n(s, s.len() / 8);
}

proof fn lemma_dechained_encrypt(k: Seq<u32>, d: Seq<u8>)
    ensures
        dechained(k, encrypt_spec(k, d)) == padded(d),
        encrypt_spec(k, d).len() == padded(d).len(),
{
    let p = padded(d);
    lemma_padded_len(d);
    lemma_flatten_blocks_of(p);
    let ps = blocks_of(p);
    let cs = chain_encrypt(k, ps);
    lemma_blocks_of_flatten(cs);
    lemma_chain_round_trip(k, ps);
    lemma_flatten_len(cs);
    lemma_flatten_len(ps);
}

/// Encryption adds the header byte, the padding and seven trailing bytes.
pub proof fn lemma_encrypt_len(k: Seq<u32>, d: Seq<u8>)
    ensures
        encrypt_spec(k, d).len() == d.len() + pad_len(d.len()) + 8,
        encrypt_spec(k, d).len() % 8 == 0,
        2 <= pad_len(d.len()) <= 9,
{
    lemma_dechained_encrypt(k, d);
    lemma_padded_len(d);
    lemma_pad_len(d.len());
}

/// Decrypting with a key what was encrypted with that key gives back the
/// data, whatever the data and the key.
pub proof fn lemma_cipher_round_trip(k: Seq<u32>, d: Seq<u8>)
    ensures
        !decrypt_fails(k, encrypt_spec(k, d)),
        decrypt_spec(k, encrypt_spec(k, d)) == d,
{
    let p = padded(d);
    let n = pad_len(d.len());
    lemma_padded_len(d);
    lemma_pad_len(d.len());
    lemma_dechained_encrypt(k, d);
    let h = (n - 2) as u8;
    assert((0xF8u8 | h) & 7u8 == h) by (bit_vector)
        requires
            h < 8,
    ;
    assert(p[0] == pad_header(n));
    assert(header_skip(p[0]) == n + 1);
    assert((0xF8u8 | h) & 0xF8u8 == 0xF8u8) by (bit_vector);
    assert forall|i: int| 1 <= i < header_skip(p[0]) implies p[i] == 0 by {}
    assert forall|i: int| p.len() - 7 <= i < p.len() implies p[i] == 0 by {}
    assert(padding_valid(p));
    assert(p.subrange(n + 1 as int, p.len() - 7) =~= d);
}

proof fn lemma_header_bits(h: u8, x: u8)
    requires
        x < 8,
        h & 7u8 == x,
        h & 0xF8u8 == 0xF8u8,
    ensures
        h == 0xF8u8 | x,
{
    assert(h == 0xF8u8 | x) by (bit_vector)
        requires
            x < 8,
            h & 7u8 == x,
            h & 0xF8u8 == 0xF8u8,
    ;
}

/// Flipping any single bit of a ciphertext never lets it decrypt back to the
/// data it was made from: decryption fails or gives something else.
pub proof fn lemma_tamper_detected(k: Seq<u32>, d: Seq<u8>, i: int, bit: u8)
    requires
        0 <= i < encrypt_spec(k, d).len(),
        bit < 8,
    ensures
        ({
            let c = encrypt_spec(k, d);
            let t = c.update(i, c[i] ^ (1u8 << bit));
            decrypt_fails(k, t) || decrypt_spec(k, t) != d
        }),
{
    let c = encrypt_spec(k, d);
    let t = c.update(i, c[i] ^ (1u8 << bit));
    let p = padded(d);
    let n = pad_len(d.len());
    lemma_encrypt_len(k, d);
    lemma_dechained_encrypt(k, d);
    lemma_padded_len(d);
    lemma_tamper_changes_dechained(k, c, i, bit);
    let q = dechained(k, t);
    if !decrypt_fails(k, t) && decrypt_spec(k, t) == d {
        let l = c.len() as int;
        assert(t.len() == l);
        assert(blocks_of(t).len() == l / 8);
        lemma_flatten_len(chain_decrypt(k, blocks_of(t)));
        assert(8 * (l / 8) == l) by (nonlinear_arith)
            requires
                l % 8 == 0,
        ;
        assert(q.len() == l);
        let sk = header_skip(q[0]) as int;
        assert(q.subrange(sk, l - 7).len() == d.len());
        assert(sk == n + 1);
        let x = (n - 2) as u8;
        assert(q[0] & 7u8 == x);
        lemma_header_bits(q[0], x);
        assert(q[0] == p[0]);
        assert forall|j: int| 0 <= j < l implies q[j] == p[j] by {
            if 1 <= j < sk {
            } else if sk <= j < l - 7 {
                assert(q[j] == q.subrange(sk, l - 7)[j - sk]);
            }
        }
        assert(q =~= p);
    }
}
proof fn lemma_dec_chain_prefix(k: Seq<u32>, c: Seq<Block>, t: Seq<Block>, j: nat)
    requires
        j <= c.len(),
        j <= t.len(),
        forall|m: int| 0 <= m < j ==> c[m] == t[m],
    ensures
        dec_chain(k, c, j) == dec_chain(k, t, j),
    decreases j,
{
    if j > 0 {
        lemma_dec_chain_prefix(k, c, t, (j - 1) as nat);
    }
}

proof fn lemma_xor_injective(a: u32, b: u32, x: u32)
    ensures
        a != b ==> (a ^ x) != (b ^ x),
{
    assert(a != b ==> (a ^ x) != (b ^ x)) by (bit_vector);
}

proof fn lemma_flip_changes(b: u8, bit: u8)
    requires
        bit < 8,
    ensures
        b ^ (1u8 << bit) != b,
{
    assert(b ^ (1u8 << bit) != b) by (bit_vector)
        requires
            bit < 8,
    ;
}

/// Flipping one bit of a ciphertext changes the buffer that decryption
/// recovers before it strips the padding: the 8-byte block that holds the
/// flipped bit comes out different.
pub proof fn lemma_tamper_changes_dechained(k: Seq<u32>, c: Seq<u8>, i: int, bit: u8)
    requires
        c.len() % 8 == 0,
        0 <= i < c.len(),
        bit < 8,
    ensures
        dechained(k, c.update(i, c[i] ^ (1u8 << bit))) != dechained(k, c),
{
    let t = c.update(i, c[i] ^ (1u8 << bit));
    let cb = blocks_of(c);
    let tb = blocks_of(t);
    let j0 = i / 8;
    lemma_flip_changes(c[i], bit);
    assert forall|m: int| 0 <= m < j0 implies cb[m] == tb[m] by {
        assert(8 * m + 8 <= 8 * j0) by (nonlinear_arith)
            requires
                m < j0,
        ;
        assert forall|q: int| 8 * m <= q < 8 * m + 8 implies c[q] == t[q] by {}
    }
    lemma_dec_chain_prefix(k, cb, tb, j0 as nat);
    let w = 8 * j0;
    assert(w <= i < w + 8);
    assert(c.len() / 8 > j0);
    assert(w + 8 <= c.len()) by (nonlinear_arith)
        requires
            c.len() % 8 == 0,
            j0 < c.len() / 8,
            w == 8 * j0,
    ;
    let p = if i < w + 4 { w } else { w + 4 };
    lemma_bytes_round_trip(c, p);
    lemma_bytes_round_trip(t, p);
    assert(t.subrange(p, p + 4)[i - p] != c.subrange(p, p + 4)[i - p]);
    assert(be_word(t, p) != be_word(c, p));
    assert(tb[j0] != cb[j0]);
    let (x, r) = dec_chain(k, cb, j0 as nat);
    let ub = xor_block(tb[j0], x);
    let uc = xor_block(cb[j0], x);
    lemma_xor_injective(tb[j0].0, cb[j0].0, x.0);
    lemma_xor_injective(tb[j0].1, cb[j0].1, x.1);
    assert(ub != uc);
    lemma_block_inverse(ub, uc, k);
    let db = decipher_spec(ub, k);
    let dc = decipher_spec(uc, k);
    assert(db != dc);
    lemma_xor_injective(db.0, dc.0, r.0);
    lemma_xor_injective(db.1, dc.1, r.1);
    let pt = chain_decrypt(k, tb);
    let pc = chain_decrypt(k, cb);
    assert(pt[j0] == xor_block(db, r));
    assert(pc[j0] == xor_block(dc, r));
    assert(pt[j0] != pc[j0]);
    lemma_blocks_of_flatten(pt);
    lemma_blocks_of_flatten(pc);
}

} // verus!
