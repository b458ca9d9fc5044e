//! AES-128 in 8-bit cipher feedback mode: a stream cipher that turns one
//! byte at a time, so that a stream may be cut anywhere.

use vstd::prelude::*;
use aes::cipher::generic_array::GenericArray;
use aes::cipher::{BlockEncrypt, NewBlockCipher};
use aes::Aes128;

verus! {

/// Bytes in an AES-128 key, and in a block.
pub const BLOCK_LENGTH: usize = 16;

/// The AES-128 encryption of one 16-byte block under a 16-byte key.
pub uninterp spec fn aes128_block(key: Seq<u8>, block: Seq<u8>) -> Seq<u8>;

/// `Aes128::new` and `BlockEncrypt::encrypt_block` of the crate `aes`: the
/// encryption of one block, which is a block again. The crate panics on a
/// key or a block of another length.
#[verifier::external_body]
fn aes128_encrypt_block(key: &[u8], block: &[u8]) -> (out: Vec<u8>)
    requires
        key@.len() == BLOCK_LENGTH,
        block@.len() == BLOCK_LENGTH,
    ensures
        out@ == aes128_block(key@, block@),
        out@.len() == BLOCK_LENGTH,
{
    let cipher = Aes128::new(GenericArray::from_slice(key));
    let mut out = GenericArray::clone_from_slice(block);
    cipher.encrypt_block(&mut out);
    out.to_vec()
}

/// The byte that hides or uncovers the next byte of the stream: the first
/// byte of the encrypted shift register.
pub open spec fn keystream_byte(key: Seq<u8>, register: Seq<u8>) -> u8 {
    aes128_block(key, register)[0]
}

/// The shift register after the ciphertext byte `c` went through.
pub open spec fn shifted(register: Seq<u8>, c: u8) -> Seq<u8> {
    register.skip(1).push(c)
}

/// The ciphertext of `data` under a cipher whose shift register holds
/// `register`.
pub open spec fn cfb8_encrypted(key: Seq<u8>, register: Seq<u8>, data: Seq<u8>) -> Seq<u8>
    decreases data.len(),
{
    if data.len() == 0 {
        Seq::empty()
    } else {
        let c = data[0] ^ keystream_byte(key, register);
        seq![c] + cfb8_encrypted(key, shifted(register, c), data.skip(1))
    }
}

/// The plaintext of `data` under a cipher whose shift register holds
/// `register`.
pub open spec fn cfb8_decrypted(key: Seq<u8>, register: Seq<u8>, data: Seq<u8>) -> Seq<u8>
    decreases data.len(),
{
    if data.len() == 0 {
        Seq::empty()
    } else {
        let p = data[0] ^ keystream_byte(key, register);
        seq![p] + cfb8_decrypted(key, shifted(register, data[0]), data.skip(1))
    }
}

/// The shift register after the ciphertext `cipher` went through.
pub open spec fn register_after(register: Seq<u8>, cipher: Seq<u8>) -> Seq<u8>
    decreases cipher.len(),
{
    if cipher.len() == 0 {
        register
    } else {
        register_after(shifted(register, cipher[0]), cipher.skip(1))
    }
}

/// Decrypting what was encrypted, from the same register, gives the
/// plaintext back.
pub proof fn lemma_decrypt_encrypt(key: Seq<u8>, register: Seq<u8>, data: Seq<u8>)
    ensures
        cfb8_decrypted(key, register, cfb8_encrypted(key, register, data)) == data,
    decreases data.len(),
{
    let cipher = cfb8_encrypted(key, register, data);
    if data.len() > 0 {
        let k = keystream_byte(key, register);
        let c = data[0] ^ k;
        let tail = cfb8_encrypted(key, shifted(register, c), data.skip(1));
        assert(cipher[0] == c);
        assert(cipher.skip(1) =~= tail);
        let d = data[0];
        assert(c ^ k == d) by (bit_vector)
            requires
                c == d ^ k,
        ;
        lemma_decrypt_encrypt(key, shifted(register, c), data.skip(1));
        assert(cfb8_decrypted(key, register, cipher) =~= data);
    } else {
        assert(cfb8_decrypted(key, register, cipher) =~= data);
    }
}

/// A stream may be encrypted in pieces: the second piece goes on from the
/// register that the first one left.
pub proof fn lemma_encrypt_split(key: Seq<u8>, register: Seq<u8>, a: Seq<u8>, b: Seq<u8>)
    ensures
        cfb8_encrypted(key, register, a + b) == cfb8_encrypted(key, register, a) + cfb8_encrypted(
            key,
            register_after(register, cfb8_encrypted(key, register, a)),
            b,
        ),
    decreases a.len(),
{
    if a.len() == 0 {
        assert(a + b =~= b);
        assert(cfb8_encrypted(key, register, a) + cfb8_encrypted(key, register, b)
            =~= cfb8_encrypted(key, register, b));
    } else {
        let c = a[0] ^ keystream_byte(key, register);
        let next = shifted(register, c);
        let head = cfb8_encrypted(key, register, a);
        assert((a + b)[0] == a[0]);
        assert((a + b).skip(1) =~= a.skip(1) + b);
        assert(head[0] == c);
        assert(head.skip(1) =~= cfb8_encrypted(key, next, a.skip(1)));
        lemma_encrypt_split(key, next, a.skip(1), b);
        assert(cfb8_encrypted(key, register, a + b) =~= head + cfb8_encrypted(
            key,
            register_after(register, head),
            b,
        ));
    }
}

/// A stream may be decrypted in pieces, wherever it is cut: the second
/// piece goes on from the register that the first one left.
pub proof fn lemma_decrypt_split(key: Seq<u8>, register: Seq<u8>, a: Seq<u8>, b: Seq<u8>)
    ensures
        cfb8_decrypted(key, register, a + b) == cfb8_decrypted(key, register, a) + cfb8_decrypted(
            key,
            register_after(register, a),
            b,
        ),
    decreases a.len(),
{
    if a.len() == 0 {
        assert(a + b =~= b);
        assert(cfb8_decrypted(key, register, a) + cfb8_decrypted(key, register, b)
            =~= cfb8_decrypted(key, register, b));
    } else {
        let next = shifted(register, a[0]);
        assert((a + b)[0] == a[0]);
        assert((a + b).skip(1) =~= a.skip(1) + b);
        lemma_decrypt_split(key, next, a.skip(1), b);
        assert(cfb8_decrypted(key, register, a + b) =~= cfb8_decrypted(key, register, a)
            + cfb8_decrypted(key, register_after(register, a), b));
    }
}

/// The pieces of a stream, put together again.
pub open spec fn joined(chunks: Seq<Seq<u8>>) -> Seq<u8>
    decreases chunks.len(),
{
    if chunks.len() == 0 {
        Seq::empty()
    } else {
        chunks[0] + joined(chunks.skip(1))
    }
}

/// What a receiver uncovers when it decrypts a stream piece by piece, each
/// piece from the register that the piece before it left.
pub open spec fn decrypted_in_chunks(
    key: Seq<u8>,
    register: Seq<u8>,
    chunks: Seq<Seq<u8>>,
) -> Seq<u8>
    decreases chunks.len(),
{
    if chunks.len() == 0 {
        Seq::empty()
    } else {
        cfb8_decrypted(key, register, chunks[0]) + decrypted_in_chunks(
            key,
            register_after(register, chunks[0]),
            chunks.skip(1),
        )
    }
}

/// Decrypting a stream piece by piece gives what decrypting it at once
/// gives, wherever the pieces end.
pub proof fn lemma_decrypt_in_chunks(key: Seq<u8>, register: Seq<u8>, chunks: Seq<Seq<u8>>)
    ensures
        decrypted_in_chunks(key, register, chunks) == cfb8_decrypted(key, register, joined(chunks)),
    decreases chunks.len(),
{
    if chunks.len() > 0 {
        lemma_decrypt_in_chunks(key, register_after(register, chunks[0]), chunks.skip(1));
        lemma_decrypt_split(key, register, chunks[0], joined(chunks.skip(1)));
    }
}

/// Encryption is transparent: what the sender encrypted as one stream, the
/// receiver uncovers as it was, in however many pieces the stream arrives
/// and wherever they end.
pub proof fn lemma_transparent(
    key: Seq<u8>,
    register: Seq<u8>,
    data: Seq<u8>,
    chunks: Seq<Seq<u8>>,
)
    requires
        joined(chunks) == cfb8_encrypted(key, register, data),
    ensures
        decrypted_in_chunks(key, register, chunks) == data,
{
    lemma_decrypt_in_chunks(key, register, chunks);
    lemma_decrypt_encrypt(key, register, data);
}

/// The key or the initial value of a cipher does not have sixteen bytes.
#[derive(Debug, Clone, Copy, PartialEq, Eq, Structural)]
pub struct InvalidLength;

/// One direction of an encrypted stream: the key and the shift register.
#[derive(Debug)]
pub struct Cfb8 {
    key: Vec<u8>,
    register: Vec<u8>,
}

impl Cfb8 {
    #[verifier::type_invariant]
    closed spec fn inv(&self) -> bool {
        self.key@.len() == BLOCK_LENGTH && self.register@.len() == BLOCK_LENGTH
    }

    /// The key of the cipher.
    pub closed spec fn key(&self) -> Seq<u8> {
        self.key@
    }

    /// The shift register: the initial value at first, then the last sixteen
    /// bytes of ciphertext.
    pub closed spec fn register(&self) -> Seq<u8> {
        self.register@
    }

    /// A cipher at the start of a stream. Key and initial value must have
    /// sixteen bytes each.
    pub fn new(key: &[u8], iv: &[u8]) -> (res: Result<Cfb8, InvalidLength>)
        ensures
            key@.len() == BLOCK_LENGTH && iv@.len() == BLOCK_LENGTH ==> res.is_ok()
                && res.unwrap().key() == key@ && res.unwrap().register() == iv@,
            !(key@.len() == BLOCK_LENGTH && iv@.len() == BLOCK_LENGTH) ==> res.is_err(),
    {
        if key.len() != BLOCK_LENGTH || iv.len() != BLOCK_LENGTH {
            return Err(InvalidLength);
        }
        Ok(Cfb8 { key: vstd::slice::slice_to_vec(key), register: vstd::slice::slice_to_vec(iv) })
    }

    /// Shifts one ciphertext byte into the register.
    fn shift(&mut self, c: u8)
        ensures
            final(self).key() == old(self).key(),
            final(self).register() == shifted(old(self).register(), c),
    {
        proof {
            use_type_invariant(&*self);
        }
        let mut next: Vec<u8> = Vec::with_capacity(BLOCK_LENGTH);
        let mut i: usize = 1;
        while i < BLOCK_LENGTH
            invariant
                1 <= i <= BLOCK_LENGTH,
                self.register@.len() == BLOCK_LENGTH,
                self.key@.len() == BLOCK_LENGTH,
                self.register@ == old(self).register@,
                self.key@ == old(self).key@,
                next@ == self.register@.subrange(1, i as int),
            decreases BLOCK_LENGTH - i,
        {
            next.push(self.register[i]);
            assert(next@ =~= self.register@.subrange(1, i + 1));
            i = i + 1;
        }
        next.push(c);
        assert(next@ =~= shifted(self.register@, c));
        self.register = next;
    }

    /// Encrypts `data` in place and moves the cipher along the stream.
    pub fn encrypt(&mut self, data: &mut Vec<u8>)
        ensures
            final(data)@ == cfb8_encrypted(old(self).key(), old(self).register(), old(data)@),
            final(self).key() == old(self).key(),
            final(self).register() == register_after(old(self).register(), final(data)@),
    {
        let n = data.len();
        let mut i: usize = 0;
        proof {
            use_type_invariant(&*self);
            assert(data@.take(0) =~= Seq::<u8>::empty());
            assert(data@.skip(0) =~= data@);
        }
        while i < n
            invariant
                i <= n,
                n == data@.len(),
                data@.len() == old(data)@.len(),
                self.key() == old(self).key(),
                data@.skip(i as int) == old(data)@.skip(i as int),
                cfb8_encrypted(old(self).key(), old(self).register(), old(data)@) == data@.take(
                    i as int,
                ) + cfb8_encrypted(self.key(), self.register(), old(data)@.skip(i as int)),
                register_after(old(self).register(), data@.take(i as int)) == self.register(),
            decreases n - i,
        {
            proof {
                use_type_invariant(&*self);
            }
            let block = aes128_encrypt_block(self.key.as_slice(), self.register.as_slice());
            let p: u8 = data[i];
            let c: u8 = p ^ block[0];
            let ghost before = data@;
            let ghost reg = self.register();
            let ghost rest = old(data)@.skip(i as int);
            data.set(i, c);
            self.shift(c);
            proof {
                assert(rest[0] == p);
                assert(rest.skip(1) =~= old(data)@.skip(i + 1));
                assert(data@.skip(i + 1) =~= old(data)@.skip(i + 1));
                assert(data@.take(i + 1) =~= before.take(i as int).push(c));
                assert(before.take(i as int) + (seq![c] + cfb8_encrypted(
                    self.key(),
                    self.register(),
                    rest.skip(1),
                )) =~= before.take(i as int).push(c) + cfb8_encrypted(
                    self.key(),
                    self.register(),
                    rest.skip(1),
                ));
                lemma_register_push(old(self).register(), before.take(i as int), c);
            }
            i = i + 1;
        }
        proof {
            assert(data@.take(n as int) =~= data@);
            assert(old(data)@.skip(n as int) =~= Seq::<u8>::empty());
            assert(data@ + Seq::<u8>::empty() =~= data@);
        }
    }

    /// Decrypts `data` in place and moves the cipher along the stream.
    pub fn decrypt(&mut self, data: &mut Vec<u8>)
        ensures
            final(data)@ == cfb8_decrypted(old(self).key(), old(self).register(), old(data)@),
            final(self).key() == old(self).key(),
            final(self).register() == register_after(old(self).register(), old(data)@),
    {
        let n = data.len();
        let mut i: usize = 0;
        proof {
            use_type_invariant(&*self);
            assert(data@.take(0) =~= Seq::<u8>::empty());
            assert(data@.skip(0) =~= data@);
            assert(old(data)@.take(0) =~= Seq::<u8>::empty());
        }
        while i < n
            invariant
                i <= n,
                n == data@.len(),
                data@.len() == old(data)@.len(),
                self.key() == old(self).key(),
                data@.skip(i as int) == old(data)@.skip(i as int),
                cfb8_decrypted(old(self).key(), old(self).register(), old(data)@) == data@.take(
                    i as int,
                ) + cfb8_decrypted(self.key(), self.register(), old(data)@.skip(i as int)),
                register_after(old(self).register(), old(data)@.take(i as int)) == self.register(),
            decreases n - i,
        {
            proof {
                use_type_invariant(&*self);
            }
            let block = aes128_encrypt_block(self.key.as_slice(), self.register.as_slice());
            let c: u8 = data[i];
            let p: u8 = c ^ block[0];
            let ghost before = data@;
            let ghost rest = old(data)@.skip(i as int);
            data.set(i, p);
            self.shift(c);
            proof {
                assert(rest[0] == c);
                assert(rest.skip(1) =~= old(data)@.skip(i + 1));
                assert(data@.skip(i + 1) =~= old(data)@.skip(i + 1));
                assert(data@.take(i + 1) =~= before.take(i as int).push(p));
                assert(before.take(i as int) + (seq![p] + cfb8_decrypted(
                    self.key(),
                    self.register(),
                    rest.skip(1),
                )) =~= before.take(i as int).push(p) + cfb8_decrypted(
                    self.key(),
                    self.register(),
                    rest.skip(1),
                ));
                assert(old(data)@.take(i + 1) =~= old(data)@.take(i as int).push(c));
                lemma_register_push(old(self).register(), old(data)@.take(i as int), c);
            }
            i = i + 1;
        }
        proof {
            assert(data@.take(n as int) =~= data@);
            assert(old(data)@.take(n as int) =~= old(data)@);
            assert(old(data)@.skip(n as int) =~= Seq::<u8>::empty());
            assert(data@ + Seq::<u8>::empty() =~= data@);
        }
    }
}

/// One more ciphertext byte shifts the register once more.
pub proof fn lemma_register_push(register: Seq<u8>, cipher: Seq<u8>, c: u8)
    ensures
        register_after(register, cipher.push(c)) == shifted(register_after(register, cipher), c),
    decreases cipher.len(),
{
    let longer = cipher.push(c);
    if cipher.len() == 0 {
        assert(longer[0] == c);
        assert(longer.skip(1) =~= Seq::<u8>::empty());
        assert(register_after(shifted(register, c), longer.skip(1)) == shifted(register, c));
    } else {
        assert(longer[0] == cipher[0]);
        assert(longer.skip(1) =~= cipher.skip(1).push(c));
        lemma_register_push(shifted(register, cipher[0]), cipher.skip(1), c);
    }
}

} // verus!
