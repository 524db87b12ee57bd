//! LWE secret keys and ciphertexts over 64-bit words, and the LWE view of a GLWE key.

use vstd::prelude::*;
use crate::accumulator::word_modulus;

verus! {

/// `sum mask[i] * key[i]` over the first `mask.len()` positions, as an integer.
pub open spec fn dot(mask: Seq<u64>, key: Seq<u64>) -> nat
    decreases mask.len(),
{
    if mask.len() == 0 {
        0
    } else {
        dot(mask.drop_last(), key) + mask.last() as nat * key[mask.len() - 1] as nat
    }
}

/// The body of an LWE ciphertext: its last word.
pub open spec fn body_of(ciphertext: Seq<u64>) -> u64 {
    ciphertext.last()
}

/// The mask of an LWE ciphertext: all words but the last.
pub open spec fn mask_of(ciphertext: Seq<u64>) -> Seq<u64> {
    ciphertext.drop_last()
}

/// The plaintext of `ciphertext` under `key`: `body - <mask, key>`, modulo 2^64.
pub open spec fn decrypt_spec(ciphertext: Seq<u64>, key: Seq<u64>) -> u64 {
    ((body_of(ciphertext) as int - dot(mask_of(ciphertext), key) as int) % (word_modulus() as int)) as u64
}

/// The LWE encryption of `plaintext` under `key` with the given `mask` and `noise`:
/// the mask, then the body `<mask, key> + plaintext + noise`, modulo 2^64.
pub open spec fn encrypt_spec(plaintext: u64, key: Seq<u64>, mask: Seq<u64>, noise: u64) -> Seq<u64> {
    mask.push(((dot(mask, key) + plaintext as nat + noise as nat) % word_modulus()) as u64)
}

/// Whether every coefficient of `key` is a bit.
pub open spec fn is_binary(key: Seq<u64>) -> bool {
    forall|i: int| 0 <= i < key.len() ==> #[trigger] key[i] <= 1
}

/// An LWE secret key: a sequence of binary coefficients.
pub struct LweSecretKey {
    pub data: Vec<u64>,
}

/// A GLWE secret key: `glwe_dimension` polynomials of `polynomial_size` binary coefficients,
/// stored one after the other.
pub struct GlweSecretKey {
    pub data: Vec<u64>,
    pub polynomial_size: usize,
}

impl LweSecretKey {
    /// The key's well-formedness: binary coefficients.
    pub open spec fn wf(&self) -> bool {
        is_binary(self.data@)
    }

    /// A key with the coefficients `data`, which must be bits.
    pub fn from_container(data: Vec<u64>) -> (r: LweSecretKey)
        requires
            is_binary(data@),
        ensures
            r.data@ == data@,
            r.wf(),
    {
        LweSecretKey { data }
    }

    /// The LWE dimension: the number of coefficients.
    pub fn lwe_dimension(&self) -> (r: usize)
        ensures
            r == self.data@.len(),
    {
        self.data.len()
    }
}

impl GlweSecretKey {
    /// The key's well-formedness: positive polynomial size, whole polynomials, binary coefficients.
    pub open spec fn wf(&self) -> bool {
        &&& self.polynomial_size > 0
        &&& self.data@.len() % (self.polynomial_size as nat) == 0
        &&& is_binary(self.data@)
    }

    /// A key holding the polynomials `polynomials`, each of `polynomial_size` bits, laid out
    /// one after the other.
    pub fn from_polynomials(polynomials: &Vec<Vec<u64>>, polynomial_size: usize) -> (r: GlweSecretKey)
        requires
            polynomial_size > 0,
            forall|i: int|
                0 <= i < polynomials@.len() ==> (#[trigger] polynomials@[i])@.len() == polynomial_size
                    && is_binary(polynomials@[i]@),
            polynomials@.len() * polynomial_size <= usize::MAX,
        ensures
            r.wf(),
            r.polynomial_size == polynomial_size,
            r.data@ == polynomials@.map_values(|p: Vec<u64>| p@).flatten(),
    {
        let mut data: Vec<u64> = Vec::new();
        let mut i: usize = 0;
        let ghost polys = polynomials@.map_values(|p: Vec<u64>| p@);
        while i < polynomials.len()
            invariant
                polys == polynomials@.map_values(|p: Vec<u64>| p@),
                i <= polynomials@.len(),
                forall|j: int|
                    0 <= j < polynomials@.len() ==> (#[trigger] polynomials@[j])@.len() == polynomial_size
                        && is_binary(polynomials@[j]@),
                polynomials@.len() * polynomial_size <= usize::MAX,
                data@ == polys.subrange(0, i as int).flatten(),
                data@.len() == i * polynomial_size,
                is_binary(data@),
            decreases polynomials@.len() - i,
        {
            let p = &polynomials[i];
            let ghost before = data@;
            proof {
                assert((i + 1) * polynomial_size <= polynomials@.len() * polynomial_size) by (nonlinear_arith)
                    requires
                        i < polynomials@.len(),
                ;
                assert((i + 1) * polynomial_size == i * polynomial_size + polynomial_size) by (nonlinear_arith);
            }
            let mut k: usize = 0;
            while k < p.len()
                invariant
                    p@.len() == polynomial_size,
                    is_binary(p@),
                    k <= p@.len(),
                    data@ == before + p@.subrange(0, k as int),
                    is_binary(before),
                    before.len() + polynomial_size <= usize::MAX,
                decreases p@.len() - k,
            {
                data.push(p[k]);
                k += 1;
                proof {
                    assert(before + p@.subrange(0, k as int) =~= data@);
                }
            }
            proof {
                assert(p@.subrange(0, k as int) =~= p@);
                let sub = polys.subrange(0, i + 1);
                assert(sub.drop_last() =~= polys.subrange(0, i as int));
                assert(sub =~= polys.subrange(0, i as int).push(p@));
                polys.subrange(0, i as int).lemma_flatten_push(p@);
                assert forall|j: int| 0 <= j < data@.len() implies #[trigger] data@[j] <= 1 by {
                    if j >= before.len() {
                        assert(data@[j] == p@[j - before.len()]);
                    }
                }
            }
            i += 1;
        }
        proof {
            assert(polys.subrange(0, i as int) =~= polys);
            vstd::arithmetic::div_mod::lemma_mod_multiples_basic(i as int, polynomial_size as int);
        }
        GlweSecretKey { data, polynomial_size }
    }

    /// The same coefficients seen as an LWE key of dimension `glwe_dimension * polynomial_size`.
    pub fn into_lwe_secret_key(self) -> (r: LweSecretKey)
        requires
            self.wf(),
        ensures
            r.data@ == self.data@,
            r.wf(),
    {
        LweSecretKey { data: self.data }
    }
}

/// `<mask, key>` modulo 2^64, over the mask's positions.
fn dot_mod(mask: &[u64], key: &[u64]) -> (r: u64)
    requires
        mask@.len() <= key@.len(),
    ensures
        r == dot(mask@, key@) % word_modulus(),
{
    let mut acc: u64 = 0;
    let mut i: usize = 0;
    while i < mask.len()
        invariant
            mask@.len() <= key@.len(),
            i <= mask@.len(),
            acc == dot(mask@.subrange(0, i as int), key@) % word_modulus(),
        decreases mask@.len() - i,
    {
        let term = mask[i].wrapping_mul(key[i]);
        proof {
            let m = word_modulus() as int;
            let prefix = mask@.subrange(0, i as int);
            let next = mask@.subrange(0, i + 1);
            assert(next.drop_last() =~= prefix);
            let t = mask@[i as int] as nat * key@[i as int] as nat;
            assert(dot(next, key@) == dot(prefix, key@) + t);
            vstd::arithmetic::div_mod::lemma_add_mod_noop(dot(prefix, key@) as int, t as int, m);
        }
        acc = acc.wrapping_add(term);
        i += 1;
    }
    proof {
        assert(mask@.subrange(0, i as int) =~= mask@);
    }
    acc
}

/// Decrypts an LWE ciphertext (mask, then body) under `key`: `body - <mask, key>`, wrapping.
pub fn decrypt(ciphertext: &[u64], key: &LweSecretKey) -> (r: u64)
    requires
        ciphertext@.len() == key.data@.len() + 1,
    ensures
        r == decrypt_spec(ciphertext@, key.data@),
{
    let n = key.data.len();
    let (mask, body) = ciphertext.split_at(n);
    let d = dot_mod(mask, key.data.as_slice());
    proof {
        let m = word_modulus() as int;
        assert(mask@ =~= mask_of(ciphertext@));
        vstd::arithmetic::div_mod::lemma_sub_mod_noop(body@[0] as int, dot(mask@, key.data@) as int, m);
        vstd::arithmetic::div_mod::lemma_small_mod(body@[0] as nat, m as nat);
    }
    body[0].wrapping_sub(d)
}

/// Encrypts `plaintext` under `key`, with the random `mask` and `noise` drawn by the caller:
/// the mask, then the body `<mask, key> + plaintext + noise`, wrapping.
pub fn encrypt(plaintext: u64, key: &LweSecretKey, mask: &[u64], noise: u64) -> (r: Vec<u64>)
    requires
        mask@.len() == key.data@.len(),
        key.data@.len() < usize::MAX,
    ensures
        r@ == encrypt_spec(plaintext, key.data@, mask@, noise),
{
    let d = dot_mod(mask, key.data.as_slice());
    let body = d.wrapping_add(plaintext).wrapping_add(noise);
    proof {
        let m = word_modulus() as int;
        let x = dot(mask@, key.data@) as int;
        vstd::arithmetic::div_mod::lemma_add_mod_noop(x, plaintext as int, m);
        vstd::arithmetic::div_mod::lemma_small_mod(plaintext as nat, m as nat);
        vstd::arithmetic::div_mod::lemma_add_mod_noop(x + plaintext, noise as int, m);
        vstd::arithmetic::div_mod::lemma_small_mod(noise as nat, m as nat);
        vstd::arithmetic::div_mod::lemma_mod_twice(x + plaintext, m);
    }
    let mut out: Vec<u64> = Vec::new();
    let mut i: usize = 0;
    while i < mask.len()
        invariant
            i <= mask@.len(),
            out@ == mask@.subrange(0, i as int),
        decreases mask@.len() - i,
    {
        out.push(mask[i]);
        i += 1;
        proof {
            assert(out@ =~= mask@.subrange(0, i as int));
        }
    }
    out.push(body);
    proof {
        assert(mask@.subrange(0, i as int) =~= mask@);
    }
    out
}

/// Decryption undoes encryption: what comes back is the plaintext plus the noise, modulo 2^64.
pub proof fn lemma_decrypt_encrypt(plaintext: u64, key: Seq<u64>, mask: Seq<u64>, noise: u64)
    requires
        mask.len() == key.len(),
    ensures
        decrypt_spec(encrypt_spec(plaintext, key, mask, noise), key) == (plaintext as nat + noise as nat)
            % word_modulus(),
{
    let m = word_modulus() as int;
    let ct = encrypt_spec(plaintext, key, mask, noise);
    let d = dot(mask, key) as int;
    let s = plaintext as int + noise as int;
    assert(mask_of(ct) =~= mask);
    vstd::arithmetic::div_mod::lemma_sub_mod_noop(d + s, d, m);
    vstd::arithmetic::div_mod::lemma_mod_twice(d, m);
    vstd::arithmetic::div_mod::lemma_sub_mod_noop(d + s, d, m);
    vstd::arithmetic::div_mod::lemma_mod_self_0(m);
}

/// A GLWE key seen as an LWE key and the LWE key built from the same polynomials, flattened
/// independently, encrypt alike, and each decrypts what the other encrypted to the plaintext
/// plus the noise.
pub proof fn lemma_lwe_view_decrypts_alike(
    plaintext: u64,
    mask: Seq<u64>,
    noise: u64,
    polynomials: Seq<Seq<u64>>,
    glwe_key: GlweSecretKey,
    lwe_key: LweSecretKey,
)
    requires
        glwe_key.wf(),
        glwe_key.data@ == polynomials.flatten(),
        lwe_key.data@ == polynomials.flatten(),
        mask.len() == lwe_key.data@.len(),
    ensures
        encrypt_spec(plaintext, glwe_key.data@, mask, noise) == encrypt_spec(
            plaintext,
            lwe_key.data@,
            mask,
            noise,
        ),
        decrypt_spec(encrypt_spec(plaintext, glwe_key.data@, mask, noise), lwe_key.data@) == (
        plaintext as nat + noise as nat) % word_modulus(),
        decrypt_spec(encrypt_spec(plaintext, lwe_key.data@, mask, noise), glwe_key.data@) == (
        plaintext as nat + noise as nat) % word_modulus(),
{
    lemma_decrypt_encrypt(plaintext, lwe_key.data@, mask, noise);
}

} // verus!
