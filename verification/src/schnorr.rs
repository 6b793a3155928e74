//! The Schnorr signature protocol over the Ristretto group: key types, the
//! signature value type, the `sign` and `verify` algorithms, and the
//! algebraic laws they obey.

use crate::field::{
    canonical_scalar, challenge_scalar, group_order, le_value, lemma_add_mod_right,
    lemma_le_value_injective, lemma_mod_add_cancel_left, lemma_mul_mod_injective,
    order_has_no_zero_divisors,
};
use crate::group::{
    base_mul, point_add, point_enc_of, scalar_add, scalar_from_bytes_mod_order, scalar_mul,
    scalar_mul_point,
};
use vstd::arithmetic::div_mod::lemma_small_mod;
use vstd::prelude::*;

verus! {

/// Compare two 32-byte canonical encodings.
fn bytes_eq(a: &[u8; 32], b: &[u8; 32]) -> (r: bool)
    ensures
        r == (a@ == b@),
{
    let mut i: usize = 0;
    while i < 32
        invariant
            i <= 32,
            forall|j: int| 0 <= j < i ==> a@[j] == b@[j],
        decreases 32 - i,
    {
        if a[i] != b[i] {
            return false;
        }
        i += 1;
    }
    proof {
        assert(a@ =~= b@);
    }
    true
}

/// The ASCII byte of a hex digit, lower case.
pub open spec fn hex_digit(n: u8) -> u8 {
    if n < 10 {
        (0x30 + n) as u8
    } else {
        (0x57 + n) as u8
    }
}

/// The ASCII byte at position `j` of the hex encoding of `s`.
pub open spec fn hex_byte_at(s: Seq<u8>, j: int) -> u8 {
    if j % 2 == 0 {
        hex_digit(s[j / 2] / 16)
    } else {
        hex_digit(s[j / 2] % 16)
    }
}

/// The hex encoding of a byte string: two lower-case digits per byte.
pub open spec fn hex_seq(s: Seq<u8>) -> Seq<char> {
    Seq::new(2 * s.len(), |j: int| hex_byte_at(s, j) as char)
}

/// One hex digit, as its ASCII byte.
fn hex_digit_exec(n: u8) -> (r: u8)
    requires
        n < 16,
    ensures
        r == hex_digit(n),
{
    if n < 10 {
        0x30 + n
    } else {
        0x57 + n
    }
}

/// Relies on `String::from_utf8` of std: ASCII bytes are valid UTF-8 and
/// decode to the characters with the same code points.
#[verifier::external_body]
fn ascii_to_string(v: Vec<u8>) -> (r: String)
    requires
        forall|i: int| 0 <= i < v@.len() ==> v@[i] < 128,
    ensures
        r@ == v@.map_values(|b: u8| b as char),
{
    String::from_utf8(v).unwrap()
}

/// A secret scalar — a private key or a nonce — held as its canonical
/// little-endian encoding.
#[derive(Clone, Copy)]
pub struct RistrettoSecretKey {
    bytes: [u8; 32],
}

impl RistrettoSecretKey {
    /// The encoding stays canonical: its value is below the group order.
    #[verifier::type_invariant]
    spec fn wf(self) -> bool {
        canonical_scalar(self.bytes@)
    }

    /// The canonical byte encoding, as a sequence.
    pub closed spec fn as_seq(self) -> Seq<u8> {
        self.bytes@
    }

    /// The scalar's value.
    pub closed spec fn value(self) -> nat {
        le_value(self.bytes@)
    }

    /// Build a secret scalar from 32 bytes read as a little-endian integer
    /// and reduced modulo the group order.
    pub fn from_bytes_mod_order(bytes: [u8; 32]) -> (r: Self)
        ensures
            r.value() == le_value(bytes@) % group_order(),
    {
        let reduced = scalar_from_bytes_mod_order(&bytes);
        RistrettoSecretKey { bytes: reduced }
    }

    /// The canonical byte encoding.
    pub fn to_bytes(&self) -> (r: [u8; 32])
        ensures
            r@ == self.as_seq(),
    {
        self.bytes
    }

    /// The canonical encoding as a lower-case hex string.
    pub fn to_hex(&self) -> (r: String)
        ensures
            r@ == hex_seq(self.as_seq()),
    {
        let mut out: Vec<u8> = Vec::new();
        let mut i: usize = 0;
        while i < 32
            invariant
                i <= 32,
                out@.len() == 2 * i,
                forall|j: int| 0 <= j < out@.len() ==> out@[j] == hex_byte_at(self.bytes@, j),
            decreases 32 - i,
        {
            out.push(hex_digit_exec(self.bytes[i] / 16));
            out.push(hex_digit_exec(self.bytes[i] % 16));
            i += 1;
        }
        let r = ascii_to_string(out);
        proof {
            assert(r@ =~= hex_seq(self.as_seq()));
        }
        r
    }
}

/// A public group element — a public key or a public nonce — held as its
/// canonical compressed Ristretto encoding, together with the ghost discrete
/// logarithm it encodes.
#[derive(Clone, Copy)]
pub struct RistrettoPublicKey {
    enc: [u8; 32],
    dlog: Ghost<nat>,
}

impl RistrettoPublicKey {
    /// The encoding is the compression of the recorded basepoint multiple.
    #[verifier::type_invariant]
    spec fn wf(self) -> bool {
        self.dlog@ < group_order() && self.enc@ == point_enc_of(self.dlog@)
    }

    /// The canonical compressed encoding, as a sequence.
    pub closed spec fn as_seq(self) -> Seq<u8> {
        self.enc@
    }

    /// The point's discrete logarithm with respect to the basepoint.
    pub closed spec fn discrete_log(self) -> nat {
        self.dlog@
    }

    /// The public point of a secret scalar: the basepoint multiple.
    pub fn from_secret_key(k: &RistrettoSecretKey) -> (r: Self)
        ensures
            r.discrete_log() == k.value(),
            r.as_seq() == point_enc_of(k.value()),
    {
        proof {
            use_type_invariant(&*k);
        }
        let enc = base_mul(&k.bytes);
        RistrettoPublicKey { enc, dlog: Ghost(le_value(k.bytes@)) }
    }

    /// The canonical compressed encoding.
    pub fn to_bytes(&self) -> (r: [u8; 32])
        ensures
            r@ == self.as_seq(),
    {
        self.enc
    }
}

impl PartialEq for RistrettoPublicKey {
    /// Canonical point equality: the compressed encodings are bit-identical.
    fn eq(&self, other: &Self) -> (r: bool) {
        bytes_eq(&self.enc, &other.enc)
    }
}

impl vstd::std_specs::cmp::PartialEqSpecImpl for RistrettoPublicKey {
    open spec fn obeys_eq_spec() -> bool {
        true
    }

    open spec fn eq_spec(&self, other: &Self) -> bool {
        self.as_seq() == other.as_seq()
    }
}

/// A Schnorr signature: the public nonce `R` and the response scalar `s`.
///
/// A signature is meaningful only relative to the public key and challenge
/// it is verified against; it carries no binding to either.
#[derive(Clone, Copy)]
pub struct RistrettoSchnorr {
    public_nonce: RistrettoPublicKey,
    response: RistrettoSecretKey,
}

/// The response scalar of a signature by secret `k` with nonce `r` over
/// challenge `c`: s = r + e * k in the scalar field, with e the challenge
/// reduced modulo the group order.
pub open spec fn sign_response(k: nat, r: nat, c: Seq<u8>) -> nat {
    (r + challenge_scalar(c) * k) % group_order()
}

/// The verification equation on values: the response scalar equals the
/// public nonce's discrete logarithm plus the reduced challenge times the
/// public key's discrete logarithm.
pub open spec fn verify_equation(s: nat, key_dlog: nat, nonce_dlog: nat, c: Seq<u8>) -> bool {
    s == (nonce_dlog + challenge_scalar(c) * key_dlog) % group_order()
}

/// Everything `sign` promises of its result.
pub open spec fn sign_post(k: nat, r: nat, c: Seq<u8>, sig: RistrettoSchnorr) -> bool {
    &&& sig.response_value() == sign_response(k, r, c)
    &&& sig.response_seq().len() == 32
    &&& sig.nonce_dlog() == r
    &&& sig.nonce_seq() == point_enc_of(r)
}

impl RistrettoSchnorr {
    /// The response scalar's value.
    pub closed spec fn response_value(self) -> nat {
        self.response.value()
    }

    /// The response scalar's canonical encoding.
    pub closed spec fn response_seq(self) -> Seq<u8> {
        self.response.as_seq()
    }

    /// The embedded public nonce's discrete logarithm.
    pub closed spec fn nonce_dlog(self) -> nat {
        self.public_nonce.discrete_log()
    }

    /// The embedded public nonce's canonical encoding.
    pub closed spec fn nonce_seq(self) -> Seq<u8> {
        self.public_nonce.as_seq()
    }

    /// Canonical equality of signatures: both fields bit-identical.
    pub open spec fn sig_eq(self, other: Self) -> bool {
        self.nonce_seq() == other.nonce_seq() && self.response_seq() == other.response_seq()
    }

    /// Assemble a signature from its public nonce and response scalar.
    pub fn new(public_nonce: RistrettoPublicKey, signature: RistrettoSecretKey) -> (sig: Self)
        ensures
            sig.nonce_seq() == public_nonce.as_seq(),
            sig.nonce_dlog() == public_nonce.discrete_log(),
            sig.response_seq() == signature.as_seq(),
            sig.response_value() == signature.value(),
    {
        RistrettoSchnorr { public_nonce, response: signature }
    }

    /// Produce a signature: s = nonce + secret * e and R = publicKeyOf(nonce),
    /// with e the challenge reduced modulo the group order.
    ///
    /// The nonce must be a freshly and uniformly generated random scalar,
    /// used for at most one challenge: signing two distinct challenges with
    /// one nonce and the same secret lets anyone recover the secret. That
    /// discipline is the caller's obligation; it cannot be checked here.
    pub fn sign(secret: &RistrettoSecretKey, nonce: &RistrettoSecretKey, challenge: [u8; 32]) -> (sig: Self)
        ensures
            sign_post(secret.value(), nonce.value(), challenge@, sig),
    {
        proof {
            use_type_invariant(&*secret);
            use_type_invariant(&*nonce);
        }
        let e = scalar_from_bytes_mod_order(&challenge);
        let ek = scalar_mul(&e, &secret.bytes);
        let s = scalar_add(&nonce.bytes, &ek);
        let public_nonce = RistrettoPublicKey::from_secret_key(nonce);
        proof {
            lemma_add_mod_right(
                nonce.value(),
                challenge_scalar(challenge@) * secret.value(),
                group_order(),
            );
        }
        RistrettoSchnorr { public_nonce, response: RistrettoSecretKey { bytes: s } }
    }

    /// Check the verification equation: publicKeyOf(s) == R + e * P under
    /// canonical point equality, with s the signature's response scalar,
    /// R the `public_nonce` argument, P the `public_key` argument, and e the
    /// challenge reduced modulo the group order.
    ///
    /// The public nonce embedded in the signature is deliberately not
    /// compared against the `public_nonce` argument: the caller chooses
    /// which nonce to trust, and a caller handed a bare signature must
    /// compare `get_public_nonce` against the nonce it derives itself.
    pub fn verify(
        &self,
        public_key: &RistrettoPublicKey,
        public_nonce: &RistrettoPublicKey,
        challenge: &[u8; 32],
    ) -> (ok: bool)
        ensures
            ok == verify_equation(
                self.response_value(),
                public_key.discrete_log(),
                public_nonce.discrete_log(),
                challenge@,
            ),
    {
        proof {
            use_type_invariant(&self.response);
            use_type_invariant(&*public_key);
            use_type_invariant(&*public_nonce);
        }
        let lhs = base_mul(&self.response.bytes);
        let e = scalar_from_bytes_mod_order(challenge);
        let ep = scalar_mul_point(&e, &public_key.enc);
        let rhs = point_add(&public_nonce.enc, &ep);
        let ok = bytes_eq(&lhs, &rhs);
        proof {
            let ord = group_order();
            let s = self.response_value();
            let kd = public_key.discrete_log();
            let nd = public_nonce.discrete_log();
            let ec = challenge_scalar(challenge@);
            assert(ep@ == point_enc_of((ec * kd) % ord));
            assert(rhs@ == point_enc_of((nd + ((ec * kd) % ord)) % ord));
            lemma_add_mod_right(nd, ec * kd, ord);
            let v = (nd + ec * kd) % ord;
            if s == v {
                assert(lhs@ == rhs@);
            } else {
                assert(point_enc_of(v) != lhs@);
            }
        }
        ok
    }

    /// The response scalar `s`.
    pub fn get_signature(&self) -> (r: &RistrettoSecretKey)
        ensures
            r.as_seq() == self.response_seq(),
            r.value() == self.response_value(),
    {
        &self.response
    }

    /// The public nonce `R` embedded in the signature.
    ///
    /// `verify` never reads it; a caller handed a bare signature compares it
    /// against the public nonce it derives itself.
    pub fn get_public_nonce(&self) -> (r: &RistrettoPublicKey)
        ensures
            r.as_seq() == self.nonce_seq(),
            r.discrete_log() == self.nonce_dlog(),
    {
        &self.public_nonce
    }
}

impl PartialEq for RistrettoSchnorr {
    /// Two signatures are equal iff both fields are bit-identical under
    /// canonical encoding.
    fn eq(&self, other: &Self) -> (r: bool) {
        bytes_eq(&self.public_nonce.enc, &other.public_nonce.enc) && bytes_eq(
            &self.response.bytes,
            &other.response.bytes,
        )
    }
}

impl vstd::std_specs::cmp::PartialEqSpecImpl for RistrettoSchnorr {
    open spec fn obeys_eq_spec() -> bool {
        true
    }

    open spec fn eq_spec(&self, other: &Self) -> bool {
        self.sig_eq(*other)
    }
}

/// Completeness: a signature whose response scalar and embedded nonce come
/// from `sign` with secret `k` and nonce `r` satisfies the verification
/// equation against the public key of `k`, the public nonce of `r`, and the
/// same challenge.
pub proof fn lemma_completeness(k: nat, r: nat, c: Seq<u8>, sig: RistrettoSchnorr)
    requires
        sig.response_value() == sign_response(k, r, c),
        sig.nonce_dlog() == r,
    ensures
        verify_equation(sig.response_value(), k, sig.nonce_dlog(), c),
{
}

/// Soundness under a wrong challenge: a signature over challenge `c1` fails
/// the verification equation for any challenge that reduces to a different
/// scalar, provided the secret key is not zero in the scalar field. (With a
/// zero secret key the public key is the identity and every challenge
/// verifies; and two challenges that reduce to the same scalar are
/// indistinguishable to the protocol — the transcript builder's collision
/// resistance makes that negligible.) The group order is prime, which enters
/// as the no-zero-divisors hypothesis.
pub proof fn lemma_wrong_challenge_rejected(k: nat, r: nat, c1: Seq<u8>, c2: Seq<u8>)
    requires
        order_has_no_zero_divisors(),
        0 < k < group_order(),
        challenge_scalar(c1) != challenge_scalar(c2),
    ensures
        !verify_equation(sign_response(k, r, c1), k, r, c2),
{
    let ord = group_order();
    let e1 = challenge_scalar(c1);
    let e2 = challenge_scalar(c2);
    if sign_response(k, r, c1) == (r + e2 * k) % ord {
        lemma_mod_add_cancel_left(r, e1 * k, e2 * k, ord);
        lemma_small_mod(k, ord);
        lemma_mul_mod_injective(k, e1, e2);
    }
}

/// Soundness under a wrong key: a signature by secret `k` fails the
/// verification equation against the public key of a different reduced
/// secret `k2`, provided the challenge does not reduce to zero in the scalar
/// field. (On a zero challenge the equation never involves the key.) The
/// group order is prime, which enters as the no-zero-divisors hypothesis.
pub proof fn lemma_wrong_key_rejected(k: nat, k2: nat, r: nat, c: Seq<u8>)
    requires
        order_has_no_zero_divisors(),
        k < group_order(),
        k2 < group_order(),
        k != k2,
        challenge_scalar(c) != 0,
    ensures
        !verify_equation(sign_response(k, r, c), k2, r, c),
{
    let ord = group_order();
    let e = challenge_scalar(c);
    if sign_response(k, r, c) == (r + e * k2) % ord {
        lemma_mod_add_cancel_left(r, e * k, e * k2, ord);
        lemma_small_mod(e, ord);
        lemma_mul_mod_injective(e, k, k2);
    }
}

/// Determinism: `sign`'s contract pins every field of the signature, so two
/// signatures over the same secret, nonce and challenge are bit-identical
/// under canonical encoding.
pub proof fn lemma_sign_deterministic(
    k: nat,
    r: nat,
    c: Seq<u8>,
    sig1: RistrettoSchnorr,
    sig2: RistrettoSchnorr,
)
    requires
        sign_post(k, r, c, sig1),
        sign_post(k, r, c, sig2),
    ensures
        sig1.sig_eq(sig2),
{
    lemma_le_value_injective(sig1.response_seq(), sig2.response_seq());
}

} // verus!
