//! The server's RSA key pair: public-key export and decryption of what the
//! client sends under it.

use vstd::prelude::*;

verus! {

/// What PKCS#1 v1.5 decryption under the key with these components gives
/// for `ciphertext`: the message, or nothing where the key or the
/// ciphertext is refused. All numbers are big-endian bytes.
pub uninterp spec fn rsa_pkcs1v15_decrypt(
    modulus: Seq<u8>,
    public_exponent: Seq<u8>,
    private_exponent: Seq<u8>,
    prime_p: Seq<u8>,
    prime_q: Seq<u8>,
    ciphertext: Seq<u8>,
) -> Option<Seq<u8>>;

/// The DER-encoded SubjectPublicKeyInfo of the public key with this modulus
/// and exponent, or nothing where they cannot be encoded.
pub uninterp spec fn rsa_public_key_der(modulus: Seq<u8>, public_exponent: Seq<u8>) -> Option<
    Seq<u8>,
>;

/// Whether two primes, in big-endian bytes, take the same number of bytes
/// and start with a byte that is not zero: the larger is then less than 256
/// times the smaller.
pub open spec fn primes_balanced(prime_p: Seq<u8>, prime_q: Seq<u8>) -> bool {
    &&& prime_p.len() == prime_q.len()
    &&& prime_p.len() > 0
    &&& prime_p[0] != 0
    &&& prime_q[0] != 0
}

/// Calls `RsaPrivateKey::from_components` and `RsaPrivateKey::decrypt` of the
/// rsa crate with PKCS#1 v1.5 padding and without blinding. The result
/// depends on the key and the ciphertext alone; the contract gives it its
/// name and says no more. The primes have to be balanced: the decryption
/// adds the one to a number below the other until it is not negative, which
/// takes as many rounds as the one goes into the other.
#[verifier::external_body]
fn pkcs1v15_decrypt(
    modulus: &Vec<u8>,
    public_exponent: &Vec<u8>,
    private_exponent: &Vec<u8>,
    prime_p: &Vec<u8>,
    prime_q: &Vec<u8>,
    ciphertext: &[u8],
) -> (r: Result<Vec<u8>, rsa::Error>)
    requires
        primes_balanced(prime_p@, prime_q@),
    ensures
        r matches Ok(plain) ==> rsa_pkcs1v15_decrypt(
            modulus@,
            public_exponent@,
            private_exponent@,
            prime_p@,
            prime_q@,
            ciphertext@,
        ) == Some(plain@),
        r is Err ==> rsa_pkcs1v15_decrypt(
            modulus@,
            public_exponent@,
            private_exponent@,
            prime_p@,
            prime_q@,
            ciphertext@,
        ) is None,
{
    let p = rsa::BigUint::from_bytes_be(prime_p);
    let q = rsa::BigUint::from_bytes_be(prime_q);
    let private = rsa::RsaPrivateKey::from_components(
        rsa::BigUint::from_bytes_be(modulus),
        rsa::BigUint::from_bytes_be(public_exponent),
        rsa::BigUint::from_bytes_be(private_exponent),
        vec![p, q],
    )?;
    private.decrypt(rsa::Pkcs1v15Encrypt, ciphertext)
}

/// Calls `RsaPublicKey::new_unchecked` and `EncodePublicKey::to_public_key_der`
/// of the rsa crate. The result depends on modulus and exponent alone; the
/// contract gives it its name and says no more.
#[verifier::external_body]
fn public_key_to_der(modulus: &Vec<u8>, public_exponent: &Vec<u8>) -> (r: Result<
    Vec<u8>,
    rsa::pkcs8::spki::Error,
>)
    ensures
        r matches Ok(der) ==> rsa_public_key_der(modulus@, public_exponent@) == Some(der@),
        r is Err ==> rsa_public_key_der(modulus@, public_exponent@) is None,
{
    let public = rsa::RsaPublicKey::new_unchecked(
        rsa::BigUint::from_bytes_be(modulus),
        rsa::BigUint::from_bytes_be(public_exponent),
    );
    let document = rsa::pkcs8::EncodePublicKey::to_public_key_der(&public)?;
    Ok(document.into_vec())
}

/// The key pair of the server, each number in big-endian bytes. Its two
/// primes are balanced.
#[derive(Debug)]
pub struct ServerEncryption {
    modulus: Vec<u8>,
    public_exponent: Vec<u8>,
    private_exponent: Vec<u8>,
    prime_p: Vec<u8>,
    prime_q: Vec<u8>,
}

/// What a key pair holds.
pub struct KeyView {
    pub modulus: Seq<u8>,
    pub public_exponent: Seq<u8>,
    pub private_exponent: Seq<u8>,
    pub prime_p: Seq<u8>,
    pub prime_q: Seq<u8>,
}

impl View for ServerEncryption {
    type V = KeyView;

    closed spec fn view(&self) -> KeyView {
        KeyView {
            modulus: self.modulus@,
            public_exponent: self.public_exponent@,
            private_exponent: self.private_exponent@,
            prime_p: self.prime_p@,
            prime_q: self.prime_q@,
        }
    }
}

impl ServerEncryption {
    #[verifier::type_invariant]
    spec fn balanced(&self) -> bool {
        primes_balanced(self.prime_p@, self.prime_q@)
    }

    /// What decrypting `ciphertext` under this key gives.
    pub open spec fn decrypted(&self, ciphertext: Seq<u8>) -> Option<Seq<u8>> {
        rsa_pkcs1v15_decrypt(
            self@.modulus,
            self@.public_exponent,
            self@.private_exponent,
            self@.prime_p,
            self@.prime_q,
            ciphertext,
        )
    }

    /// The DER export of the public half of this key.
    pub open spec fn public_der(&self) -> Option<Seq<u8>> {
        rsa_public_key_der(self@.modulus, self@.public_exponent)
    }

    /// A key pair from its components, where the two primes are balanced.
    pub fn new(
        modulus: Vec<u8>,
        public_exponent: Vec<u8>,
        private_exponent: Vec<u8>,
        prime_p: Vec<u8>,
        prime_q: Vec<u8>,
    ) -> (r: Option<Self>)
        ensures
            r is Some <==> primes_balanced(prime_p@, prime_q@),
            r matches Some(key) ==> key@ == (KeyView {
                modulus: modulus@,
                public_exponent: public_exponent@,
                private_exponent: private_exponent@,
                prime_p: prime_p@,
                prime_q: prime_q@,
            }),
    {
        if prime_p.len() != prime_q.len() || prime_p.len() == 0 {
            return None;
        }
        if prime_p[0] == 0 || prime_q[0] == 0 {
            return None;
        }
        Some(ServerEncryption { modulus, public_exponent, private_exponent, prime_p, prime_q })
    }

    /// The modulus of the key pair.
    pub fn modulus(&self) -> (r: &Vec<u8>)
        ensures
            r@ == self@.modulus,
    {
        &self.modulus
    }

    /// The public exponent of the key pair.
    pub fn public_exponent(&self) -> (r: &Vec<u8>)
        ensures
            r@ == self@.public_exponent,
    {
        &self.public_exponent
    }

    /// Decrypts what a peer encrypted under the public key.
    pub fn decrypt_data(&self, data: &[u8]) -> (r: Result<Vec<u8>, rsa::Error>)
        ensures
            r matches Ok(plain) ==> self.decrypted(data@) == Some(plain@),
            r is Err ==> self.decrypted(data@) is None,
    {
        proof {
            use_type_invariant(self);
        }
        pkcs1v15_decrypt(
            &self.modulus,
            &self.public_exponent,
            &self.private_exponent,
            &self.prime_p,
            &self.prime_q,
            data,
        )
    }

    /// The public key as a DER-encoded SubjectPublicKeyInfo, fit to be sent
    /// to a peer as it is.
    pub fn export_public_key(&self) -> (r: Result<Vec<u8>, rsa::pkcs8::spki::Error>)
        ensures
            r matches Ok(der) ==> self.public_der() == Some(der@),
            r is Err ==> self.public_der() is None,
    {
        public_key_to_der(&self.modulus, &self.public_exponent)
    }
}

} // verus!
