use vstd::prelude::*;

use crate::sorted_map::copy_bytes;

verus! {

/// Longest address, in bytes.
pub const MAX_ADDR_LEN: usize = 255;

pub open spec fn valid_address_bytes(b: Seq<u8>) -> bool {
    0 < b.len() <= 255
}

/// The address prefixed by its length byte.
pub open spec fn prefix_len(b: Seq<u8>) -> Seq<u8> {
    seq![b.len() as u8] + b
}

/// Copies `b` behind its length byte.
fn length_prefixed(b: &Vec<u8>) -> (r: Vec<u8>)
    requires
        valid_address_bytes(b@),
    ensures
        r@ == prefix_len(b@),
{
    let mut r: Vec<u8> = Vec::new();
    r.push(b.len() as u8);
    let mut i: usize = 0;
    while i < b.len()
        invariant
            i <= b@.len(),
            valid_address_bytes(b@),
            r@ == seq![b@.len() as u8] + b@.subrange(0, i as int),
        decreases b@.len() - i,
    {
        r.push(b[i]);
        proof {
            assert(b@.subrange(0, i + 1) =~= b@.subrange(0, i as int).push(b[i as int]));
            assert(seq![b@.len() as u8] + b@.subrange(0, i + 1) =~= (seq![b@.len() as u8]
                + b@.subrange(0, i as int)).push(b[i as int]));
        }
        i = i + 1;
    }
    proof {
        assert(b@.subrange(0, i as int) =~= b@);
    }
    r
}

/// Why bytes are not an address.
#[derive(Clone, Copy, Debug, PartialEq, Eq, Structural)]
pub enum AddressError {
    Empty,
    TooLong,
}

/// An account address: 1 to 255 raw bytes.
#[derive(Clone, Debug, PartialEq, Eq)]
pub struct AccAddress {
    pub bytes: Vec<u8>,
}

/// A validator operator address: 1 to 255 raw bytes.
#[derive(Clone, Debug, PartialEq, Eq)]
pub struct ValAddress {
    pub bytes: Vec<u8>,
}

/// A consensus address: 1 to 255 raw bytes.
#[derive(Clone, Debug, PartialEq, Eq)]
pub struct ConsAddress {
    pub bytes: Vec<u8>,
}

pub fn check_address_bytes(b: &Vec<u8>) -> (r: Result<(), AddressError>)
    ensures
        r is Ok <==> valid_address_bytes(b@),
        b@.len() == 0 ==> r == Err::<(), AddressError>(AddressError::Empty),
        b@.len() > 255 ==> r == Err::<(), AddressError>(AddressError::TooLong),
{
    if b.len() == 0 {
        Err(AddressError::Empty)
    } else if b.len() > MAX_ADDR_LEN {
        Err(AddressError::TooLong)
    } else {
        Ok(())
    }
}

impl AccAddress {
    pub open spec fn wf(&self) -> bool {
        valid_address_bytes(self.bytes@)
    }

    pub fn try_from_bytes(bytes: Vec<u8>) -> (r: Result<AccAddress, AddressError>)
        ensures
            r is Ok <==> valid_address_bytes(bytes@),
            r matches Ok(a) ==> a.bytes@ == bytes@,
    {
        match check_address_bytes(&bytes) {
            Ok(()) => Ok(AccAddress { bytes }),
            Err(e) => Err(e),
        }
    }

    pub fn len(&self) -> (r: u8)
        requires
            self.wf(),
        ensures
            r == self.bytes@.len(),
    {
        self.bytes.len() as u8
    }

    pub fn prefix_len_bytes(&self) -> (r: Vec<u8>)
        requires
            self.wf(),
        ensures
            r@ == prefix_len(self.bytes@),
    {
        length_prefixed(&self.bytes)
    }
}

impl ValAddress {
    pub open spec fn wf(&self) -> bool {
        valid_address_bytes(self.bytes@)
    }

    pub fn try_from_bytes(bytes: Vec<u8>) -> (r: Result<ValAddress, AddressError>)
        ensures
            r is Ok <==> valid_address_bytes(bytes@),
            r matches Ok(a) ==> a.bytes@ == bytes@,
    {
        match check_address_bytes(&bytes) {
            Ok(()) => Ok(ValAddress { bytes }),
            Err(e) => Err(e),
        }
    }

    /// The operator address of the account `a`: the same bytes.
    pub fn from_acc(a: &AccAddress) -> (r: ValAddress)
        ensures
            r.bytes@ == a.bytes@,
    {
        ValAddress { bytes: copy_bytes(&a.bytes) }
    }

    pub fn prefix_len_bytes(&self) -> (r: Vec<u8>)
        requires
            self.wf(),
        ensures
            r@ == prefix_len(self.bytes@),
    {
        length_prefixed(&self.bytes)
    }

    /// Reads an address written behind its length byte.
    pub fn try_from_prefix_len_bytes(b: &Vec<u8>) -> (r: Result<ValAddress, AddressError>)
        ensures
            r matches Ok(a) ==> a.wf() && prefix_len(a.bytes@) == b@,
            r is Err ==> !exists|x: Seq<u8>| valid_address_bytes(x) && prefix_len(x) == b@,
    {
        if b.len() < 2 || (b[0] as usize) != b.len() - 1 {
            proof {
                if exists|x: Seq<u8>| valid_address_bytes(x) && prefix_len(x) == b@ {
                    let x = choose|x: Seq<u8>| valid_address_bytes(x) && prefix_len(x) == b@;
                    assert(b@[0] == x.len() as u8);
                }
            }
            return Err(AddressError::Empty);
        }
        let mut bytes: Vec<u8> = Vec::new();
        let mut i: usize = 1;
        while i < b.len()
            invariant
                1 <= i <= b@.len(),
                bytes@ == b@.subrange(1, i as int),
            decreases b@.len() - i,
        {
            bytes.push(b[i]);
            proof {
                assert(b@.subrange(1, i + 1) =~= b@.subrange(1, i as int).push(b[i as int]));
            }
            i = i + 1;
        }
        proof {
            assert(prefix_len(bytes@) =~= b@);
        }
        Ok(ValAddress { bytes })
    }

    /// The UTF-8 bytes of the address's bech32 text, with the operator prefix.
    pub fn bech32_bytes(&self) -> (r: Vec<u8>)
        ensures
            r@ == bech32_text(VAL_HRP@, self.bytes@),
    {
        proof {
            reveal_strlit("cosmosvaloper");
        }
        bech32_encode(VAL_HRP, self.bytes.as_slice())
    }
}

/// Human-readable part of validator operator addresses.
pub const VAL_HRP: &'static str = "cosmosvaloper";

/// Human-readable part of account addresses.
pub const ACC_HRP: &'static str = "cosmos";

/// The UTF-8 bytes of the bech32 text of `data` under the human-readable part `hrp`.
pub uninterp spec fn bech32_text(hrp: Seq<char>, data: Seq<u8>) -> Seq<u8>;

/// Relies on bech32::encode (classic bech32 checksum): it fails only for an invalid
/// human-readable part, and the two used here are valid.
#[verifier::external_body]
fn bech32_encode(hrp: &'static str, data: &[u8]) -> (r: Vec<u8>)
    requires
        hrp@ == VAL_HRP@ || hrp@ == ACC_HRP@,
    ensures
        r@ == bech32_text(hrp@, data@),
{
    bech32::encode(hrp, bech32::ToBase32::to_base32(&data), bech32::Variant::Bech32)
        .unwrap()
        .into_bytes()
}

/// SHA-256 digest of `data`.
pub uninterp spec fn sha256_of(data: Seq<u8>) -> Seq<u8>;

/// RIPEMD-160 digest of `data`.
pub uninterp spec fn ripemd160_of(data: Seq<u8>) -> Seq<u8>;

/// Relies on sha2::Sha256: a 32-byte digest that depends on the input alone.
#[verifier::external_body]
fn sha256(data: &[u8]) -> (r: Vec<u8>)
    ensures
        r@ == sha256_of(data@),
        r@.len() == 32,
{
    <sha2::Sha256 as sha2::Digest>::digest(data).to_vec()
}

/// Relies on ripemd::Ripemd160: a 20-byte digest that depends on the input alone.
#[verifier::external_body]
fn ripemd160(data: &[u8]) -> (r: Vec<u8>)
    ensures
        r@ == ripemd160_of(data@),
        r@.len() == 20,
{
    <ripemd::Ripemd160 as ripemd::Digest>::digest(data).to_vec()
}

/// A consensus public key.
#[derive(Clone, Debug, PartialEq, Eq)]
pub enum PublicKey {
    Ed25519(Vec<u8>),
    Secp256k1(Vec<u8>),
}

/// The consensus address of a key: the first 20 bytes of the SHA-256 of an Ed25519 key, or
/// the RIPEMD-160 of the SHA-256 of a secp256k1 key.
pub open spec fn cons_address_of(k: PublicKey) -> Seq<u8> {
    match k {
        PublicKey::Ed25519(b) => sha256_of(b@).subrange(0, 20),
        PublicKey::Secp256k1(b) => ripemd160_of(sha256_of(b@)),
    }
}

impl PublicKey {
    pub fn raw(&self) -> (r: &Vec<u8>)
        ensures
            match self {
                PublicKey::Ed25519(b) => r == b,
                PublicKey::Secp256k1(b) => r == b,
            },
    {
        match self {
            PublicKey::Ed25519(value) => value,
            PublicKey::Secp256k1(value) => value,
        }
    }

    pub fn str_type(&self) -> (r: &'static str)
        ensures
            r@ == (match self {
                PublicKey::Secp256k1(_) => "secp256k1"@,
                PublicKey::Ed25519(_) => "ed25519"@,
            }),
    {
        match self {
            PublicKey::Secp256k1(_) => "secp256k1",
            PublicKey::Ed25519(_) => "ed25519",
        }
    }

    pub fn cons_address(&self) -> (r: ConsAddress)
        ensures
            r.bytes@ == cons_address_of(*self),
            r.bytes@.len() == 20,
            valid_address_bytes(r.bytes@),
    {
        match self {
            PublicKey::Ed25519(pk) => {
                let hash = sha256(pk.as_slice());
                let mut out: Vec<u8> = Vec::new();
                let mut i: usize = 0;
                while i < 20
                    invariant
                        hash@.len() == 32,
                        i <= 20,
                        out@ == hash@.subrange(0, i as int),
                    decreases 20 - i,
                {
                    out.push(hash[i]);
                    proof {
                        assert(hash@.subrange(0, i + 1) =~= hash@.subrange(0, i as int).push(
                            hash[i as int],
                        ));
                    }
                    i = i + 1;
                }
                ConsAddress { bytes: out }
            },
            PublicKey::Secp256k1(pk) => {
                let hash = sha256(pk.as_slice());
                ConsAddress { bytes: ripemd160(hash.as_slice()) }
            },
        }
    }
}

} // verus!
