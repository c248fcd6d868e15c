use vstd::prelude::*;

use crate::address::{prefix_len, AccAddress};
use crate::coin::UnsignedCoin;

verus! {

/// Big-endian bytes of the low `n` bytes of `x`.
pub open spec fn be_bytes(x: nat, n: nat) -> Seq<u8>
    decreases n,
{
    if n == 0 {
        Seq::empty()
    } else {
        be_bytes(x / 256, (n - 1) as nat).push((x % 256) as u8)
    }
}

pub proof fn lemma_be_bytes_len(x: nat, n: nat)
    ensures
        be_bytes(x, n).len() == n,
    decreases n,
{
    if n > 0 {
        lemma_be_bytes_len(x / 256, (n - 1) as nat);
    }
}

/// The low `n` bytes of `x`, most significant first.
pub fn u64_to_be_bytes(x: u64, n: usize) -> (r: Vec<u8>)
    ensures
        r@ == be_bytes(x as nat, n as nat),
    decreases n,
{
    if n == 0 {
        Vec::new()
    } else {
        let mut v = u64_to_be_bytes(x / 256, n - 1);
        v.push((x % 256) as u8);
        v
    }
}

/// A set of coins, sorted by denomination, none of them zero.
#[derive(Clone, Debug, PartialEq, Eq)]
pub struct SendCoins {
    pub coins: Vec<UnsignedCoin>,
}

/// A deposit towards a governance proposal.
#[derive(Clone, Debug, PartialEq, Eq)]
pub struct Deposit {
    pub proposal_id: u64,
    pub depositor: AccAddress,
    pub amount: SendCoins,
}

pub const DEPOSIT_KEY_PREFIX: u8 = 0x10;

pub const DEPOSIT_TYPE_URL: &'static str = "/cosmos.gov.v1beta1/MsgDeposit";

/// The store key of a deposit: prefix, proposal id in big-endian order, then the
/// length-prefixed depositor.
pub open spec fn deposit_key(proposal_id: u64, depositor: Seq<u8>) -> Seq<u8> {
    seq![DEPOSIT_KEY_PREFIX] + be_bytes(proposal_id as nat, 8) + prefix_len(depositor)
}

impl Deposit {
    pub fn key(proposal_id: u64, depositor: &AccAddress) -> (r: Vec<u8>)
        requires
            depositor.wf(),
        ensures
            r@ == deposit_key(proposal_id, depositor.bytes@),
    {
        let mut out: Vec<u8> = Vec::new();
        out.push(DEPOSIT_KEY_PREFIX);
        let id = u64_to_be_bytes(proposal_id, 8);
        proof {
            lemma_be_bytes_len(proposal_id as nat, 8);
        }
        let addr = depositor.prefix_len_bytes();
        let mut i: usize = 0;
        while i < 8
            invariant
                i <= 8,
                id@.len() == 8,
                out@ == seq![DEPOSIT_KEY_PREFIX] + id@.subrange(0, i as int),
            decreases 8 - i,
        {
            out.push(id[i]);
            proof {
                assert(seq![DEPOSIT_KEY_PREFIX] + id@.subrange(0, i + 1) =~= (seq![DEPOSIT_KEY_PREFIX]
                    + id@.subrange(0, i as int)).push(id@[i as int]));
            }
            i = i + 1;
        }
        let mut j: usize = 0;
        while j < addr.len()
            invariant
                j <= addr@.len(),
                out@ == seq![DEPOSIT_KEY_PREFIX] + id@ + addr@.subrange(0, j as int),
            decreases addr@.len() - j,
        {
            out.push(addr[j]);
            proof {
                assert(seq![DEPOSIT_KEY_PREFIX] + id@ + addr@.subrange(0, j + 1) =~= (seq![
                    DEPOSIT_KEY_PREFIX,
                ] + id@ + addr@.subrange(0, j as int)).push(addr@[j as int]));
            }
            j = j + 1;
        }
        proof {
            assert(id@.subrange(0, 8) =~= id@);
            assert(addr@.subrange(0, j as int) =~= addr@);
        }
        out
    }

    /// The account that signs a deposit: its depositor.
    pub fn get_signers(&self) -> (r: Vec<&AccAddress>)
        ensures
            r@.len() == 1,
            *r@[0] == self.depositor,
    {
        let mut v: Vec<&AccAddress> = Vec::new();
        v.push(&self.depositor);
        v
    }

    pub fn validate_basic(&self) -> (r: Result<(), String>)
        ensures
            r is Ok,
    {
        Ok(())
    }

    pub fn type_url(&self) -> (r: &'static str)
        ensures
            r@ == DEPOSIT_TYPE_URL@,
    {
        DEPOSIT_TYPE_URL
    }
}

} // verus!
