use vstd::prelude::*;

verus! {

/// A gas limit: finite, or unlimited.
#[derive(Clone, Copy, Debug, PartialEq, Eq, Structural)]
pub enum Gas {
    Infinite,
    Finite(u64),
}

#[derive(Clone, Copy, Debug, PartialEq, Eq, Structural)]
pub enum GasMeteringErrors {
    /// The charge would take the meter past its limit.
    ErrorOutOfGas,
    /// The charge does not fit the integer domain.
    ErrorGasOverflow,
}

/// The outcome of charging `amount` to a meter that has consumed `consumed` of `limit`.
pub open spec fn charge(consumed: nat, limit: Gas, amount: nat) -> Result<nat, GasMeteringErrors> {
    if consumed + amount > u64::MAX {
        Err(GasMeteringErrors::ErrorGasOverflow)
    } else {
        match limit {
            Gas::Finite(l) => if consumed + amount > l {
                Err(GasMeteringErrors::ErrorOutOfGas)
            } else {
                Ok(consumed + amount)
            },
            Gas::Infinite => Ok(consumed + amount),
        }
    }
}

/// Charges a sequence of amounts in order, stopping at the first that fails: the consumed
/// total at the end, and the position of the failing charge if one failed.
pub open spec fn charge_all(consumed: nat, limit: Gas, cs: Seq<u64>) -> (nat, Option<nat>)
    decreases cs.len(),
{
    if cs.len() == 0 {
        (consumed, None)
    } else {
        match charge(consumed, limit, cs[0] as nat) {
            Ok(c) => {
                let rest = charge_all(c, limit, cs.drop_first());
                (
                    rest.0,
                    match rest.1 {
                        Some(i) => Some(i + 1),
                        None => None,
                    },
                )
            },
            Err(_) => (consumed, Some(0)),
        }
    }
}

/// The sum of a sequence of charges.
pub open spec fn total(cs: Seq<u64>) -> nat
    decreases cs.len(),
{
    if cs.len() == 0 {
        0
    } else {
        cs[0] as nat + total(cs.drop_first())
    }
}

proof fn lemma_prefix_step(cs: Seq<u64>, i: int)
    requires
        0 <= i < cs.len(),
    ensures
        total(cs.subrange(0, i + 1)) == cs[0] as nat + total(cs.drop_first().subrange(0, i)),
{
    assert(cs.subrange(0, i + 1).drop_first() =~= cs.drop_first().subrange(0, i));
}

proof fn lemma_charge_all_from(c: nat, l: u64, cs: Seq<u64>)
    requires
        c <= l,
    ensures
        ({
            let (f, fail) = charge_all(c, Gas::Finite(l), cs);
            &&& fail is None <==> (forall|i: int|
                0 <= i <= cs.len() ==> c + #[trigger] total(cs.subrange(0, i)) <= l)
            &&& fail is None ==> f == c + total(cs)
            &&& fail matches Some(j) ==> {
                &&& j < cs.len()
                &&& f == c + total(cs.subrange(0, j as int))
                &&& c + total(cs.subrange(0, j as int + 1)) > l
                &&& forall|i: int| 0 <= i <= j ==> c + #[trigger] total(cs.subrange(0, i)) <= l
            }
        }),
    decreases cs.len(),
{
    assert(cs.subrange(0, 0) =~= Seq::<u64>::empty());
    if cs.len() == 0 {
        assert(cs =~= cs.subrange(0, 0));
    } else {
        let d = cs.drop_first();
        lemma_prefix_step(cs, 0);
        assert(d.subrange(0, 0) =~= Seq::<u64>::empty());
        if c + cs[0] <= l {
            let c2 = c + cs[0] as nat;
            lemma_charge_all_from(c2, l, d);
            assert forall|i: int| 0 <= i < cs.len() implies total(cs.subrange(0, i + 1)) == cs[0] as nat
                + total(d.subrange(0, i)) by {
                lemma_prefix_step(cs, i);
            }
            let (f, fail) = charge_all(c, Gas::Finite(l), cs);
            if fail is None {
                assert forall|i: int| 0 <= i <= cs.len() implies c + #[trigger] total(
                    cs.subrange(0, i),
                ) <= l by {
                    if i > 0 {
                        assert(total(cs.subrange(0, (i - 1) + 1)) == cs[0] as nat + total(
                            d.subrange(0, i - 1),
                        ));
                    }
                }
                assert(d.subrange(0, d.len() as int) =~= d);
                assert(cs.subrange(0, cs.len() as int) =~= cs);
                lemma_prefix_step(cs, cs.len() - 1);
            } else {
                let j = fail->Some_0;
                let jd = (j - 1) as nat;
                assert(total(cs.subrange(0, jd as int + 1)) == cs[0] as nat + total(d.subrange(0, jd as int)));
                assert(total(cs.subrange(0, jd as int + 2)) == cs[0] as nat + total(d.subrange(0, jd as int + 1)));
                assert forall|i: int| 0 <= i <= j implies c + #[trigger] total(cs.subrange(0, i))
                    <= l by {
                    if i > 0 {
                        assert(total(cs.subrange(0, (i - 1) + 1)) == cs[0] as nat + total(
                            d.subrange(0, i - 1),
                        ));
                    }
                }
                assert(!(c + total(cs.subrange(0, j as int + 1)) <= l));
            }
        } else {
            assert(c + total(cs.subrange(0, 1)) > l);
        }
    }
}

/// A finite meter that starts empty: a sequence of charges all succeeds exactly when every
/// running total stays within the limit; otherwise the first charge that takes the running
/// total past the limit fails, and the meter holds the sum of the charges before it.
pub proof fn lemma_charge_sequence(l: u64, cs: Seq<u64>)
    ensures
        ({
            let (f, fail) = charge_all(0, Gas::Finite(l), cs);
            &&& fail is None <==> (forall|i: int|
                0 <= i <= cs.len() ==> #[trigger] total(cs.subrange(0, i)) <= l)
            &&& fail is None ==> f == total(cs)
            &&& fail matches Some(j) ==> {
                &&& j < cs.len()
                &&& f == total(cs.subrange(0, j as int))
                &&& total(cs.subrange(0, j as int + 1)) > l
                &&& forall|i: int| 0 <= i <= j ==> #[trigger] total(cs.subrange(0, i)) <= l
            }
        }),
{
    lemma_charge_all_from(0, l, cs);
}

/// Tracks consumed gas against a limit.
pub struct GasMeter {
    pub limit: Gas,
    pub consumed: u64,
    /// What each successful charge was for, with its amount.
    pub log: Vec<(&'static str, u64)>,
}

impl GasMeter {
    pub open spec fn wf(&self) -> bool {
        match self.limit {
            Gas::Finite(l) => self.consumed <= l,
            Gas::Infinite => true,
        }
    }

    pub fn new(limit: Gas) -> (r: GasMeter)
        ensures
            r.wf(),
            r.limit == limit,
            r.consumed == 0,
    {
        GasMeter { limit, consumed: 0, log: Vec::new() }
    }

    pub fn gas_consumed(&self) -> (r: u64)
        ensures
            r == self.consumed,
    {
        self.consumed
    }

    /// Gas left before the limit, or `None` for an unlimited meter.
    pub fn remaining(&self) -> (r: Option<u64>)
        requires
            self.wf(),
        ensures
            match self.limit {
                Gas::Finite(l) => r == Some((l - self.consumed) as u64),
                Gas::Infinite => r is None,
            },
    {
        match self.limit {
            Gas::Finite(l) => Some(l - self.consumed),
            Gas::Infinite => None,
        }
    }

    /// Charges `amount`; on failure the consumed total is left as it was.
    pub fn consume_gas(&mut self, amount: u64, descriptor: &'static str) -> (r: Result<
        (),
        GasMeteringErrors,
    >)
        requires
            old(self).wf(),
        ensures
            final(self).wf(),
            final(self).limit == old(self).limit,
            match charge(old(self).consumed as nat, old(self).limit, amount as nat) {
                Ok(c) => r is Ok && final(self).consumed == c,
                Err(e) => r == Err::<(), GasMeteringErrors>(e) && final(self).consumed == old(
                    self,
                ).consumed,
            },
    {
        let sum = match self.consumed.checked_add(amount) {
            Some(s) => s,
            None => return Err(GasMeteringErrors::ErrorGasOverflow),
        };
        match self.limit {
            Gas::Finite(l) => {
                if sum > l {
                    return Err(GasMeteringErrors::ErrorOutOfGas);
                }
            },
            Gas::Infinite => {},
        }
        self.consumed = sum;
        self.log.push((descriptor, amount));
        Ok(())
    }
}

} // verus!
