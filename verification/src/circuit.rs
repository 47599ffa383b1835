//! The witness and public inputs of the constraint systems: the DPP condition
//! check and the trade nullifier check.
use vstd::prelude::*;

use crate::field::{half_modulus, scalar_values, Scalar};
use crate::mimc7::{mimc7, mimc7_spec, MIMC7_ROUNDS};

verus! {

/// The DPP circuit's assignment: for each of the `len` attributes, when `chk1[i]` is
/// set, the attribute must exceed the condition.
#[derive(Clone, Debug)]
pub struct DPPCircuit {
    /// the attributes (public input)
    pub attr: Option<Vec<Scalar>>,
    /// the conditions (constants)
    pub cond: Option<Vec<Scalar>>,
    /// which conditions are checked (witness)
    pub chk1: Option<Vec<bool>>,
    /// the number of attributes
    pub len: usize,
}

/// The earlier form of the DPP circuit, with the conditions as public input.
#[derive(Clone, Debug)]
pub struct Circuit {
    /// the attributes (witness)
    pub attr: Option<Vec<Scalar>>,
    /// the conditions (public input)
    pub cond: Option<Vec<Scalar>>,
    /// which conditions are checked (witness)
    pub chk1: Option<Vec<bool>>,
    /// the number of attributes
    pub len: usize,
}

/// The trade circuit's assignment: the nullifier must be the MiMC7 hash of the old
/// commitment under the secret key.
#[derive(Clone, Debug)]
pub struct TradeCircuit {
    /// the attributes (public input)
    pub attr: Option<Vec<Scalar>>,
    /// the secret key (witness)
    pub sk_s: Option<Scalar>,
    /// the old commitment (witness)
    pub cm_old: Option<Scalar>,
    /// the nullifier (constant)
    pub nf: Scalar,
    /// the number of attributes
    pub len: usize,
    /// the MiMC7 round constants
    pub round_keys: Vec<Scalar>,
}

/// A vector of `len` zero scalars.
fn zero_scalars(len: usize) -> (r: Vec<Scalar>)
    ensures
        r@.len() == len,
        forall|i: int| 0 <= i < len ==> (#[trigger] r@[i])@ == 0,
{
    let mut v: Vec<Scalar> = Vec::new();
    let mut i: usize = 0;
    while i < len
        invariant
            i <= len,
            v@.len() == i,
            forall|j: int| 0 <= j < i ==> (#[trigger] v@[j])@ == 0,
        decreases len - i,
    {
        v.push(Scalar::zero());
        i = i + 1;
    }
    v
}

/// A vector of `len` copies of `false`.
fn false_flags(len: usize) -> (r: Vec<bool>)
    ensures
        r@ == Seq::new(len as nat, |i: int| false),
{
    let mut v: Vec<bool> = Vec::new();
    let mut i: usize = 0;
    while i < len
        invariant
            i <= len,
            v@ == Seq::new(i as nat, |j: int| false),
        decreases len - i,
    {
        v.push(false);
        i = i + 1;
    }
    v
}

impl DPPCircuit {
    /// The circuit with a full assignment.
    pub fn new(attr: Vec<Scalar>, cond: Vec<Scalar>, chk1: Vec<bool>, len: usize) -> (c: DPPCircuit)
        ensures
            c.attr == Some(attr),
            c.cond == Some(cond),
            c.chk1 == Some(chk1),
            c.len == len,
    {
        DPPCircuit { attr: Some(attr), cond: Some(cond), chk1: Some(chk1), len }
    }

    /// The circuit used for setup: zero attributes, no checked condition.
    pub fn mock(len: usize, cond: Vec<Scalar>) -> (c: DPPCircuit)
        ensures
            c.attr matches Some(a) && a@.len() == len && forall|i: int|
                0 <= i < len ==> (#[trigger] a@[i])@ == 0,
            c.cond == Some(cond),
            c.chk1 matches Some(k) && k@ == Seq::new(len as nat, |i: int| false),
            c.len == len,
    {
        DPPCircuit {
            attr: Some(zero_scalars(len)),
            cond: Some(cond),
            chk1: Some(false_flags(len)),
            len,
        }
    }
}

impl Circuit {
    /// The circuit with a full assignment.
    pub fn new(attr: Vec<Scalar>, cond: Vec<Scalar>, chk1: Vec<bool>, len: usize) -> (c: Circuit)
        ensures
            c.attr == Some(attr),
            c.cond == Some(cond),
            c.chk1 == Some(chk1),
            c.len == len,
    {
        Circuit { attr: Some(attr), cond: Some(cond), chk1: Some(chk1), len }
    }

    /// The circuit used for setup: zero attributes and conditions, no checked condition.
    pub fn mock(len: usize) -> (c: Circuit)
        ensures
            c.attr matches Some(a) && a@.len() == len && forall|i: int|
                0 <= i < len ==> (#[trigger] a@[i])@ == 0,
            c.cond matches Some(b) && b@.len() == len && forall|i: int|
                0 <= i < len ==> (#[trigger] b@[i])@ == 0,
            c.chk1 matches Some(k) && k@ == Seq::new(len as nat, |i: int| false),
            c.len == len,
    {
        Circuit {
            attr: Some(zero_scalars(len)),
            cond: Some(zero_scalars(len)),
            chk1: Some(false_flags(len)),
            len,
        }
    }
}

impl TradeCircuit {
    /// The circuit with a full assignment and the given round constants.
    pub fn new(
        attr: Vec<Scalar>,
        sk_s: Scalar,
        cm_old: Scalar,
        nf: Scalar,
        len: usize,
        round_keys: Vec<Scalar>,
    ) -> (c: TradeCircuit)
        requires
            round_keys@.len() >= MIMC7_ROUNDS,
        ensures
            c.attr == Some(attr),
            c.sk_s == Some(sk_s),
            c.cm_old == Some(cm_old),
            c.nf == nf,
            c.len == len,
            c.round_keys == round_keys,
    {
        TradeCircuit { attr: Some(attr), sk_s: Some(sk_s), cm_old: Some(cm_old), nf, len, round_keys }
    }

    /// The circuit used for setup: zero attributes, secret and old commitment.
    pub fn mock(len: usize, nf: Scalar, round_keys: Vec<Scalar>) -> (c: TradeCircuit)
        requires
            round_keys@.len() >= MIMC7_ROUNDS,
        ensures
            c.attr matches Some(a) && a@.len() == len && forall|i: int|
                0 <= i < len ==> (#[trigger] a@[i])@ == 0,
            c.sk_s matches Some(s) && s@ == 0,
            c.cm_old matches Some(s) && s@ == 0,
            c.nf == nf,
            c.len == len,
            c.round_keys == round_keys,
    {
        TradeCircuit {
            attr: Some(zero_scalars(len)),
            sk_s: Some(Scalar::zero()),
            cm_old: Some(Scalar::zero()),
            nf,
            len,
            round_keys,
        }
    }
}

impl TradeCircuit {
    /// Whether the assignment meets the circuit's constraint: the nullifier is the
    /// MiMC7 hash of the old commitment under the secret key. `None` when the
    /// attributes, the secret key or the old commitment are missing.
    pub fn is_satisfied(&self) -> (r: Option<bool>)
        requires
            self.round_keys@.len() >= MIMC7_ROUNDS,
        ensures
            r is None <==> (self.attr is None || self.sk_s is None || self.cm_old is None),
            r matches Some(b) ==> b == (self.nf@ == mimc7_spec(
                self.cm_old.unwrap()@,
                self.sk_s.unwrap()@,
                scalar_values(self.round_keys@),
            )),
    {
        if self.attr.is_none() {
            return None;
        }
        match (&self.sk_s, &self.cm_old) {
            (Some(sk), Some(cm)) => {
                let h = mimc7(cm, sk, &self.round_keys);
                Some(h.same_value(&self.nf))
            },
            _ => None,
        }
    }
}

/// What the DPP constraints ask of the first `len` entries: every attribute and
/// condition is at most `(p - 1) / 2` (the range in which the comparison gadget
/// works), and each checked attribute exceeds its condition.
pub open spec fn checked_greater_spec(
    attr: Seq<Scalar>,
    cond: Seq<Scalar>,
    chk1: Seq<bool>,
    len: nat,
) -> bool {
    forall|i: int|
        0 <= i < len ==> {
            &&& (#[trigger] attr[i])@ <= half_modulus()
            &&& cond[i]@ <= half_modulus()
            &&& chk1[i] ==> attr[i]@ > cond[i]@
        }
}

/// Whether the first `len` entries meet `checked_greater_spec`.
fn checked_greater(attr: &Vec<Scalar>, cond: &Vec<Scalar>, chk1: &Vec<bool>, len: usize) -> (r: bool)
    requires
        attr@.len() >= len,
        cond@.len() >= len,
        chk1@.len() >= len,
    ensures
        r == checked_greater_spec(attr@, cond@, chk1@, len as nat),
{
    let mut i: usize = 0;
    while i < len
        invariant
            i <= len,
            attr@.len() >= len,
            cond@.len() >= len,
            chk1@.len() >= len,
            checked_greater_spec(attr@, cond@, chk1@, i as nat),
        decreases len - i,
    {
        let ok = attr[i].at_most_half() && cond[i].at_most_half() && (!chk1[i] || !attr[i].le_value(
            &cond[i],
        ));
        if !ok {
            assert(!({
                &&& attr@[i as int]@ <= half_modulus()
                &&& cond@[i as int]@ <= half_modulus()
                &&& chk1@[i as int] ==> attr@[i as int]@ > cond@[i as int]@
            }));
            return false;
        }
        assert forall|j: int| 0 <= j < i + 1 implies {
            &&& (#[trigger] attr@[j])@ <= half_modulus()
            &&& cond@[j]@ <= half_modulus()
            &&& chk1@[j] ==> attr@[j]@ > cond@[j]@
        } by {
            if j < i {
                assert(checked_greater_spec(attr@, cond@, chk1@, i as nat));
            }
        }
        i = i + 1;
    }
    true
}

impl DPPCircuit {
    /// Whether the assignment meets the circuit's constraints (see
    /// `checked_greater_spec`). `None` when the attributes or the checked flags are
    /// missing.
    pub fn is_satisfied(&self) -> (r: Option<bool>)
        requires
            self.attr is Some ==> self.cond is Some,
            self.attr is Some && self.chk1 is Some ==> self.attr.unwrap()@.len() >= self.len
                && self.cond.unwrap()@.len() >= self.len && self.chk1.unwrap()@.len() >= self.len,
        ensures
            r is None <==> (self.attr is None || self.chk1 is None),
            r matches Some(b) ==> b == checked_greater_spec(
                self.attr.unwrap()@,
                self.cond.unwrap()@,
                self.chk1.unwrap()@,
                self.len as nat,
            ),
            r matches Some(b) ==> (b <==> (forall|i: int|
                0 <= i < self.len ==> (#[trigger] self.attr.unwrap()@[i])@ <= half_modulus()
                    && self.cond.unwrap()@[i]@ <= half_modulus() && (self.chk1.unwrap()@[i]
                    ==> self.attr.unwrap()@[i]@ > self.cond.unwrap()@[i]@))),
    {
        match (&self.attr, &self.cond, &self.chk1) {
            (Some(attr), Some(cond), Some(chk1)) => Some(checked_greater(attr, cond, chk1, self.len)),
            _ => None,
        }
    }
}

impl Circuit {
    /// Whether the assignment meets the circuit's constraints (see
    /// `checked_greater_spec`). `None` when the attributes, the conditions or the
    /// checked flags are missing.
    pub fn is_satisfied(&self) -> (r: Option<bool>)
        requires
            self.attr is Some && self.cond is Some && self.chk1 is Some ==> self.attr.unwrap()@.len()
                >= self.len && self.cond.unwrap()@.len() >= self.len && self.chk1.unwrap()@.len()
                >= self.len,
        ensures
            r is None <==> (self.attr is None || self.cond is None || self.chk1 is None),
            r matches Some(b) ==> b == checked_greater_spec(
                self.attr.unwrap()@,
                self.cond.unwrap()@,
                self.chk1.unwrap()@,
                self.len as nat,
            ),
            r matches Some(b) ==> (b <==> (forall|i: int|
                0 <= i < self.len ==> (#[trigger] self.attr.unwrap()@[i])@ <= half_modulus()
                    && self.cond.unwrap()@[i]@ <= half_modulus() && (self.chk1.unwrap()@[i]
                    ==> self.attr.unwrap()@[i]@ > self.cond.unwrap()@[i]@))),
    {
        match (&self.attr, &self.cond, &self.chk1) {
            (Some(attr), Some(cond), Some(chk1)) => Some(checked_greater(attr, cond, chk1, self.len)),
            _ => None,
        }
    }
}

/// The assignment of `DPPCircuit::mock` meets the DPP constraints whenever every
/// condition is at most `(p - 1) / 2`: zero attributes, and no condition checked.
pub proof fn law_dpp_mock_satisfied(attr: Seq<Scalar>, cond: Seq<Scalar>, chk1: Seq<bool>, len: nat)
    requires
        attr.len() == len,
        forall|i: int| 0 <= i < len ==> (#[trigger] attr[i])@ == 0,
        chk1 == Seq::new(len, |i: int| false),
        cond.len() >= len,
        forall|i: int| 0 <= i < len ==> (#[trigger] cond[i])@ <= half_modulus(),
    ensures
        checked_greater_spec(attr, cond, chk1, len),
{
    assert forall|i: int| 0 <= i < len implies {
        &&& (#[trigger] attr[i])@ <= half_modulus()
        &&& cond[i]@ <= half_modulus()
        &&& chk1[i] ==> attr[i]@ > cond[i]@
    } by {
        assert(cond[i]@ <= half_modulus());
        assert(!chk1[i]);
    }
}

/// The DPP check asks nothing of how an unchecked attribute compares with its
/// condition: two assignments that agree on the flags and on the checked entries,
/// and whose entries all lie in the range of the comparison, are both accepted or
/// both refused.
pub proof fn law_dpp_unchecked_entries_free(
    attr: Seq<Scalar>,
    attr2: Seq<Scalar>,
    cond: Seq<Scalar>,
    cond2: Seq<Scalar>,
    chk1: Seq<bool>,
    len: nat,
)
    requires
        attr.len() >= len,
        attr2.len() >= len,
        cond.len() >= len,
        cond2.len() >= len,
        chk1.len() >= len,
        forall|i: int|
            0 <= i < len ==> (#[trigger] attr[i])@ <= half_modulus() && attr2[i]@ <= half_modulus()
                && cond[i]@ <= half_modulus() && cond2[i]@ <= half_modulus(),
        forall|i: int| 0 <= i < len && #[trigger] chk1[i] ==> attr[i] == attr2[i] && cond[i] == cond2[i],
    ensures
        checked_greater_spec(attr, cond, chk1, len) == checked_greater_spec(attr2, cond2, chk1, len),
{
    if checked_greater_spec(attr, cond, chk1, len) {
        assert forall|i: int| 0 <= i < len implies {
            &&& (#[trigger] attr2[i])@ <= half_modulus()
            &&& cond2[i]@ <= half_modulus()
            &&& chk1[i] ==> attr2[i]@ > cond2[i]@
        } by {
            assert(attr[i]@ <= half_modulus());
            if chk1[i] {
                assert(attr[i]@ > cond[i]@);
            }
        }
    }
    if checked_greater_spec(attr2, cond2, chk1, len) {
        assert forall|i: int| 0 <= i < len implies {
            &&& (#[trigger] attr[i])@ <= half_modulus()
            &&& cond[i]@ <= half_modulus()
            &&& chk1[i] ==> attr[i]@ > cond[i]@
        } by {
            assert(attr2[i]@ <= half_modulus());
            if chk1[i] {
                assert(attr2[i]@ > cond2[i]@);
            }
        }
    }
}

/// The DPP check accepts every assignment whose entries lie in the range of the
/// comparison and whose checked attributes exceed their conditions.
pub proof fn law_dpp_accepts_when_checked_exceed(
    attr: Seq<Scalar>,
    cond: Seq<Scalar>,
    chk1: Seq<bool>,
    len: nat,
)
    requires
        attr.len() >= len,
        cond.len() >= len,
        chk1.len() >= len,
        forall|i: int|
            0 <= i < len ==> (#[trigger] attr[i])@ <= half_modulus() && cond[i]@ <= half_modulus(),
        forall|i: int| 0 <= i < len && #[trigger] chk1[i] ==> attr[i]@ > cond[i]@,
    ensures
        checked_greater_spec(attr, cond, chk1, len),
{
    assert forall|i: int| 0 <= i < len implies {
        &&& (#[trigger] attr[i])@ <= half_modulus()
        &&& cond[i]@ <= half_modulus()
        &&& chk1[i] ==> attr[i]@ > cond[i]@
    } by {
        if chk1[i] {
            assert(attr[i]@ > cond[i]@);
        }
    }
}

/// The DPP check refuses an assignment with a checked attribute that does not
/// exceed its condition, and one with an entry beyond the comparison's range.
pub proof fn law_dpp_refuses(attr: Seq<Scalar>, cond: Seq<Scalar>, chk1: Seq<bool>, len: nat, i: int)
    requires
        0 <= i < len,
        (chk1[i] && attr[i]@ <= cond[i]@) || attr[i]@ > half_modulus() || cond[i]@ > half_modulus(),
    ensures
        !checked_greater_spec(attr, cond, chk1, len),
{
    if checked_greater_spec(attr, cond, chk1, len) {
        assert(attr[i]@ <= half_modulus());
    }
}

} // verus!
