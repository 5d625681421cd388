//! Validators, their voting power and proposer priority, and the set they
//! form.
use vstd::arithmetic::div_mod::{lemma_div_by_multiple, lemma_div_is_ordered, lemma_div_denominator, lemma_fundamental_div_mod, lemma_hoist_over_denominator};
use vstd::arithmetic::mul::lemma_mul_inequality;
use vstd::prelude::*;

use crate::bytes::{bytes_eq, copy_bytes, hex_ascii};
use crate::crypto::hex_encode;
use crate::error::ConsensusError;

verus! {

/// One validator. Times are milliseconds since the Unix epoch.
#[derive(Debug)]
pub struct Validator {
    pub address: Vec<u8>,
    pub pub_key: Vec<u8>,
    pub voting_power: u64,
    pub proposer_priority: i64,
    pub jailed_until: Option<i64>,
    pub accumulated_slashes: u32,
    pub last_height: u64,
    pub last_round: u32,
}

/// What a validator holds, as plain values.
pub struct ValidatorView {
    pub address: Seq<u8>,
    pub pub_key: Seq<u8>,
    pub voting_power: u64,
    pub proposer_priority: i64,
    pub jailed_until: Option<i64>,
    pub accumulated_slashes: u32,
    pub last_height: u64,
    pub last_round: u32,
}

impl View for Validator {
    type V = ValidatorView;

    open spec fn view(&self) -> ValidatorView {
        ValidatorView {
            address: self.address@,
            pub_key: self.pub_key@,
            voting_power: self.voting_power,
            proposer_priority: self.proposer_priority,
            jailed_until: self.jailed_until,
            accumulated_slashes: self.accumulated_slashes,
            last_height: self.last_height,
            last_round: self.last_round,
        }
    }
}

/// A change to the validator set.
#[derive(Debug)]
pub enum ValidatorUpdate {
    Add { pub_key: Vec<u8>, voting_power: u64 },
    Remove { pub_key: Vec<u8> },
    UpdateVotingPower { pub_key: Vec<u8>, voting_power: u64 },
}

/// The validators in order, their total voting power, the cached proposer
/// and the height and round the set was last used at.
#[derive(Debug)]
pub struct ValidatorSet {
    pub validators: Vec<Validator>,
    pub total_voting_power: u64,
    pub proposer: Option<Validator>,
    pub last_height: u64,
    pub last_round: u32,
}

/// A fresh validator: no priority, never jailed, never slashed.
pub open spec fn fresh_validator(pub_key: Seq<u8>, voting_power: u64, last_height: u64, last_round: u32) -> ValidatorView {
    ValidatorView {
        address: hex_ascii(pub_key),
        pub_key,
        voting_power,
        proposer_priority: 0,
        jailed_until: None,
        accumulated_slashes: 0,
        last_height,
        last_round,
    }
}

/// The sum of the voting powers.
pub open spec fn sum_power(vals: Seq<ValidatorView>) -> nat
    decreases vals.len(),
{
    if vals.len() == 0 {
        0
    } else {
        sum_power(vals.drop_last()) + vals.last().voting_power as nat
    }
}

/// Whether some validator has the key.
pub open spec fn has_validator(vals: Seq<ValidatorView>, pub_key: Seq<u8>) -> bool {
    exists|i: int| 0 <= i < vals.len() && (#[trigger] vals[i]).pub_key == pub_key
}

/// The position of the validator with the key, when there is one.
pub open spec fn validator_index(vals: Seq<ValidatorView>, pub_key: Seq<u8>) -> int {
    choose|i: int| 0 <= i < vals.len() && (#[trigger] vals[i]).pub_key == pub_key
}

/// No key appears twice.
pub open spec fn keys_unique(vals: Seq<ValidatorView>) -> bool {
    forall|i: int, j: int|
        0 <= i < vals.len() && 0 <= j < vals.len() && i != j ==> (#[trigger] vals[i]).pub_key
            != (#[trigger] vals[j]).pub_key
}

/// The keys of `keys`, each kept at its first occurrence.
pub open spec fn dedup_keys(keys: Seq<Seq<u8>>) -> Seq<Seq<u8>>
    decreases keys.len(),
{
    if keys.len() == 0 {
        seq![]
    } else {
        let init = dedup_keys(keys.drop_last());
        if init.contains(keys.last()) {
            init
        } else {
            init.push(keys.last())
        }
    }
}

/// The validators after one update. `Add` of a known key is dropped;
/// `Remove` and `UpdateVotingPower` of an unknown key change nothing.
pub open spec fn apply_update(
    vals: Seq<ValidatorView>,
    u: ValidatorUpdate,
    last_height: u64,
    last_round: u32,
) -> Seq<ValidatorView> {
    match u {
        ValidatorUpdate::Add { pub_key, voting_power } => {
            if has_validator(vals, pub_key@) {
                vals
            } else {
                vals.push(fresh_validator(pub_key@, voting_power, last_height, last_round))
            }
        },
        ValidatorUpdate::Remove { pub_key } => {
            if has_validator(vals, pub_key@) {
                vals.remove(validator_index(vals, pub_key@))
            } else {
                vals
            }
        },
        ValidatorUpdate::UpdateVotingPower { pub_key, voting_power } => {
            if has_validator(vals, pub_key@) {
                let i = validator_index(vals, pub_key@);
                vals.update(i, ValidatorView { voting_power, ..vals[i] })
            } else {
                vals
            }
        },
    }
}

/// The validators after a sequence of updates, in order.
pub open spec fn apply_all(
    vals: Seq<ValidatorView>,
    us: Seq<ValidatorUpdate>,
    last_height: u64,
    last_round: u32,
) -> Seq<ValidatorView>
    decreases us.len(),
{
    if us.len() == 0 {
        vals
    } else {
        apply_update(apply_all(vals, us.drop_last(), last_height, last_round), us.last(), last_height, last_round)
    }
}

/// Whether the validator is jailed at time `t`.
pub open spec fn jailed_at(v: ValidatorView, t: i64) -> bool {
    match v.jailed_until {
        Some(until) => until > t,
        None => false,
    }
}

/// The proposer priority of a validator: `(voting_power / total) * 1000`
/// scaled by the performance factor (0 while jailed; one half once ever
/// jailed; `1 / (1 + 0.2 * accumulated_slashes)`; `1 + voting_power / 100`),
/// computed exactly and truncated, capped at `i64::MAX`. Over integers this
/// is `vp * 50 * (100 + vp) / (total * j * (5 + slashes))` with `j` 2 once
/// ever jailed, else 1.
pub open spec fn priority_of(v: ValidatorView, total: nat, now: i64) -> int {
    if jailed_at(v, now) {
        0
    } else {
        let vp = v.voting_power as int;
        let j: int = if v.jailed_until is Some { 2 } else { 1 };
        let q = (vp * 50 * (100 + vp)) / (total * j * (5 + v.accumulated_slashes));
        if q > i64::MAX {
            i64::MAX as int
        } else {
            q
        }
    }
}

/// The order in which a proposer is chosen: priority, then voting power.
pub open spec fn ranks_above(a: ValidatorView, b: ValidatorView) -> bool {
    a.proposer_priority > b.proposer_priority || (a.proposer_priority == b.proposer_priority
        && a.voting_power > b.voting_power)
}

/// `r` is the proposer of `vals`: no validator ranks above it, and among
/// equals the last in the vector wins.
pub open spec fn is_proposer_index(vals: Seq<ValidatorView>, r: int) -> bool {
    &&& 0 <= r < vals.len()
    &&& forall|j: int| 0 <= j < vals.len() ==> !ranks_above(#[trigger] vals[j], vals[r])
    &&& forall|j: int| r < j < vals.len() ==> ranks_above(vals[r], #[trigger] vals[j])
}

/// Proposer determinism: the proposer of a validator sequence is unique, so
/// nodes that hold the same validators, with the same jail and slash
/// history (and so the same priorities), select the same one.
pub proof fn lemma_proposer_unique(vals: Seq<ValidatorView>, r1: int, r2: int)
    requires
        is_proposer_index(vals, r1),
        is_proposer_index(vals, r2),
    ensures
        r1 == r2,
{
    if r1 < r2 {
        assert(ranks_above(vals[r1], vals[r2]));
    } else if r2 < r1 {
        assert(ranks_above(vals[r2], vals[r1]));
    }
}

/// Voting-power integrity: in every well-formed set, which every operation
/// on the set keeps, the total is the sum of the voting powers.
pub proof fn lemma_total_is_sum(vs: &ValidatorSet)
    requires
        vs.wf(),
    ensures
        vs.total_voting_power == sum_power(vs.vals()),
{
}

/// Every voting power is at most the sum.
pub proof fn lemma_power_le_sum(vals: Seq<ValidatorView>, i: int)
    requires
        0 <= i < vals.len(),
    ensures
        vals[i].voting_power <= sum_power(vals),
    decreases vals.len(),
{
    if i < vals.len() - 1 {
        lemma_power_le_sum(vals.drop_last(), i);
    }
}

/// Changing one voting power changes the sum by the difference.
pub proof fn lemma_sum_update(vals: Seq<ValidatorView>, i: int, v: ValidatorView)
    requires
        0 <= i < vals.len(),
    ensures
        sum_power(vals.update(i, v)) == sum_power(vals) - vals[i].voting_power + v.voting_power,
    decreases vals.len(),
{
    if i < vals.len() - 1 {
        lemma_sum_update(vals.drop_last(), i, v);
        assert(vals.update(i, v).drop_last() =~= vals.drop_last().update(i, v));
    } else {
        assert(vals.update(i, v).drop_last() =~= vals.drop_last());
    }
}

/// Removing a validator takes its voting power off the sum.
pub proof fn lemma_sum_remove(vals: Seq<ValidatorView>, i: int)
    requires
        0 <= i < vals.len(),
    ensures
        sum_power(vals.remove(i)) == sum_power(vals) - vals[i].voting_power,
    decreases vals.len(),
{
    if i < vals.len() - 1 {
        lemma_sum_remove(vals.drop_last(), i);
        assert(vals.remove(i).drop_last() =~= vals.drop_last().remove(i));
    } else {
        assert(vals.remove(i) =~= vals.drop_last());
    }
}

/// Sums of sequences that agree on voting power agree.
proof fn lemma_sum_same_powers(a: Seq<ValidatorView>, b: Seq<ValidatorView>)
    requires
        a.len() == b.len(),
        forall|i: int| 0 <= i < a.len() ==> (#[trigger] a[i]).voting_power == b[i].voting_power,
    ensures
        sum_power(a) == sum_power(b),
    decreases a.len(),
{
    if a.len() > 0 {
        lemma_sum_same_powers(a.drop_last(), b.drop_last());
    }
}

/// The priority `priority_of` gives, computed without overflow.
pub fn priority_value(v: &Validator, total: u64, now: i64) -> (r: i64)
    requires
        total > 0,
        v.voting_power <= total,
    ensures
        r == priority_of(v@, total as nat, now),
{
    if let Some(until) = v.jailed_until {
        if until > now {
            return 0;
        }
    }
    let vp = v.voting_power as u128;
    let t = total as u128;
    let j: u128 = if v.jailed_until.is_some() { 2 } else { 1 };
    let d: u128 = j * (5 + v.accumulated_slashes as u128);
    let m: u128 = 50 * (100 + vp);
    let qm = m / t;
    let rm = m % t;
    proof {
        lemma_fundamental_div_mod(m as int, t as int);
        lemma_mul_inequality(rm as int, t as int, vp as int);
        lemma_mul_inequality(t as int, 0x1_0000_0000_0000_0000int, vp as int);
        lemma_mul_inequality(vp as int, t as int, qm as int);
        lemma_mul_inequality(qm as int * t as int, m as int, 1);
        assert(qm * t <= m) by (nonlinear_arith)
            requires
                m == t * qm + rm,
                rm >= 0,
        ;
        assert(rm * vp < 0x1_0000_0000_0000_0000_0000_0000_0000_0000int) by (nonlinear_arith)
            requires
                rm < t,
                t < 0x1_0000_0000_0000_0000int,
                vp < 0x1_0000_0000_0000_0000int,
                rm >= 0,
                vp >= 0,
        ;
        assert(qm * vp <= m) by (nonlinear_arith)
            requires
                qm * t <= m,
                vp <= t,
                qm >= 0,
        ;
    }
    proof {
        lemma_mul_inequality(rm as int, t as int, vp as int);
        lemma_div_is_ordered(rm * vp, t * vp, t as int);
        lemma_div_by_multiple(vp as int, t as int);
        assert(t * vp == vp * t) by (nonlinear_arith);
    }
    // floor(vp * m / total) without forming vp * m
    let q1: u128 = qm * vp + (rm * vp) / t;
    let q: u128 = q1 / d;
    proof {
        let vpi = vp as int;
        let ti = t as int;
        assert(vpi * m == (rm * vpi) + (qm * vpi) * ti) by (nonlinear_arith)
            requires
                m == ti * qm + rm,
        ;
        lemma_hoist_over_denominator(rm * vpi, qm * vpi, ti as nat);
        assert(q1 == (vpi * m) / ti);
        lemma_div_denominator(vpi * m, ti, d as int);
        assert(vpi * m == vpi * 50 * (100 + vpi)) by (nonlinear_arith)
            requires
                m == 50 * (100 + vpi),
        ;
        assert(ti * d == ti * j * (5 + v.accumulated_slashes)) by (nonlinear_arith)
            requires
                d == j * (5 + v.accumulated_slashes),
        ;
    }
    if q > i64::MAX as u128 {
        i64::MAX
    } else {
        q as i64
    }
}

impl Validator {
    /// A copy of the validator.
    pub fn duplicate(&self) -> (r: Validator)
        ensures
            r@ == self@,
    {
        Validator {
            address: copy_bytes(&self.address),
            pub_key: copy_bytes(&self.pub_key),
            voting_power: self.voting_power,
            proposer_priority: self.proposer_priority,
            jailed_until: self.jailed_until,
            accumulated_slashes: self.accumulated_slashes,
            last_height: self.last_height,
            last_round: self.last_round,
        }
    }

    /// A fresh validator whose address is the hex of its key.
    pub fn fresh(pub_key: &[u8], voting_power: u64, last_height: u64, last_round: u32) -> (r: Validator)
        ensures
            r@ == fresh_validator(pub_key@, voting_power, last_height, last_round),
    {
        Validator {
            address: hex_encode(pub_key),
            pub_key: copy_bytes(pub_key),
            voting_power,
            proposer_priority: 0,
            jailed_until: None,
            accumulated_slashes: 0,
            last_height,
            last_round,
        }
    }
}

/// The views of a vector of validators.
pub open spec fn views(vs: Seq<Validator>) -> Seq<ValidatorView> {
    Seq::new(vs.len(), |i: int| vs[i]@)
}

/// A copy of the validators.
fn duplicate_all(vs: &Vec<Validator>) -> (r: Vec<Validator>)
    ensures
        views(r@) == views(vs@),
{
    let mut r: Vec<Validator> = Vec::new();
    let mut i: usize = 0;
    while i < vs.len()
        invariant
            0 <= i <= vs@.len(),
            r@.len() == i,
            forall|j: int| 0 <= j < i ==> (#[trigger] r@[j])@ == vs@[j]@,
        decreases vs@.len() - i,
    {
        r.push(vs[i].duplicate());
        i = i + 1;
    }
    assert(views(r@) =~= views(vs@));
    r
}

/// The position of the validator with the key, if any.
fn find_in(vs: &Vec<Validator>, pub_key: &[u8]) -> (r: Option<usize>)
    ensures
        r is Some <==> has_validator(views(vs@), pub_key@),
        r is Some ==> r->Some_0 < vs@.len() && vs@[r->Some_0 as int].pub_key@ == pub_key@,
{
    let mut i: usize = 0;
    while i < vs.len()
        invariant
            0 <= i <= vs@.len(),
            forall|j: int| 0 <= j < i ==> (#[trigger] vs@[j]).pub_key@ != pub_key@,
        decreases vs@.len() - i,
    {
        if bytes_eq(&vs[i].pub_key, pub_key) {
            assert(views(vs@)[i as int].pub_key == pub_key@);
            return Some(i);
        }
        i = i + 1;
    }
    proof {
        if has_validator(views(vs@), pub_key@) {
            let k = choose|k: int| 0 <= k < views(vs@).len() && (#[trigger] views(vs@)[k]).pub_key == pub_key@;
            assert(vs@[k].pub_key@ == pub_key@);
        }
    }
    None
}

/// The one position holding a key, when keys are unique.
proof fn lemma_index_unique(vals: Seq<ValidatorView>, pub_key: Seq<u8>, i: int)
    requires
        keys_unique(vals),
        0 <= i < vals.len(),
        vals[i].pub_key == pub_key,
    ensures
        has_validator(vals, pub_key),
        validator_index(vals, pub_key) == i,
{
    assert(has_validator(vals, pub_key));
    let k = validator_index(vals, pub_key);
    assert(vals[k].pub_key == pub_key);
}

impl ValidatorSet {
    /// The validators as plain values.
    pub open spec fn vals(&self) -> Seq<ValidatorView> {
        views(self.validators@)
    }

    /// The set's invariant: the total is the sum of the voting powers, and no
    /// key appears twice.
    pub open spec fn wf(&self) -> bool {
        &&& self.total_voting_power == sum_power(self.vals())
        &&& keys_unique(self.vals())
    }

    /// A genesis set: each distinct key once, in order of first occurrence,
    /// with voting power 1.
    pub fn new(validators: Vec<Vec<u8>>) -> (r: ValidatorSet)
        ensures
            r.wf(),
            r.vals() == Seq::new(
                dedup_keys(validators@.map_values(|k: Vec<u8>| k@)).len(),
                |i: int| fresh_validator(dedup_keys(validators@.map_values(|k: Vec<u8>| k@))[i], 1, 0, 0),
            ),
            r.proposer is None,
            r.last_height == 0,
            r.last_round == 0,
    {
        let ghost keys = validators@.map_values(|k: Vec<u8>| k@);
        let mut vs: Vec<Validator> = Vec::new();
        let mut total: u64 = 0;
        let mut i: usize = 0;
        while i < validators.len()
            invariant
                0 <= i <= validators@.len(),
                keys == validators@.map_values(|k: Vec<u8>| k@),
                views(vs@) == Seq::new(
                    dedup_keys(keys.subrange(0, i as int)).len(),
                    |k: int| fresh_validator(dedup_keys(keys.subrange(0, i as int))[k], 1, 0, 0),
                ),
                keys_unique(views(vs@)),
                total == sum_power(views(vs@)),
                total as int == vs@.len(),
                vs@.len() <= i,
            decreases validators@.len() - i,
        {
            let ghost before = views(vs@);
            let ghost d = dedup_keys(keys.subrange(0, i as int));
            assert(keys.subrange(0, i + 1).drop_last() =~= keys.subrange(0, i as int));
            assert(keys.subrange(0, i + 1).last() == validators@[i as int]@);
            match find_in(&vs, &validators[i]) {
                Some(_) => {
                    proof {
                        let k = choose|k: int| 0 <= k < before.len() && (#[trigger] before[k]).pub_key == validators@[i as int]@;
                        assert(d[k] == validators@[i as int]@);
                        assert(d.contains(validators@[i as int]@));
                        assert(dedup_keys(keys.subrange(0, i + 1)) == d);
                    }
                },
                None => {
                    proof {
                        if d.contains(validators@[i as int]@) {
                            let k = choose|k: int| 0 <= k < d.len() && d[k] == validators@[i as int]@;
                            assert(before[k].pub_key == validators@[i as int]@);
                        }
                    }
                    assert(dedup_keys(keys.subrange(0, i + 1)) == d.push(validators@[i as int]@));
                    vs.push(Validator::fresh(&validators[i], 1, 0, 0));
                    total = total + 1;
                    assert(views(vs@) =~= before.push(fresh_validator(validators@[i as int]@, 1, 0, 0)));
                    assert(views(vs@).drop_last() =~= before);
                    assert(views(vs@) =~= Seq::new(
                        dedup_keys(keys.subrange(0, i + 1)).len(),
                        |k: int| fresh_validator(dedup_keys(keys.subrange(0, i + 1))[k], 1, 0, 0),
                    ));
                },
            }
            i = i + 1;
        }
        assert(keys.subrange(0, i as int) =~= keys);
        ValidatorSet { validators: vs, total_voting_power: total, proposer: None, last_height: 0, last_round: 0 }
    }

    /// The position of the validator with the key, if any.
    pub fn index_of(&self, pub_key: &[u8]) -> (r: Option<usize>)
        requires
            self.wf(),
        ensures
            r is Some <==> has_validator(self.vals(), pub_key@),
            r is Some ==> r->Some_0 == validator_index(self.vals(), pub_key@),
            r is Some ==> r->Some_0 < self.vals().len(),
    {
        let r = find_in(&self.validators, pub_key);
        proof {
            if r is Some {
                lemma_index_unique(self.vals(), pub_key@, r->Some_0 as int);
            }
        }
        r
    }

    /// Whether a validator with the key belongs to the set.
    pub fn contains(&self, pub_key: &[u8]) -> (r: bool)
        requires
            self.wf(),
        ensures
            r == has_validator(self.vals(), pub_key@),
    {
        self.index_of(pub_key).is_some()
    }

    /// The voting power of the validator with the key; 0 for an unknown key.
    pub fn power_of(&self, pub_key: &[u8]) -> (r: u64)
        requires
            self.wf(),
        ensures
            r == (if has_validator(self.vals(), pub_key@) {
                self.vals()[validator_index(self.vals(), pub_key@)].voting_power
            } else {
                0
            }),
    {
        match self.index_of(pub_key) {
            Some(i) => self.validators[i].voting_power,
            None => 0,
        }
    }

    /// The sum of the voting powers, or `None` when it exceeds `u64`.
    fn checked_total(vs: &Vec<Validator>) -> (r: Option<u64>)
        ensures
            r is Some <==> sum_power(views(vs@)) <= u64::MAX,
            r is Some ==> r->Some_0 == sum_power(views(vs@)),
    {
        let mut total: u64 = 0;
        let mut i: usize = 0;
        while i < vs.len()
            invariant
                0 <= i <= vs@.len(),
                total == sum_power(views(vs@).subrange(0, i as int)),
            decreases vs@.len() - i,
        {
            assert(views(vs@).subrange(0, i + 1).drop_last() =~= views(vs@).subrange(0, i as int));
            if vs[i].voting_power > u64::MAX - total {
                proof {
                    lemma_sum_prefix_le(views(vs@), i + 1);
                }
                return None;
            }
            total = total + vs[i].voting_power;
            i = i + 1;
        }
        assert(views(vs@).subrange(0, i as int) =~= views(vs@));
        Some(total)
    }

    /// Applies the updates in order (`Add` of a known key is dropped,
    /// `Remove` takes the validator out, `UpdateVotingPower` sets its power),
    /// recomputes the total and then the proposer priorities. Fails with
    /// `InvalidVotingPower`, changing nothing, when the new total exceeds
    /// `u64`; with `InvalidState` when it is zero (the updates then stand).
    pub fn apply_updates(&mut self, updates: &Vec<ValidatorUpdate>, now: i64) -> (r: Result<(), ConsensusError>)
        requires
            old(self).wf(),
        ensures
            final(self).wf(),
            ({
                let after = apply_all(old(self).vals(), updates@, old(self).last_height, old(self).last_round);
                &&& sum_power(after) > u64::MAX ==> r is Err && r->Err_0 is InvalidVotingPower
                    && final(self).vals() == old(self).vals()
                &&& sum_power(after) == 0 ==> r is Err && r->Err_0 is InvalidState
                    && final(self).vals() == after
                &&& 0 < sum_power(after) <= u64::MAX ==> r is Ok && final(self).vals()
                    == with_priorities(after, sum_power(after), now)
                    && final(self).proposer_is_selected()
            }),
            final(self).last_height == old(self).last_height,
            final(self).last_round == old(self).last_round,
    {
        let ghost start = self.vals();
        let mut vs = duplicate_all(&self.validators);
        let lh = self.last_height;
        let lr = self.last_round;
        let ghost us = updates@;
        let mut k: usize = 0;
        assert(us.subrange(0, 0) =~= Seq::<ValidatorUpdate>::empty());
        while k < updates.len()
            invariant
                us == updates@,
                keys_unique(views(vs@)),
                views(vs@) == apply_all(start, us.subrange(0, k as int), lh, lr),
                k <= us.len(),
            decreases us.len() - k,
        {
            apply_one(&mut vs, &updates[k], lh, lr);
            assert(us.subrange(0, k + 1).drop_last() =~= us.subrange(0, k as int));
            k = k + 1;
        }
        assert(us.subrange(0, k as int) =~= us);
        match ValidatorSet::checked_total(&vs) {
            None => Err(ConsensusError::InvalidVotingPower("total voting power overflows".to_owned())),
            Some(total) => {
                self.validators = vs;
                self.total_voting_power = total;
                self.update_proposer_priority(now)
            },
        }
    }

    /// The validators with their priorities recomputed.
    pub open spec fn proposer_is_selected(&self) -> bool {
        match self.proposer {
            Some(p) => exists|r: int| is_proposer_index(self.vals(), r) && p@ == self.vals()[r],
            None => self.vals().len() == 0,
        }
    }

    /// Recomputes every proposer priority from the current total (see
    /// `priority_of`) and caches the proposer. Fails with `InvalidState`,
    /// changing nothing, when the total voting power is zero.
    pub fn update_proposer_priority(&mut self, now: i64) -> (r: Result<(), ConsensusError>)
        requires
            old(self).wf(),
        ensures
            final(self).wf(),
            old(self).total_voting_power == 0 ==> r is Err && r->Err_0 is InvalidState && *final(self)
                == *old(self),
            old(self).total_voting_power > 0 ==> r is Ok && final(self).vals() == with_priorities(
                old(self).vals(),
                old(self).total_voting_power as nat,
                now,
            ) && final(self).proposer_is_selected(),
            final(self).total_voting_power == old(self).total_voting_power,
            final(self).last_height == old(self).last_height,
            final(self).last_round == old(self).last_round,
    {
        let total = self.total_voting_power;
        if total == 0 {
            return Err(ConsensusError::InvalidState("No validators in set".to_owned()));
        }
        let ghost start = self.vals();
        let mut i: usize = 0;
        while i < self.validators.len()
            invariant
                self.total_voting_power == total,
                self.last_height == old(self).last_height,
                self.last_round == old(self).last_round,
                total == sum_power(start),
                total > 0,
                start.len() == self.vals().len(),
                0 <= i <= start.len(),
                forall|j: int| 0 <= j < i ==> #[trigger] self.vals()[j] == with_priorities(start, total as nat, now)[j],
                forall|j: int| i <= j < start.len() ==> #[trigger] self.vals()[j] == start[j],
            decreases start.len() - i,
        {
            proof {
                lemma_power_le_sum(start, i as int);
                assert(self.vals()[i as int] == start[i as int]);
            }
            let p = priority_value(&self.validators[i], total, now);
            let mut v = self.validators[i].duplicate();
            v.proposer_priority = p;
            let ghost prev = self.vals();
            self.validators.set(i, v);
            assert(self.vals() =~= prev.update(i as int, v@));
            i = i + 1;
        }
        proof {
            assert(self.vals() =~= with_priorities(start, total as nat, now));
            lemma_sum_same_powers(self.vals(), start);
            assert forall|a: int, b: int|
                0 <= a < self.vals().len() && 0 <= b < self.vals().len() && a != b implies (#[trigger] self.vals()[a]).pub_key
                    != (#[trigger] self.vals()[b]).pub_key by {
                assert(start[a].pub_key != start[b].pub_key);
            }
        }
        match self.select_proposer() {
            Some(idx) => {
                self.proposer = Some(self.validators[idx].duplicate());
            },
            None => {
                self.proposer = None;
            },
        }
        Ok(())
    }

    /// The position of the proposer: the validator with the greatest
    /// `(proposer_priority, voting_power)`, the last one among equals.
    /// `None` only for an empty set.
    pub fn select_proposer(&self) -> (r: Option<usize>)
        ensures
            r is None <==> self.vals().len() == 0,
            r is Some ==> is_proposer_index(self.vals(), r->Some_0 as int),
    {
        if self.validators.len() == 0 {
            return None;
        }
        let ghost vals = self.vals();
        let mut best: usize = 0;
        let mut j: usize = 1;
        while j < self.validators.len()
            invariant
                vals == self.vals(),
                1 <= j <= vals.len(),
                best < j,
                forall|k: int| 0 <= k < j ==> !ranks_above(#[trigger] vals[k], vals[best as int]),
                forall|k: int| best < k < j ==> ranks_above(vals[best as int], #[trigger] vals[k]),
            decreases vals.len() - j,
        {
            let b = &self.validators[best];
            let c = &self.validators[j];
            let above = b.proposer_priority > c.proposer_priority || (b.proposer_priority
                == c.proposer_priority && b.voting_power > c.voting_power);
            if !above {
                best = j;
            }
            j = j + 1;
        }
        Some(best)
    }
}

/// The validators with each priority set to `priority_of`.
pub open spec fn with_priorities(vals: Seq<ValidatorView>, total: nat, now: i64) -> Seq<ValidatorView> {
    Seq::new(
        vals.len(),
        |i: int| ValidatorView { proposer_priority: priority_of(vals[i], total, now) as i64, ..vals[i] },
    )
}

/// A prefix sums to no more than the whole.
proof fn lemma_sum_prefix_le(vals: Seq<ValidatorView>, k: int)
    requires
        0 <= k <= vals.len(),
    ensures
        sum_power(vals.subrange(0, k)) <= sum_power(vals),
    decreases vals.len(),
{
    if k < vals.len() {
        lemma_sum_prefix_le(vals.drop_last(), k);
        assert(vals.drop_last().subrange(0, k) =~= vals.subrange(0, k));
    } else {
        assert(vals.subrange(0, k) =~= vals);
    }
}

/// Applies one update to a vector of validators.
fn apply_one(vs: &mut Vec<Validator>, u: &ValidatorUpdate, last_height: u64, last_round: u32)
    requires
        keys_unique(views(old(vs)@)),
    ensures
        keys_unique(views(final(vs)@)),
        views(final(vs)@) == apply_update(views(old(vs)@), *u, last_height, last_round),
{
    let ghost before = views(vs@);
    match u {
        ValidatorUpdate::Add { pub_key, voting_power } => {
            if find_in(vs, pub_key).is_none() {
                vs.push(Validator::fresh(pub_key, *voting_power, last_height, last_round));
                assert(views(vs@) =~= before.push(fresh_validator(pub_key@, *voting_power, last_height, last_round)));
            }
        },
        ValidatorUpdate::Remove { pub_key } => {
            if let Some(i) = find_in(vs, pub_key) {
                proof {
                    lemma_index_unique(before, pub_key@, i as int);
                }
                vs.remove(i);
                assert(views(vs@) =~= before.remove(i as int));
            }
        },
        ValidatorUpdate::UpdateVotingPower { pub_key, voting_power } => {
            if let Some(i) = find_in(vs, pub_key) {
                proof {
                    lemma_index_unique(before, pub_key@, i as int);
                }
                let mut v = vs[i].duplicate();
                v.voting_power = *voting_power;
                vs.set(i, v);
                assert(views(vs@) =~= before.update(i as int, ValidatorView { voting_power: *voting_power, ..before[i as int] }));
            }
        },
    }
}

} // verus!
