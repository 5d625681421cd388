//! Evidence of validator misbehaviour: verification, deduplication and the
//! slashing it leads to.
use vstd::prelude::*;
use vstd::string::StringSliceAdditionalSpecFns;

use crate::bytes::{bytes_eq, copy_bytes, decimal, push_decimal};
use crate::crypto::{check_signature, signature_check};
use crate::error::ConsensusError;
use crate::validator::{
    has_validator, jailed_at, lemma_power_le_sum, lemma_sum_update, validator_index, ValidatorSet,
    ValidatorView,
};

verus! {

/// The kinds of misbehaviour.
#[derive(Debug, Clone, Copy, PartialEq, Eq, Structural)]
pub enum EvidenceType {
    DuplicateVote,
    InvalidVote,
    InvalidProposal,
    InvalidCommit,
}

/// A signed report of misbehaviour by `validator` at `height`. The
/// signature is over `"{evidence_type}:{height}"`. Times are milliseconds
/// since the Unix epoch.
#[derive(Debug)]
pub struct Evidence {
    pub evidence_type: EvidenceType,
    pub validator: Vec<u8>,
    pub height: u64,
    pub round: u32,
    pub timestamp: i64,
    pub signature: Vec<u8>,
}

/// The penalty for one kind of evidence. Durations are in milliseconds.
#[derive(Debug, Clone, Copy)]
pub struct SlashingCondition {
    pub evidence_type: EvidenceType,
    pub slash_amount: u64,
    pub jail_duration: i64,
    pub min_evidence_count: u32,
}

/// Evidence accepted so far, in order of acceptance, evidence waiting to be
/// processed, and the greatest age (milliseconds) evidence may have.
#[derive(Debug)]
pub struct EvidencePool {
    pub evidence: Vec<Evidence>,
    pub pending_evidence: Vec<Evidence>,
    pub max_evidence_age: i64,
}

/// What identifies a piece of evidence in the accepted pool.
pub type EvidenceKey = (EvidenceType, Seq<u8>, u64);

/// What a piece of evidence holds, as plain values.
pub struct EvidenceView {
    pub evidence_type: EvidenceType,
    pub validator: Seq<u8>,
    pub height: u64,
    pub round: u32,
    pub timestamp: i64,
    pub signature: Seq<u8>,
}

impl View for Evidence {
    type V = EvidenceView;

    open spec fn view(&self) -> EvidenceView {
        EvidenceView {
            evidence_type: self.evidence_type,
            validator: self.validator@,
            height: self.height,
            round: self.round,
            timestamp: self.timestamp,
            signature: self.signature@,
        }
    }
}

pub open spec fn evidence_key(e: EvidenceView) -> EvidenceKey {
    (e.evidence_type, e.validator, e.height)
}

/// The views of a vector of evidence.
pub open spec fn evidence_views(es: Seq<Evidence>) -> Seq<EvidenceView> {
    Seq::new(es.len(), |i: int| es[i]@)
}

/// The name of an evidence type, as it appears in signed messages.
pub open spec fn kind_name(t: EvidenceType) -> Seq<u8> {
    match t {
        EvidenceType::DuplicateVote => "DuplicateVote".spec_bytes(),
        EvidenceType::InvalidVote => "InvalidVote".spec_bytes(),
        EvidenceType::InvalidProposal => "InvalidProposal".spec_bytes(),
        EvidenceType::InvalidCommit => "InvalidCommit".spec_bytes(),
    }
}

/// `"{evidence_type}:{height}"`, the bytes evidence is signed over.
pub open spec fn evidence_message(t: EvidenceType, height: u64) -> Seq<u8> {
    kind_name(t) + seq![58u8] + decimal(height as nat)
}

/// Whether accepted evidence already holds this `(type, validator, height)`.
pub open spec fn already_accepted(accepted: Seq<EvidenceView>, e: EvidenceView) -> bool {
    exists|i: int| 0 <= i < accepted.len() && evidence_key(#[trigger] accepted[i]) == evidence_key(e)
}

/// Whether evidence passes verification at time `now`: it is young enough,
/// names a validator of the set that was not jailed at its timestamp, is
/// validly signed by it (a malformed signature fails this check) and is new.
pub open spec fn evidence_verdict(
    accepted: Seq<EvidenceView>,
    max_age: i64,
    vals: Seq<ValidatorView>,
    e: EvidenceView,
    now: i64,
) -> bool {
    &&& now - e.timestamp <= max_age
    &&& has_validator(vals, e.validator)
    &&& !jailed_at(vals[validator_index(vals, e.validator)], e.timestamp)
    &&& signature_check(e.validator, evidence_message(e.evidence_type, e.height), e.signature) == Some(true)
    &&& !already_accepted(accepted, e)
}

/// `now + d`, held within `i64`.
pub open spec fn clamp_add(now: i64, d: i64) -> i64 {
    if now + d > i64::MAX {
        i64::MAX
    } else if now + d < i64::MIN {
        i64::MIN
    } else {
        (now + d) as i64
    }
}

/// A validator after a slash: one more slash, voting power reduced by the
/// amount (not below zero), jailed until `now + jail_duration`.
pub open spec fn slashed(v: ValidatorView, c: SlashingCondition, now: i64) -> ValidatorView {
    ValidatorView {
        accumulated_slashes: if v.accumulated_slashes == u32::MAX {
            u32::MAX
        } else {
            (v.accumulated_slashes + 1) as u32
        },
        voting_power: if v.voting_power >= c.slash_amount {
            (v.voting_power - c.slash_amount) as u64
        } else {
            0
        },
        jailed_until: Some(clamp_add(now, c.jail_duration)),
        ..v
    }
}

/// The first condition for the evidence type, if any.
pub open spec fn condition_index(conds: Seq<SlashingCondition>, t: EvidenceType) -> int
    decreases conds.len(),
{
    if conds.len() == 0 {
        -1
    } else if conds[0].evidence_type == t {
        0
    } else {
        let rest = condition_index(conds.drop_first(), t);
        if rest < 0 {
            -1
        } else {
            rest + 1
        }
    }
}

/// The validators after the slash for `e`: the validator named by the
/// evidence is slashed by the first condition for its type; without such a
/// validator or condition nothing changes.
pub open spec fn slash_all(
    vals: Seq<ValidatorView>,
    conds: Seq<SlashingCondition>,
    e: EvidenceView,
    now: i64,
) -> Seq<ValidatorView> {
    let c = condition_index(conds, e.evidence_type);
    if has_validator(vals, e.validator) && c >= 0 {
        let i = validator_index(vals, e.validator);
        vals.update(i, slashed(vals[i], conds[c], now))
    } else {
        vals
    }
}

/// The default penalties: 1000 and 24 h for duplicate votes (counted from
/// two pieces), 5000 and 72 h for invalid votes (from one).
pub open spec fn default_conditions() -> Seq<SlashingCondition> {
    seq![
        SlashingCondition {
            evidence_type: EvidenceType::DuplicateVote,
            slash_amount: 1000,
            jail_duration: 86_400_000,
            min_evidence_count: 2,
        },
        SlashingCondition {
            evidence_type: EvidenceType::InvalidVote,
            slash_amount: 5000,
            jail_duration: 259_200_000,
            min_evidence_count: 1,
        },
    ]
}

/// The default penalties (see `default_conditions`).
pub fn default_slashing_conditions() -> (r: Vec<SlashingCondition>)
    ensures
        r@ == default_conditions(),
        r@ == seq![
            SlashingCondition {
                evidence_type: EvidenceType::DuplicateVote,
                slash_amount: 1000,
                jail_duration: 86_400_000,
                min_evidence_count: 2,
            },
            SlashingCondition {
                evidence_type: EvidenceType::InvalidVote,
                slash_amount: 5000,
                jail_duration: 259_200_000,
                min_evidence_count: 1,
            },
        ],
{
    let r = vec![
        SlashingCondition {
            evidence_type: EvidenceType::DuplicateVote,
            slash_amount: 1000,
            jail_duration: 86_400_000,
            min_evidence_count: 2,
        },
        SlashingCondition {
            evidence_type: EvidenceType::InvalidVote,
            slash_amount: 5000,
            jail_duration: 259_200_000,
            min_evidence_count: 1,
        },
    ];
    assert(r@ =~= seq![
        SlashingCondition {
            evidence_type: EvidenceType::DuplicateVote,
            slash_amount: 1000,
            jail_duration: 86_400_000,
            min_evidence_count: 2,
        },
        SlashingCondition {
            evidence_type: EvidenceType::InvalidVote,
            slash_amount: 5000,
            jail_duration: 259_200_000,
            min_evidence_count: 1,
        },
    ]);
    r
}

/// The name of an evidence type in ASCII.
pub fn evidence_type_name(t: EvidenceType) -> (r: Vec<u8>)
    ensures
        r@ == kind_name(t),
{
    match t {
        EvidenceType::DuplicateVote => copy_bytes("DuplicateVote".as_bytes()),
        EvidenceType::InvalidVote => copy_bytes("InvalidVote".as_bytes()),
        EvidenceType::InvalidProposal => copy_bytes("InvalidProposal".as_bytes()),
        EvidenceType::InvalidCommit => copy_bytes("InvalidCommit".as_bytes()),
    }
}

/// The bytes evidence of type `t` at `height` is signed over.
pub fn build_evidence_message(t: EvidenceType, height: u64) -> (r: Vec<u8>)
    ensures
        r@ == evidence_message(t, height),
{
    let mut m = evidence_type_name(t);
    m.push(58u8);
    push_decimal(&mut m, height);
    assert(m@ =~= evidence_message(t, height));
    m
}

impl Evidence {
    /// A copy of the evidence.
    pub fn duplicate(&self) -> (r: Evidence)
        ensures
            r@ == self@,
    {
        Evidence {
            evidence_type: self.evidence_type,
            validator: copy_bytes(&self.validator),
            height: self.height,
            round: self.round,
            timestamp: self.timestamp,
            signature: copy_bytes(&self.signature),
        }
    }
}

impl EvidencePool {
    pub open spec fn accepted(&self) -> Seq<EvidenceView> {
        evidence_views(self.evidence@)
    }

    pub open spec fn pending(&self) -> Seq<EvidenceView> {
        evidence_views(self.pending_evidence@)
    }

    /// No `(type, validator, height)` appears twice among accepted evidence.
    pub open spec fn wf(&self) -> bool {
        keys_distinct(self.accepted())
    }

    /// An empty pool keeping evidence for at most 24 hours.
    pub fn new() -> (r: EvidencePool)
        ensures
            r.wf(),
            r.accepted().len() == 0,
            r.pending().len() == 0,
            r.max_evidence_age == 86_400_000,
    {
        EvidencePool { evidence: Vec::new(), pending_evidence: Vec::new(), max_evidence_age: 86_400_000 }
    }

    /// Whether evidence with the same `(type, validator, height)` was
    /// accepted.
    pub fn is_accepted(&self, e: &Evidence) -> (r: bool)
        ensures
            r == already_accepted(self.accepted(), e@),
    {
        let mut i: usize = 0;
        while i < self.evidence.len()
            invariant
                0 <= i <= self.evidence@.len(),
                forall|j: int| 0 <= j < i ==> evidence_key(#[trigger] self.accepted()[j]) != evidence_key(e@),
            decreases self.evidence@.len() - i,
        {
            let a = &self.evidence[i];
            if a.evidence_type == e.evidence_type && a.height == e.height && bytes_eq(&a.validator, &e.validator) {
                assert(evidence_key(self.accepted()[i as int]) == evidence_key(e@));
                return true;
            }
            i = i + 1;
        }
        false
    }

    /// Verifies evidence at time `now` against the validator set and the
    /// accepted pool: its age is at most `max_evidence_age`, its validator is
    /// in the set and was not jailed at the evidence's timestamp, its
    /// signature over `"{type}:{height}"` verifies, and it is new. Any
    /// failed check, a malformed signature included, gives `false`.
    pub fn verify_evidence(&self, validator_set: &ValidatorSet, e: &Evidence, now: i64) -> (r: Result<bool, ConsensusError>)
        requires
            validator_set.wf(),
        ensures
            r == Ok::<bool, ConsensusError>(
                evidence_verdict(self.accepted(), self.max_evidence_age, validator_set.vals(), e@, now),
            ),
    {
        if now as i128 - e.timestamp as i128 > self.max_evidence_age as i128 {
            return Ok(false);
        }
        let idx = match validator_set.index_of(&e.validator) {
            Some(i) => i,
            None => {
                return Ok(false);
            },
        };
        if let Some(until) = validator_set.validators[idx].jailed_until {
            if until > e.timestamp {
                return Ok(false);
            }
        }
        let message = build_evidence_message(e.evidence_type, e.height);
        match check_signature(&e.validator, &message, &e.signature) {
            None => Ok(false),
            Some(false) => Ok(false),
            Some(true) => Ok(!self.is_accepted(e)),
        }
    }

    /// Verifies and then applies each pending piece of evidence, in order,
    /// and empties the pending list. Accepted evidence slashes its validator
    /// (see `slash_all`) and joins the pool; the rest is discarded.
    pub fn process_evidence(
        &mut self,
        validator_set: &mut ValidatorSet,
        conditions: &Vec<SlashingCondition>,
        now: i64,
    )
        requires
            old(self).wf(),
            old(validator_set).wf(),
        ensures
            final(self).wf(),
            final(validator_set).wf(),
            final(self).pending().len() == 0,
            final(self).max_evidence_age == old(self).max_evidence_age,
            final(validator_set).last_height == old(validator_set).last_height,
            final(validator_set).last_round == old(validator_set).last_round,
            final(validator_set).proposer == old(validator_set).proposer,
            (final(self).accepted(), final(validator_set).vals()) == process_all(
                old(self).accepted(),
                old(self).max_evidence_age,
                old(validator_set).vals(),
                conditions@,
                old(self).pending(),
                now,
            ),
            // accepted evidence is never taken back
            old(self).accepted().len() <= final(self).accepted().len(),
            final(self).accepted().subrange(0, old(self).accepted().len() as int) == old(self).accepted(),
    {
        let ghost start_acc = self.accepted();
        let ghost start_vals = validator_set.vals();
        let ghost todo = self.pending();
        let mut pending: Vec<Evidence> = Vec::new();
        core::mem::swap(&mut pending, &mut self.pending_evidence);
        assert(self.pending() =~= Seq::<EvidenceView>::empty());
        assert(evidence_views(pending@) == todo);
        let mut k: usize = 0;
        assert(todo.subrange(0, 0) =~= Seq::<EvidenceView>::empty());
        while k < pending.len()
            invariant
                self.wf(),
                validator_set.wf(),
                evidence_views(pending@) == todo,
                0 <= k <= todo.len(),
                self.pending().len() == 0,
                self.max_evidence_age == old(self).max_evidence_age,
                validator_set.last_height == old(validator_set).last_height,
                validator_set.last_round == old(validator_set).last_round,
                validator_set.proposer == old(validator_set).proposer,
                (self.accepted(), validator_set.vals()) == process_all(
                    start_acc,
                    self.max_evidence_age,
                    start_vals,
                    conditions@,
                    todo.subrange(0, k as int),
                    now,
                ),
                start_acc.len() <= self.accepted().len(),
                self.accepted().subrange(0, start_acc.len() as int) == start_acc,
            decreases todo.len() - k,
        {
            let e = &pending[k];
            assert(todo.subrange(0, k + 1).drop_last() =~= todo.subrange(0, k as int));
            assert(todo.subrange(0, k + 1).last() == e@);
            let verdict = self.verify_evidence(validator_set, e, now);
            if let Ok(true) = verdict {
                apply_slashing_conditions(e, validator_set, conditions, now);
                let ghost before = self.accepted();
                self.evidence.push(e.duplicate());
                assert(self.accepted() =~= before.push(e@));
                proof {
                    assert forall|i: int, j: int|
                        0 <= i < self.accepted().len() && 0 <= j < self.accepted().len() && i != j
                            implies evidence_key(#[trigger] self.accepted()[i]) != evidence_key(
                            #[trigger] self.accepted()[j],
                        ) by {
                        if i == before.len() {
                            assert(!already_accepted(before, e@));
                            assert(evidence_key(before[j]) != evidence_key(e@));
                        } else if j == before.len() {
                            assert(!already_accepted(before, e@));
                            assert(evidence_key(before[i]) != evidence_key(e@));
                        }
                    }
                    assert(self.accepted().subrange(0, start_acc.len() as int) =~= before.subrange(
                        0,
                        start_acc.len() as int,
                    ));
                }
            }
            k = k + 1;
        }
        assert(todo.subrange(0, k as int) =~= todo);
    }
}

/// The accepted evidence and validators after processing `todo` in order at
/// time `now`.
pub open spec fn process_all(
    accepted: Seq<EvidenceView>,
    max_age: i64,
    vals: Seq<ValidatorView>,
    conds: Seq<SlashingCondition>,
    todo: Seq<EvidenceView>,
    now: i64,
) -> (Seq<EvidenceView>, Seq<ValidatorView>)
    decreases todo.len(),
{
    if todo.len() == 0 {
        (accepted, vals)
    } else {
        let (acc, vs) = process_all(accepted, max_age, vals, conds, todo.drop_last(), now);
        let e = todo.last();
        if evidence_verdict(acc, max_age, vs, e, now) {
            (acc.push(e), slash_all(vs, conds, e, now))
        } else {
            (acc, vs)
        }
    }
}

/// The first condition for the evidence type, if any.
fn find_condition(conditions: &Vec<SlashingCondition>, t: EvidenceType) -> (r: Option<usize>)
    ensures
        condition_index(conditions@, t) < conditions@.len(),
        r is None <==> condition_index(conditions@, t) < 0,
        r is Some ==> r->Some_0 == condition_index(conditions@, t),
{
    let mut i: usize = 0;
    assert(conditions@.skip(0) =~= conditions@);
    while i < conditions.len()
        invariant
            0 <= i <= conditions@.len(),
            forall|j: int| 0 <= j < i ==> (#[trigger] conditions@[j]).evidence_type != t,
            condition_index(conditions@, t) == (if condition_index(conditions@.skip(i as int), t) < 0 {
                -1
            } else {
                condition_index(conditions@.skip(i as int), t) + i
            }),
        decreases conditions@.len() - i,
    {
        assert(conditions@.skip(i as int).drop_first() =~= conditions@.skip(i + 1));
        if conditions[i].evidence_type == t {
            proof {
                lemma_condition_index_bound(conditions@, t);
            }
            return Some(i);
        }
        i = i + 1;
    }
    proof {
        lemma_condition_index_bound(conditions@, t);
    }
    None
}

proof fn lemma_condition_index_bound(conds: Seq<SlashingCondition>, t: EvidenceType)
    ensures
        -1 <= condition_index(conds, t) < conds.len(),
    decreases conds.len(),
{
    if conds.len() > 0 {
        lemma_condition_index_bound(conds.drop_first(), t);
    }
}

/// Slashes the validator named by `e` by the first condition for its type:
/// one more slash, voting power down by the amount (not below zero), jailed
/// until `now` plus the jail duration; the total follows.
pub fn apply_slashing_conditions(
    e: &Evidence,
    validator_set: &mut ValidatorSet,
    conditions: &Vec<SlashingCondition>,
    now: i64,
)
    requires
        old(validator_set).wf(),
    ensures
        final(validator_set).wf(),
        final(validator_set).vals() == slash_all(old(validator_set).vals(), conditions@, e@, now),
        final(validator_set).last_height == old(validator_set).last_height,
        final(validator_set).last_round == old(validator_set).last_round,
        final(validator_set).proposer == old(validator_set).proposer,
{
    let idx = match validator_set.index_of(&e.validator) {
        Some(i) => i,
        None => {
            return;
        },
    };
    let c = match find_condition(conditions, e.evidence_type) {
        Some(c) => c,
        None => {
            return;
        },
    };
    let cond = conditions[c];
    let ghost vals = validator_set.vals();
    let mut v = validator_set.validators[idx].duplicate();
    let old_power = v.voting_power;
    if v.accumulated_slashes < u32::MAX {
        v.accumulated_slashes = v.accumulated_slashes + 1;
    }
    v.voting_power = v.voting_power.saturating_sub(cond.slash_amount);
    let until = now as i128 + cond.jail_duration as i128;
    v.jailed_until = Some(
        if until > i64::MAX as i128 {
            i64::MAX
        } else if until < i64::MIN as i128 {
            i64::MIN
        } else {
            until as i64
        },
    );
    proof {
        lemma_power_le_sum(vals, idx as int);
        lemma_sum_update(vals, idx as int, v@);
    }
    let new_power = v.voting_power;
    validator_set.validators.set(idx, v);
    assert(validator_set.vals() =~= vals.update(idx as int, v@));
    validator_set.total_voting_power = validator_set.total_voting_power - (old_power - new_power);
    proof {
        assert forall|a: int, b: int|
            0 <= a < validator_set.vals().len() && 0 <= b < validator_set.vals().len() && a != b
                implies (#[trigger] validator_set.vals()[a]).pub_key != (#[trigger] validator_set.vals()[b]).pub_key by {
            assert(vals[a].pub_key != vals[b].pub_key);
        }
    }
}

/// No `(type, validator, height)` appears twice.
pub open spec fn keys_distinct(es: Seq<EvidenceView>) -> bool {
    forall|i: int, j: int|
        0 <= i < es.len() && 0 <= j < es.len() && i != j ==> evidence_key(#[trigger] es[i]) != evidence_key(
            #[trigger] es[j],
        )
}

/// Evidence monotonicity: processing pending evidence only appends to the
/// accepted evidence, so accepted evidence is never taken back, and it never
/// admits a second piece with the same `(type, validator, height)`.
pub proof fn lemma_evidence_monotone(
    accepted: Seq<EvidenceView>,
    max_age: i64,
    vals: Seq<ValidatorView>,
    conds: Seq<SlashingCondition>,
    todo: Seq<EvidenceView>,
    now: i64,
)
    requires
        keys_distinct(accepted),
    ensures
        accepted.len() <= process_all(accepted, max_age, vals, conds, todo, now).0.len(),
        process_all(accepted, max_age, vals, conds, todo, now).0.subrange(0, accepted.len() as int) == accepted,
        keys_distinct(process_all(accepted, max_age, vals, conds, todo, now).0),
    decreases todo.len(),
{
    if todo.len() > 0 {
        lemma_evidence_monotone(accepted, max_age, vals, conds, todo.drop_last(), now);
        let (acc, vs) = process_all(accepted, max_age, vals, conds, todo.drop_last(), now);
        let e = todo.last();
        if evidence_verdict(acc, max_age, vs, e, now) {
            let out = acc.push(e);
            assert(!already_accepted(acc, e));
            assert(out.subrange(0, accepted.len() as int) =~= acc.subrange(0, accepted.len() as int));
            assert forall|i: int, j: int| 0 <= i < out.len() && 0 <= j < out.len() && i != j implies evidence_key(
                #[trigger] out[i],
            ) != evidence_key(#[trigger] out[j]) by {
                if i == acc.len() {
                    assert(evidence_key(acc[j]) != evidence_key(e));
                } else if j == acc.len() {
                    assert(evidence_key(acc[i]) != evidence_key(e));
                }
            }
        }
    } else {
        assert(accepted.subrange(0, accepted.len() as int) =~= accepted);
    }
}

/// The evidence of `es` that is no older than `max_age` at `now`, in order.
pub open spec fn recent_only(es: Seq<EvidenceView>, max_age: i64, now: i64) -> Seq<EvidenceView>
    decreases es.len(),
{
    if es.len() == 0 {
        seq![]
    } else {
        let init = recent_only(es.drop_last(), max_age, now);
        if now - es.last().timestamp > max_age {
            init
        } else {
            init.push(es.last())
        }
    }
}

impl EvidencePool {
    /// Drops accepted evidence older than `max_evidence_age` at `now`; the
    /// rest stays in order, and pending evidence is untouched.
    pub fn prune_expired(&mut self, now: i64)
        requires
            old(self).wf(),
        ensures
            final(self).wf(),
            final(self).accepted() == recent_only(old(self).accepted(), old(self).max_evidence_age, now),
            final(self).pending() == old(self).pending(),
            final(self).max_evidence_age == old(self).max_evidence_age,
    {
        let ghost es = self.accepted();
        let mut kept: Vec<Evidence> = Vec::new();
        let ghost mut idx: Seq<int> = seq![];
        let mut i: usize = 0;
        assert(es.subrange(0, 0) =~= Seq::<EvidenceView>::empty());
        while i < self.evidence.len()
            invariant
                es == self.accepted(),
                0 <= i <= es.len(),
                evidence_views(kept@) == recent_only(es.subrange(0, i as int), self.max_evidence_age, now),
                idx.len() == kept@.len(),
                forall|k: int| 0 <= k < idx.len() ==> 0 <= #[trigger] idx[k] < i && es[idx[k]] == kept@[k]@,
                forall|a: int, b: int| 0 <= a < b < idx.len() ==> #[trigger] idx[a] < #[trigger] idx[b],
            decreases es.len() - i,
        {
            let ghost before = evidence_views(kept@);
            assert(es.subrange(0, i + 1).drop_last() =~= es.subrange(0, i as int));
            assert(es.subrange(0, i + 1).last() == es[i as int]);
            let e = &self.evidence[i];
            if !(now as i128 - e.timestamp as i128 > self.max_evidence_age as i128) {
                kept.push(e.duplicate());
                proof {
                    idx = idx.push(i as int);
                }
                assert(evidence_views(kept@) =~= before.push(es[i as int]));
            }
            i = i + 1;
        }
        assert(es.subrange(0, i as int) =~= es);
        proof {
            let ks = evidence_views(kept@);
            assert forall|a: int, b: int| 0 <= a < ks.len() && 0 <= b < ks.len() && a != b implies evidence_key(
                #[trigger] ks[a],
            ) != evidence_key(#[trigger] ks[b]) by {
                assert(ks[a] == es[idx[a]] && ks[b] == es[idx[b]]);
                if a < b {
                    assert(idx[a] < idx[b]);
                } else {
                    assert(idx[b] < idx[a]);
                }
            }
        }
        self.evidence = kept;
    }
}

} // verus!
