//! What the oracle's word, or its silence, leads to.

use crate::clock::Timestamp;
use crate::competition::Competition;
use crate::contract::{EventAnnouncement, Outcome, Transaction};
use crate::settlement::{
    attested_outcome, current_outcome, get_current_outcome, verify_event_attestation,
    SettlementError,
};
use vstd::prelude::*;

verus! {

/// What is needed next to check for an attestation.
#[derive(Clone, Copy, PartialEq, Eq, Structural, Debug)]
pub enum AttestationNeed {
    /// The attestation is there already.
    Nothing,
    /// The oracle's event.
    Event,
}

/// What follows from the oracle's event.
#[derive(Clone, Copy, PartialEq, Eq, Structural, Debug)]
pub enum EventAnswer {
    /// The attestation was taken over.
    Attested(usize),
    /// Nothing is attested and the contract never expires.
    Silent,
    /// Nothing is attested: compare the chain's time with the contract's expiry.
    CheckExpiry(u32),
}

/// What is needed next to check for an attestation.
pub fn attestation_need(competition: &Competition) -> (need: Result<
    AttestationNeed,
    SettlementError,
>)
    ensures
        need == if competition.attestation is Some {
            Ok::<AttestationNeed, SettlementError>(AttestationNeed::Nothing)
        } else if competition.signed_contract is None {
            Err::<AttestationNeed, SettlementError>(SettlementError::NoSignedContract)
        } else {
            Ok::<AttestationNeed, SettlementError>(AttestationNeed::Event)
        },
{
    if competition.attestation.is_some() {
        return Ok(AttestationNeed::Nothing);
    }
    if competition.signed_contract.is_none() {
        return Err(SettlementError::NoSignedContract);
    }
    Ok(AttestationNeed::Event)
}

/// What the oracle's event says: an attestation is taken over if it unlocks one of the outcomes
/// that were announced, and the competition starts afresh with its errors. Without one, the
/// contract may have expired.
pub fn event_answered(competition: &mut Competition, attestation: Option<Vec<u8>>) -> (answer: Result<
    EventAnswer,
    SettlementError,
>)
    requires
        old(competition).attestation is None,
        old(competition).signed_contract is Some,
    ensures
        match attestation {
            None => {
                &&& *final(competition) == *old(competition)
                &&& answer == Ok::<EventAnswer, SettlementError>(
                    match (old(competition).signed_contract->0).params.event.expiry {
                        Some(expiry) => EventAnswer::CheckExpiry(expiry),
                        None => EventAnswer::Silent,
                    },
                )
            },
            Some(attested) => match old(competition).event_announcement {
                None => {
                    &&& *final(competition) == *old(competition)
                    &&& answer == Err::<EventAnswer, SettlementError>(
                        SettlementError::NoAnnouncement,
                    )
                },
                Some(event) => match attested_outcome(event, attested@) {
                    None => {
                        &&& *final(competition) == *old(competition)
                        &&& answer == Err::<EventAnswer, SettlementError>(
                            SettlementError::UnknownOutcome,
                        )
                    },
                    Some(index) => {
                        &&& final(competition).errors@.len() == 0
                        &&& *final(competition) == (Competition {
                            attestation: Some(attested),
                            errors: final(competition).errors,
                            ..*old(competition)
                        })
                        &&& answer == Ok::<EventAnswer, SettlementError>(
                            EventAnswer::Attested(index),
                        )
                    },
                },
            },
        },
{
    match attestation {
        None => match &competition.signed_contract {
            Some(signed_contract) => match signed_contract.params.event.expiry {
                Some(expiry) => Ok(EventAnswer::CheckExpiry(expiry)),
                None => Ok(EventAnswer::Silent),
            },
            None => Err(SettlementError::NoSignedContract),
        },
        Some(attested) => {
            let index: usize = match &competition.event_announcement {
                None => {
                    return Err(SettlementError::NoAnnouncement);
                },
                Some(event) => match verify_event_attestation(event, &attested) {
                    None => {
                        return Err(SettlementError::UnknownOutcome);
                    },
                    Some(index) => index,
                },
            };
            competition.attestation = Some(attested);
            competition.errors = Vec::new();
            Ok(EventAnswer::Attested(index))
        },
    }
}

/// What the chain's time says of a contract that expires.
#[derive(Clone, Copy, PartialEq, Eq, Structural, Debug)]
pub enum ExpiryStep {
    /// It has not expired.
    Wait,
    /// It expired, and its expiry transaction was broadcast already.
    AlreadyBroadcast,
    /// It expired: broadcast its expiry transaction.
    Broadcast,
}

/// What the chain's time says of a contract that expires at `expiry`. `has_expiry_tx` tells
/// whether the contract has a transaction for that.
pub fn expiry_step(
    competition: &Competition,
    expiry: u32,
    current_time: u64,
    has_expiry_tx: bool,
) -> (step: Result<ExpiryStep, SettlementError>)
    ensures
        step == if current_time <= expiry {
            Ok::<ExpiryStep, SettlementError>(ExpiryStep::Wait)
        } else if !has_expiry_tx {
            Err::<ExpiryStep, SettlementError>(SettlementError::NoExpiryTransaction)
        } else if competition.expiry_broadcasted_at is Some {
            Ok::<ExpiryStep, SettlementError>(ExpiryStep::AlreadyBroadcast)
        } else {
            Ok::<ExpiryStep, SettlementError>(ExpiryStep::Broadcast)
        },
{
    if current_time <= expiry as u64 {
        return Ok(ExpiryStep::Wait);
    }
    if !has_expiry_tx {
        return Err(SettlementError::NoExpiryTransaction);
    }
    if competition.expiry_broadcasted_at.is_some() {
        Ok(ExpiryStep::AlreadyBroadcast)
    } else {
        Ok(ExpiryStep::Broadcast)
    }
}

/// The expiry transaction was broadcast.
pub fn expiry_was_broadcast(competition: &mut Competition, now: Timestamp)
    ensures
        *final(competition) == (Competition {
            expiry_broadcasted_at: Some(now),
            ..*old(competition)
        }),
{
    competition.expiry_broadcasted_at = Some(now);
}

/// What is to be done for the outcome transaction.
#[derive(Clone, Copy, PartialEq, Eq, Structural, Debug)]
pub enum OutcomePlan {
    /// It was published already.
    Published,
    /// Build the transaction of the attested outcome.
    Build(usize),
}

/// What is to be done for the outcome transaction.
pub open spec fn outcome_plan(competition: Competition) -> Result<OutcomePlan, SettlementError> {
    if competition.outcome_broadcasted_at is Some && competition.outcome_transaction is Some {
        Ok(OutcomePlan::Published)
    } else if competition.attestation is None {
        Err(SettlementError::NoAttestation)
    } else if competition.signed_contract is None {
        Err(SettlementError::NoSignedContract)
    } else if competition.event_announcement is None {
        Err(SettlementError::NoAnnouncement)
    } else {
        match current_outcome(competition) {
            Err(error) => Err(error),
            Ok(Outcome::Expiry) => Err(SettlementError::UnexpectedExpiry),
            Ok(Outcome::Attestation(index)) => if index < (
            competition.event_announcement->0).locking_points@.len() {
                Ok(OutcomePlan::Build(index))
            } else {
                Err(SettlementError::InvalidOutcome)
            },
        }
    }
}

/// What is to be done for the outcome transaction.
pub fn plan_outcome_transaction(competition: &Competition) -> (plan: Result<
    OutcomePlan,
    SettlementError,
>)
    ensures
        plan == outcome_plan(*competition),
{
    if competition.outcome_broadcasted_at.is_some() && competition.outcome_transaction.is_some() {
        return Ok(OutcomePlan::Published);
    }
    if competition.attestation.is_none() {
        return Err(SettlementError::NoAttestation);
    }
    if competition.signed_contract.is_none() {
        return Err(SettlementError::NoSignedContract);
    }
    let event = match &competition.event_announcement {
        Some(event) => event,
        None => {
            return Err(SettlementError::NoAnnouncement);
        },
    };
    match get_current_outcome(competition) {
        Err(error) => Err(error),
        Ok(Outcome::Expiry) => Err(SettlementError::UnexpectedExpiry),
        Ok(Outcome::Attestation(index)) => if is_valid_outcome(event, index) {
            Ok(OutcomePlan::Build(index))
        } else {
            Err(SettlementError::InvalidOutcome)
        },
    }
}

/// The outcome is one of those that were announced.
pub fn is_valid_outcome(event: &EventAnnouncement, index: usize) -> (valid: bool)
    ensures
        valid == (index < event.locking_points@.len()),
{
    index < event.locking_points.len()
}

/// What follows once the outcome transaction is built.
#[derive(Clone, Copy, PartialEq, Eq, Structural, Debug)]
pub enum OutcomeStep {
    /// Broadcast it.
    Broadcast,
    /// It was broadcast before; compare the chain's time with the event's expiry.
    CheckExpiry(u32),
    /// It was broadcast before, and the event never expires.
    Done,
}

/// The outcome transaction is built: it is kept before it is broadcast, so that a broadcast whose
/// answer is lost can be repeated.
pub fn outcome_was_built(competition: &mut Competition, outcome_tx: Transaction) -> (step:
    OutcomeStep)
    ensures
        ({
            let kept = Competition {
                outcome_transaction: Some(outcome_tx),
                ..*old(competition)
            };
            if old(competition).outcome_broadcasted_at is None {
                *final(competition) == kept && step == OutcomeStep::Broadcast
            } else {
                match old(competition).event_announcement {
                    Some(event) if event.expiry is Some => *final(competition) == kept && step
                        == OutcomeStep::CheckExpiry(event.expiry->0),
                    _ => {
                        &&& step == OutcomeStep::Done
                        &&& final(competition).errors@.len() == 0
                        &&& *final(competition) == (Competition {
                            errors: final(competition).errors,
                            ..kept
                        })
                    },
                }
            }
        }),
{
    competition.outcome_transaction = Some(outcome_tx);
    if competition.outcome_broadcasted_at.is_none() {
        return OutcomeStep::Broadcast;
    }
    if let Some(event) = &competition.event_announcement {
        if let Some(expiry) = event.expiry {
            return OutcomeStep::CheckExpiry(expiry);
        }
    }
    competition.errors = Vec::new();
    OutcomeStep::Done
}

/// The outcome transaction was broadcast.
pub fn outcome_was_broadcast(competition: &mut Competition, now: Timestamp)
    ensures
        final(competition).errors@.len() == 0,
        *final(competition) == (Competition {
            outcome_broadcasted_at: Some(now),
            errors: final(competition).errors,
            ..*old(competition)
        }),
{
    competition.outcome_broadcasted_at = Some(now);
    competition.errors = Vec::new();
}

} // verus!
