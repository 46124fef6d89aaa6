//! One step of a competition's lifecycle.
//!
//! A step asks for the outside work that the competition's state calls for, one piece at a time,
//! and decides from what came of it where the competition goes. The work itself, which reads the
//! chain, the oracle or the store, is done by whoever runs the step, on the competition that the
//! status carries.

use crate::clock::Timestamp;
use crate::competition::{Competition, CompetitionError};
use crate::states::{
    Attested, AwaitingAttestation, AwaitingEscrow, AwaitingSignatures, CollectingEntries,
    CompetitionStatus, Completed, ContractCreated, Created, DeltaBroadcasted, EntriesSubmitted,
    EscrowConfirmed, EventCreated, ExpiryBroadcasted, FundingBroadcasted, FundingConfirmed,
    FundingSettled, HasCompetitionData, OutcomeBroadcasted, SigningComplete,
};
use vstd::prelude::*;

verus! {

/// How a coordinator runs its competitions.
#[derive(Debug)]
pub struct Coordinator {
    /// Tickets are paid into escrow transactions on-chain.
    pub escrow_enabled: bool,
    /// Keymeld signs the contracts for the players.
    pub keymeld_enabled: bool,
    /// Confirmations that escrow and funding transactions need.
    pub required_confirmations: u32,
    /// Confirmations of the funding transaction at which the players' invoices are settled; zero
    /// settles them when it is broadcast.
    pub invoice_settlement_confirmations: u32,
    /// The contract's relative timelock, unless the competition sets its own.
    pub relative_locktime_block_delta: u32,
    /// Winners are paid automatically.
    pub automatic_payouts: bool,
    /// The most that a contract which pays automatically may pay the miners, in satoshis per 1000
    /// weight units.
    pub automatic_payout_max_fee_rate: u64,
    /// How many errors in a row a competition outlives before it holds the pot on-chain.
    pub tolerated_errors: usize,
    /// How many of the latest errors are kept while a funded contract is being settled.
    pub kept_settlement_errors: usize,
}

/// Outside work that a step asks for.
#[derive(Clone, Copy, PartialEq, Eq, Structural, Debug)]
pub enum Work {
    /// Look up the escrow transactions' confirmations.
    CheckEscrow,
    /// Have the oracle create the event.
    SubmitEvent,
    /// Send the entries to the oracle.
    SubmitEntries,
    /// Build the contract and its funding transaction.
    CreateContract,
    /// Ask Keymeld whether every player registered.
    CheckRegistrations,
    /// Check Keymeld's roster and take its aggregate key.
    CompleteKeygen,
    /// Aggregate the players' nonces.
    AggregateNonces,
    /// Sign the contract.
    SignContract,
    /// Sign and broadcast the funding transaction.
    BroadcastFunding,
    /// Count the funding transaction's confirmations.
    CountFundingConfirmations,
    /// Settle the players' invoices.
    SettleInvoices,
    /// Look up whether the funding transaction is confirmed.
    CheckFunding,
    /// Ask the oracle for its attestation.
    CheckAttestation,
    /// Broadcast the outcome transaction.
    PublishOutcome,
    /// Broadcast the transactions that close or split the outcome.
    PublishDelta,
    /// Broadcast the transactions that reclaim what is left.
    PublishReclaims,
}

/// Why outside work went wrong.
#[derive(Debug)]
pub struct WorkError {
    pub message: String,
    /// The oracle could not be asked just now; asking again may help.
    pub transient: bool,
}

/// What came of outside work.
#[derive(Debug)]
pub enum Report {
    Done,
    /// Whether every player is registered.
    Registered(bool),
    /// The confirmations of a transaction that the chain knows.
    Confirmations(Option<u32>),
    Failed(WorkError),
}

/// What a step comes to: the status it ends with, or more work that it needs.
#[derive(Debug)]
pub enum Turn {
    Done(CompetitionStatus),
    Do(CompetitionStatus, Work),
}

/// A turn, before a failure is entered in the status.
#[derive(Debug)]
pub enum Decision {
    Become(CompetitionStatus),
    Ask(CompetitionStatus, Work),
    Fail(CompetitionStatus, CompetitionError),
}

impl Turn {
    /// The turn carries the decision out at the time `now`.
    pub open spec fn enacts(self, decision: Decision, now: Timestamp) -> bool {
        match decision {
            Decision::Become(status) => self == Turn::Done(status),
            Decision::Ask(status, work) => self == Turn::Do(status, work),
            Decision::Fail(status, error) => self matches Turn::Done(failed)
                && failed.failed_from(status, error, now),
        }
    }
}

impl Decision {
    /// Carry the decision out at the time `now`.
    pub fn enact(self, now: Timestamp) -> (turn: Turn)
        ensures
            turn.enacts(self, now),
    {
        match self {
            Decision::Become(status) => Turn::Done(status),
            Decision::Ask(status, work) => Turn::Do(status, work),
            Decision::Fail(status, error) => Turn::Done(status.fail_at(error, now)),
        }
    }

    /// The status that the decision is about.
    pub open spec fn status(self) -> CompetitionStatus {
        match self {
            Decision::Become(status) => status,
            Decision::Ask(status, _) => status,
            Decision::Fail(status, _) => status,
        }
    }
}

/// `competition` with one more error.
pub open spec fn with_error(competition: Competition, error: CompetitionError, after: Competition) -> bool {
    &&& after.errors@ == competition.errors@.push(error)
    &&& after == (Competition { errors: after.errors, ..competition })
}

/// The last `kept` of `errors`.
pub open spec fn latest(errors: Seq<CompetitionError>, kept: nat) -> Seq<CompetitionError> {
    if errors.len() <= kept {
        errors
    } else {
        errors.skip(errors.len() - kept)
    }
}

/// Add an error to those that the competition holds.
fn push_error(competition: &mut Competition, error: CompetitionError)
    ensures
        with_error(*old(competition), error, *final(competition)),
{
    competition.errors.push(error);
}

/// Add an error to those that the competition holds, and keep only the last `kept`.
fn keep_error(competition: &mut Competition, error: CompetitionError, kept: usize)
    ensures
        final(competition).errors@ == latest(
            old(competition).errors@.push(error),
            kept as nat,
        ),
        *final(competition) == (Competition {
            errors: final(competition).errors,
            ..*old(competition)
        }),
{
    competition.errors.push(error);
    let total: usize = competition.errors.len();
    if total > kept {
        competition.errors = competition.errors.split_off(total - kept);
        assert(competition.errors@ =~= latest(old(competition).errors@.push(error), kept as nat));
    }
}

impl Coordinator {
    /// Escrow transactions are in use.
    pub fn is_escrow_enabled(&self) -> (enabled: bool)
        ensures
            enabled == self.escrow_enabled,
    {
        self.escrow_enabled
    }

    /// Keymeld signs the contracts.
    pub fn is_keymeld_enabled(&self) -> (enabled: bool)
        ensures
            enabled == self.keymeld_enabled,
    {
        self.keymeld_enabled
    }

    /// What a step does first, at the time `now`: the move that needs nothing from outside, or the
    /// work that the state calls for.
    pub open spec fn opening(self, status: CompetitionStatus, now: Timestamp) -> Decision {
        match status {
            CompetitionStatus::Created(state) => if state.competition.total_entries > 0 {
                Decision::Become(
                    CompetitionStatus::CollectingEntries(CollectingEntries::of(state.competition)),
                )
            } else {
                Decision::Become(status)
            },
            CompetitionStatus::CollectingEntries(state) => if state.competition.full()
                && state.competition.all_paid() {
                if self.escrow_enabled {
                    Decision::Become(
                        CompetitionStatus::AwaitingEscrow(AwaitingEscrow::of(state.competition)),
                    )
                } else {
                    Decision::Become(state.into_escrow_confirmed_spec(now))
                }
            } else {
                Decision::Become(status)
            },
            CompetitionStatus::AwaitingEscrow(_) => Decision::Ask(status, Work::CheckEscrow),
            CompetitionStatus::EscrowConfirmed(_) => Decision::Ask(status, Work::SubmitEvent),
            CompetitionStatus::EventCreated(_) => Decision::Ask(status, Work::SubmitEntries),
            CompetitionStatus::EntriesSubmitted(_) => Decision::Ask(status, Work::CreateContract),
            CompetitionStatus::ContractCreated(state) => if self.keymeld_enabled {
                Decision::Ask(status, Work::CheckRegistrations)
            } else if state.competition.public_nonces is Some && all_nonces(state.competition) {
                Decision::Ask(status, Work::AggregateNonces)
            } else {
                Decision::Become(status)
            },
            CompetitionStatus::AwaitingSignatures(state) => if self.keymeld_enabled {
                Decision::Ask(status, Work::SignContract)
            } else if all_nonces(state.competition) {
                Decision::Ask(status, Work::AggregateNonces)
            } else {
                Decision::Become(status)
            },
            CompetitionStatus::SigningComplete(_) => Decision::Ask(status, Work::BroadcastFunding),
            CompetitionStatus::FundingBroadcasted(state) => {
                if self.invoice_settlement_confirmations == 0 {
                    if state.competition.invoices_settled_at is None {
                        Decision::Ask(status, Work::SettleInvoices)
                    } else {
                        Decision::Ask(status, Work::CheckFunding)
                    }
                } else if state.competition.funding_transaction is Some {
                    Decision::Ask(status, Work::CountFundingConfirmations)
                } else {
                    Decision::Ask(status, Work::CheckFunding)
                }
            },
            CompetitionStatus::FundingConfirmed(state) => Decision::Become(
                state.funding_settled_spec(now),
            ),
            CompetitionStatus::FundingSettled(state) => Decision::Become(
                state.await_attestation_spec(now),
            ),
            CompetitionStatus::AwaitingAttestation(_) => Decision::Ask(
                status,
                Work::CheckAttestation,
            ),
            CompetitionStatus::Attested(_) => Decision::Ask(status, Work::PublishOutcome),
            CompetitionStatus::ExpiryBroadcasted(state) => Decision::Become(
                state.completed_spec(now),
            ),
            CompetitionStatus::OutcomeBroadcasted(_) => Decision::Ask(status, Work::PublishDelta),
            CompetitionStatus::DeltaBroadcasted(_) => Decision::Ask(status, Work::PublishReclaims),
            CompetitionStatus::Completed(_)
            | CompetitionStatus::Failed(_)
            | CompetitionStatus::Cancelled(_) => Decision::Become(status),
        }
    }

    /// Start a step at the time `now`.
    pub fn process_status(&self, status: CompetitionStatus, now: Timestamp) -> (turn: Turn)
        ensures
            turn.enacts(self.opening(status, now), now),
    {
        let work = match &status {
            CompetitionStatus::AwaitingEscrow(_) => Work::CheckEscrow,
            CompetitionStatus::EscrowConfirmed(_) => Work::SubmitEvent,
            CompetitionStatus::EventCreated(_) => Work::SubmitEntries,
            CompetitionStatus::EntriesSubmitted(_) => Work::CreateContract,
            CompetitionStatus::SigningComplete(_) => Work::BroadcastFunding,
            CompetitionStatus::AwaitingAttestation(_) => Work::CheckAttestation,
            CompetitionStatus::Attested(_) => Work::PublishOutcome,
            CompetitionStatus::OutcomeBroadcasted(_) => Work::PublishDelta,
            CompetitionStatus::DeltaBroadcasted(_) => Work::PublishReclaims,
            CompetitionStatus::ContractCreated(state) => if self.keymeld_enabled {
                Work::CheckRegistrations
            } else if state.has_nonces() && state.competition.has_all_entry_nonces() {
                Work::AggregateNonces
            } else {
                return Turn::Done(status);
            },
            CompetitionStatus::AwaitingSignatures(state) => if self.keymeld_enabled {
                Work::SignContract
            } else if state.has_all_nonces() {
                Work::AggregateNonces
            } else {
                return Turn::Done(status);
            },
            CompetitionStatus::FundingBroadcasted(state) => {
                if self.invoice_settlement_confirmations == 0 {
                    // Settle as soon as the funding transaction is broadcast.
                    if state.competition.invoices_settled_at.is_none() {
                        Work::SettleInvoices
                    } else {
                        Work::CheckFunding
                    }
                } else if state.competition.funding_transaction.is_some() {
                    Work::CountFundingConfirmations
                } else {
                    Work::CheckFunding
                }
            },
            _ => return Turn::Done(self.pass_on(status, now)),
        };
        Turn::Do(status, work)
    }

    /// The states that call for no outside work, at the time `now`.
    fn pass_on(&self, status: CompetitionStatus, now: Timestamp) -> (next: CompetitionStatus)
        requires
            self.opening(status, now) is Become,
            !(status is ContractCreated),
            !(status is AwaitingSignatures),
        ensures
            self.opening(status, now) == Decision::Become(next),
    {
        match status {
            CompetitionStatus::Created(state) => if state.competition.total_entries > 0 {
                state.first_entry_added()
            } else {
                CompetitionStatus::Created(state)
            },
            CompetitionStatus::CollectingEntries(state) => if state.has_all_entries() {
                if self.escrow_enabled {
                    CompetitionStatus::AwaitingEscrow(
                        AwaitingEscrow::from_competition(state.competition),
                    )
                } else {
                    state.into_escrow_confirmed_at(now)
                }
            } else {
                CompetitionStatus::CollectingEntries(state)
            },
            CompetitionStatus::FundingConfirmed(state) => state.funding_settled_at(now),
            CompetitionStatus::FundingSettled(state) => state.await_attestation_at(now),
            CompetitionStatus::ExpiryBroadcasted(state) => state.completed_at(now),
            other => other,
        }
    }
}

/// Every player sent their nonces.
pub open spec fn all_nonces(competition: Competition) -> bool {
    competition.total_entry_nonces >= competition.event_submission.total_allowed_entries
}

/// Every player sent their partial signatures.
pub open spec fn all_signatures(competition: Competition) -> bool {
    competition.total_entry_partial_signatures
        >= competition.event_submission.total_allowed_entries
}

/// `state` holds the competition `after`, which `error` was added to, and either it fails of the
/// error or it stays to try again.
pub open spec fn tolerates(
    decision: Decision,
    before: Competition,
    error: CompetitionError,
    tolerated: usize,
    stays: spec_fn(Competition) -> CompetitionStatus,
) -> bool {
    let after = decision.status().data();
    &&& with_error(before, error, after)
    &&& if after.errors@.len() > tolerated {
        decision == Decision::Fail(stays(after), error)
    } else {
        decision == Decision::Become(stays(after))
    }
}

/// The competition stays to try again, with `error` kept among the latest.
pub open spec fn retries(
    decision: Decision,
    before: Competition,
    error: CompetitionError,
    kept: usize,
    stays: spec_fn(Competition) -> CompetitionStatus,
) -> bool {
    let after = decision.status().data();
    &&& after.errors@ == latest(before.errors@.push(error), kept as nat)
    &&& after == (Competition { errors: after.errors, ..before })
    &&& decision == Decision::Become(stays(after))
}

impl Coordinator {
    /// What follows from the report on `work`, at the time `now`. The status holds the competition
    /// as the work left it.
    pub open spec fn follows(
        self,
        status: CompetitionStatus,
        work: Work,
        report: Report,
        now: Timestamp,
        decision: Decision,
    ) -> bool {
        match status {
            CompetitionStatus::AwaitingEscrow(state) => match report {
                Report::Failed(failure) => tolerates(
                    decision,
                    state.competition,
                    CompetitionError::FailedEscrowConfirmation(failure.message),
                    self.tolerated_errors,
                    |after: Competition|
                        CompetitionStatus::AwaitingEscrow(
                            AwaitingEscrow { competition: after, ..state },
                        ),
                ),
                _ => decision == Decision::Become(
                    if state.competition.escrow_funds_confirmed_at is Some {
                        state.escrow_confirmed_spec(now)
                    } else {
                        status
                    },
                ),
            },
            CompetitionStatus::EscrowConfirmed(state) => match report {
                Report::Failed(failure) => decision == Decision::Fail(
                    status,
                    CompetitionError::FailedCreateEvent(failure.message),
                ),
                _ => decision == Decision::Become(
                    if state.competition.event_created_at is Some {
                        CompetitionStatus::EventCreated(EventCreated::of(state.competition, now))
                    } else {
                        status
                    },
                ),
            },
            CompetitionStatus::EventCreated(state) => match report {
                Report::Failed(failure) => decision == Decision::Fail(
                    status,
                    CompetitionError::FailedSubmitEntries(failure.message),
                ),
                _ => decision == Decision::Become(state.entries_submitted_spec(now)),
            },
            CompetitionStatus::EntriesSubmitted(state) => match report {
                Report::Failed(failure) => decision == Decision::Fail(
                    status,
                    CompetitionError::FailedCreateTransaction(failure.message),
                ),
                _ => decision == Decision::Become(
                    if contract_built(state.competition) {
                        state.contract_created_spec(
                            state.competition.contract_parameters->0,
                            state.competition.funding_outpoint->0,
                            state.competition.funding_psbt_base64->0,
                            now,
                        )
                    } else {
                        status
                    },
                ),
            },
            CompetitionStatus::ContractCreated(state) => match work {
                Work::CheckRegistrations => match report {
                    Report::Registered(true) => decision == Decision::Ask(
                        status,
                        Work::CompleteKeygen,
                    ),
                    _ => decision == Decision::Become(status),
                },
                Work::CompleteKeygen => match report {
                    Report::Failed(failure) => decision == Decision::Fail(
                        status,
                        CompetitionError::FailedBroadcast(failure.message),
                    ),
                    _ => decision == Decision::Become(
                        CompetitionStatus::AwaitingSignatures(
                            AwaitingSignatures::of(state.competition),
                        ),
                    ),
                },
                _ => signing_follows(status, work, report, now, decision),
            },
            CompetitionStatus::AwaitingSignatures(_) => signing_follows(
                status,
                work,
                report,
                now,
                decision,
            ),
            CompetitionStatus::SigningComplete(state) => match report {
                Report::Failed(failure) => decision == Decision::Fail(
                    status,
                    CompetitionError::FailedBroadcast(failure.message),
                ),
                _ => decision == Decision::Become(
                    match state.competition.funding_transaction {
                        Some(tx) => state.funding_broadcasted_spec(tx, now),
                        None => status,
                    },
                ),
            },
            CompetitionStatus::FundingBroadcasted(state) => match work {
                Work::CountFundingConfirmations => decision == Decision::Ask(
                    status,
                    if report matches Report::Confirmations(Some(confirmations)) && confirmations
                        >= self.invoice_settlement_confirmations
                        && state.competition.invoices_settled_at is None {
                        Work::SettleInvoices
                    } else {
                        Work::CheckFunding
                    },
                ),
                Work::SettleInvoices => decision == Decision::Ask(
                    if report is Failed {
                        status
                    } else {
                        CompetitionStatus::FundingBroadcasted(
                            FundingBroadcasted {
                                competition: Competition {
                                    invoices_settled_at: Some(now),
                                    ..state.competition
                                },
                                ..state
                            },
                        )
                    },
                    Work::CheckFunding,
                ),
                _ => match report {
                    Report::Failed(failure) => tolerates(
                        decision,
                        state.competition,
                        CompetitionError::FailedFundingConfirmation(failure.message),
                        self.tolerated_errors,
                        |after: Competition|
                            CompetitionStatus::FundingBroadcasted(
                                FundingBroadcasted { competition: after, ..state },
                            ),
                    ),
                    _ => decision == Decision::Become(
                        if state.competition.funding_confirmed_at is Some {
                            state.funding_confirmed_spec(now)
                        } else {
                            status
                        },
                    ),
                },
            },
            CompetitionStatus::AwaitingAttestation(state) => match report {
                Report::Failed(failure) => if failure.transient {
                    decision == Decision::Become(status)
                } else {
                    tolerates(
                        decision,
                        state.competition,
                        CompetitionError::FailedCheckingAttestation(failure.message),
                        self.tolerated_errors,
                        |after: Competition|
                            CompetitionStatus::AwaitingAttestation(
                                AwaitingAttestation { competition: after, ..state },
                            ),
                    )
                },
                _ => decision == Decision::Become(
                    if state.competition.attestation is Some {
                        CompetitionStatus::Attested(Attested::of(state.competition))
                    } else if state.competition.expiry_broadcasted_at is Some {
                        CompetitionStatus::ExpiryBroadcasted(
                            ExpiryBroadcasted::of(state.competition, now),
                        )
                    } else {
                        status
                    },
                ),
            },
            CompetitionStatus::Attested(state) => match report {
                Report::Failed(failure) => retries(
                    decision,
                    state.competition,
                    CompetitionError::FailedBroadcast(failure.message),
                    self.kept_settlement_errors,
                    |after: Competition|
                        CompetitionStatus::Attested(Attested { competition: after, ..state }),
                ),
                _ => decision == Decision::Become(
                    match state.competition.outcome_transaction {
                        Some(tx) => state.outcome_broadcasted_spec(tx, now),
                        None => status,
                    },
                ),
            },
            CompetitionStatus::OutcomeBroadcasted(state) => match report {
                Report::Failed(failure) => retries(
                    decision,
                    state.competition,
                    CompetitionError::FailedBroadcast(failure.message),
                    self.kept_settlement_errors,
                    |after: Competition|
                        CompetitionStatus::OutcomeBroadcasted(
                            OutcomeBroadcasted { competition: after, ..state },
                        ),
                ),
                _ => decision == Decision::Become(
                    if state.competition.delta_broadcasted_at is Some {
                        state.delta_broadcasted_spec(now)
                    } else {
                        status
                    },
                ),
            },
            CompetitionStatus::DeltaBroadcasted(state) => match report {
                Report::Failed(failure) => retries(
                    decision,
                    state.competition,
                    CompetitionError::FailedBroadcast(failure.message),
                    self.kept_settlement_errors,
                    |after: Competition|
                        CompetitionStatus::DeltaBroadcasted(
                            DeltaBroadcasted { competition: after, ..state },
                        ),
                ),
                _ => decision == Decision::Become(
                    if state.competition.completed_at is Some {
                        state.completed_spec(now)
                    } else {
                        status
                    },
                ),
            },
            _ => decision == Decision::Become(status),
        }
    }

    /// Go on with a step once the work it asked for has been done, at the time `now`. The status
    /// holds the competition as the work left it.
    pub fn resume_status(
        &self,
        status: CompetitionStatus,
        work: Work,
        report: Report,
        now: Timestamp,
    ) -> (turn: Turn)
        ensures
            exists|decision: Decision| #[trigger]
                self.follows(status, work, report, now, decision) && turn.enacts(decision, now),
    {
        let decision = self.decide(status, work, report, now);
        decision.enact(now)
    }

    /// What follows from the report on `work`.
    fn decide(
        &self,
        status: CompetitionStatus,
        work: Work,
        report: Report,
        now: Timestamp,
    ) -> (decision: Decision)
        ensures
            self.follows(status, work, report, now, decision),
    {
        match status {
            CompetitionStatus::AwaitingEscrow(state) => self.escrow_checked(state, report, now),
            CompetitionStatus::EscrowConfirmed(state) => match report {
                Report::Failed(failure) => Decision::Fail(
                    CompetitionStatus::EscrowConfirmed(state),
                    CompetitionError::FailedCreateEvent(failure.message),
                ),
                _ => Decision::Become(
                    if state.competition.event_created_at.is_some() {
                        CompetitionStatus::EventCreated(
                            EventCreated::from_competition_at(state.competition, now),
                        )
                    } else {
                        CompetitionStatus::EscrowConfirmed(state)
                    },
                ),
            },
            CompetitionStatus::EventCreated(state) => match report {
                Report::Failed(failure) => Decision::Fail(
                    CompetitionStatus::EventCreated(state),
                    CompetitionError::FailedSubmitEntries(failure.message),
                ),
                _ => Decision::Become(state.entries_submitted_at(now)),
            },
            CompetitionStatus::EntriesSubmitted(state) => match report {
                Report::Failed(failure) => Decision::Fail(
                    CompetitionStatus::EntriesSubmitted(state),
                    CompetitionError::FailedCreateTransaction(failure.message),
                ),
                _ => Decision::Become(contract_checked(state, now)),
            },
            CompetitionStatus::ContractCreated(state) => match work {
                Work::CheckRegistrations => match report {
                    Report::Registered(true) => Decision::Ask(
                        CompetitionStatus::ContractCreated(state),
                        Work::CompleteKeygen,
                    ),
                    _ => Decision::Become(CompetitionStatus::ContractCreated(state)),
                },
                Work::CompleteKeygen => match report {
                    Report::Failed(failure) => Decision::Fail(
                        CompetitionStatus::ContractCreated(state),
                        CompetitionError::FailedBroadcast(failure.message),
                    ),
                    _ => Decision::Become(
                        CompetitionStatus::AwaitingSignatures(
                            AwaitingSignatures::from_competition(state.competition),
                        ),
                    ),
                },
                _ => signing_decision(
                    CompetitionStatus::ContractCreated(state),
                    work,
                    report,
                    now,
                ),
            },
            CompetitionStatus::AwaitingSignatures(state) => signing_decision(
                CompetitionStatus::AwaitingSignatures(state),
                work,
                report,
                now,
            ),
            CompetitionStatus::SigningComplete(state) => match report {
                Report::Failed(failure) => Decision::Fail(
                    CompetitionStatus::SigningComplete(state),
                    CompetitionError::FailedBroadcast(failure.message),
                ),
                _ => Decision::Become(funding_sent(state, now)),
            },
            CompetitionStatus::FundingBroadcasted(state) => self.funding_checked(
                state,
                work,
                report,
                now,
            ),
            CompetitionStatus::AwaitingAttestation(state) => self.attestation_checked(
                state,
                report,
                now,
            ),
            CompetitionStatus::Attested(state) => self.outcome_published(state, report, now),
            CompetitionStatus::OutcomeBroadcasted(state) => self.delta_published(
                state,
                report,
                now,
            ),
            CompetitionStatus::DeltaBroadcasted(state) => self.reclaims_published(
                state,
                report,
                now,
            ),
            other => Decision::Become(other),
        }
    }

    /// The escrows were looked up.
    fn escrow_checked(&self, state: AwaitingEscrow, report: Report, now: Timestamp) -> (decision:
        Decision)
        ensures
            forall|work: Work|
                self.follows(
                    CompetitionStatus::AwaitingEscrow(state),
                    work,
                    report,
                    now,
                    decision,
                ),
    {
        let mut state = state;
        match report {
            Report::Failed(failure) => {
                let error = CompetitionError::FailedEscrowConfirmation(failure.message);
                push_error(state.competition_mut(), error.duplicate());
                if state.competition.should_abort(self.tolerated_errors) {
                    Decision::Fail(CompetitionStatus::AwaitingEscrow(state), error)
                } else {
                    Decision::Become(CompetitionStatus::AwaitingEscrow(state))
                }
            },
            _ => Decision::Become(
                if state.competition.escrow_funds_confirmed_at.is_some() {
                    state.escrow_confirmed_at(now)
                } else {
                    CompetitionStatus::AwaitingEscrow(state)
                },
            ),
        }
    }

    /// Work on a broadcast funding transaction was done.
    fn funding_checked(
        &self,
        state: FundingBroadcasted,
        work: Work,
        report: Report,
        now: Timestamp,
    ) -> (decision: Decision)
        ensures
            self.follows(
                CompetitionStatus::FundingBroadcasted(state),
                work,
                report,
                now,
                decision,
            ),
    {
        let mut state = state;
        match work {
            Work::CountFundingConfirmations => {
                let settle = match report {
                    Report::Confirmations(Some(confirmations)) => confirmations
                        >= self.invoice_settlement_confirmations
                        && state.competition.invoices_settled_at.is_none(),
                    _ => false,
                };
                Decision::Ask(
                    CompetitionStatus::FundingBroadcasted(state),
                    if settle {
                        Work::SettleInvoices
                    } else {
                        Work::CheckFunding
                    },
                )
            },
            Work::SettleInvoices => {
                match report {
                    Report::Failed(_) => {},
                    _ => {
                        state.competition.invoices_settled_at = Some(now);
                    },
                }
                Decision::Ask(CompetitionStatus::FundingBroadcasted(state), Work::CheckFunding)
            },
            _ => match report {
                Report::Failed(failure) => {
                    let error = CompetitionError::FailedFundingConfirmation(failure.message);
                    push_error(state.competition_mut(), error.duplicate());
                    if state.competition.should_abort(self.tolerated_errors) {
                        Decision::Fail(CompetitionStatus::FundingBroadcasted(state), error)
                    } else {
                        Decision::Become(CompetitionStatus::FundingBroadcasted(state))
                    }
                },
                _ => Decision::Become(
                    if state.competition.funding_confirmed_at.is_some() {
                        state.funding_confirmed_at(now)
                    } else {
                        CompetitionStatus::FundingBroadcasted(state)
                    },
                ),
            },
        }
    }

    /// The oracle was asked.
    fn attestation_checked(
        &self,
        state: AwaitingAttestation,
        report: Report,
        now: Timestamp,
    ) -> (decision: Decision)
        ensures
            forall|work: Work|
                self.follows(
                    CompetitionStatus::AwaitingAttestation(state),
                    work,
                    report,
                    now,
                    decision,
                ),
    {
        let mut state = state;
        match report {
            Report::Failed(failure) => {
                if failure.transient {
                    return Decision::Become(CompetitionStatus::AwaitingAttestation(state));
                }
                let error = CompetitionError::FailedCheckingAttestation(failure.message);
                push_error(state.competition_mut(), error.duplicate());
                if state.competition.should_abort(self.tolerated_errors) {
                    Decision::Fail(CompetitionStatus::AwaitingAttestation(state), error)
                } else {
                    Decision::Become(CompetitionStatus::AwaitingAttestation(state))
                }
            },
            _ => Decision::Become(
                if state.competition.attestation.is_some() {
                    CompetitionStatus::Attested(Attested::from_competition(state.competition))
                } else if state.competition.expiry_broadcasted_at.is_some() {
                    CompetitionStatus::ExpiryBroadcasted(
                        ExpiryBroadcasted::from_competition_at(state.competition, now),
                    )
                } else {
                    CompetitionStatus::AwaitingAttestation(state)
                },
            ),
        }
    }

    /// The outcome transaction was to be broadcast.
    fn outcome_published(&self, state: Attested, report: Report, now: Timestamp) -> (decision:
        Decision)
        ensures
            forall|work: Work|
                self.follows(CompetitionStatus::Attested(state), work, report, now, decision),
    {
        let mut state = state;
        match report {
            Report::Failed(failure) => {
                let error = CompetitionError::FailedBroadcast(failure.message);
                keep_error(state.competition_mut(), error, self.kept_settlement_errors);
                Decision::Become(CompetitionStatus::Attested(state))
            },
            _ => {
                if state.competition.outcome_transaction.is_some() {
                    let mut competition = state.into_competition();
                    competition.outcome_broadcasted_at = Some(now);
                    Decision::Become(
                        CompetitionStatus::OutcomeBroadcasted(
                            OutcomeBroadcasted::from_competition_at(competition, now),
                        ),
                    )
                } else {
                    Decision::Become(CompetitionStatus::Attested(state))
                }
            },
        }
    }

    /// The first delta transactions were to be broadcast.
    fn delta_published(
        &self,
        state: OutcomeBroadcasted,
        report: Report,
        now: Timestamp,
    ) -> (decision: Decision)
        ensures
            forall|work: Work|
                self.follows(
                    CompetitionStatus::OutcomeBroadcasted(state),
                    work,
                    report,
                    now,
                    decision,
                ),
    {
        let mut state = state;
        match report {
            Report::Failed(failure) => {
                let error = CompetitionError::FailedBroadcast(failure.message);
                keep_error(state.competition_mut(), error, self.kept_settlement_errors);
                Decision::Become(CompetitionStatus::OutcomeBroadcasted(state))
            },
            _ => Decision::Become(
                if state.competition.delta_broadcasted_at.is_some() {
                    state.delta_broadcasted_at(now)
                } else {
                    CompetitionStatus::OutcomeBroadcasted(state)
                },
            ),
        }
    }

    /// The reclaiming transactions were to be broadcast.
    fn reclaims_published(
        &self,
        state: DeltaBroadcasted,
        report: Report,
        now: Timestamp,
    ) -> (decision: Decision)
        ensures
            forall|work: Work|
                self.follows(
                    CompetitionStatus::DeltaBroadcasted(state),
                    work,
                    report,
                    now,
                    decision,
                ),
    {
        let mut state = state;
        match report {
            Report::Failed(failure) => {
                let error = CompetitionError::FailedBroadcast(failure.message);
                keep_error(state.competition_mut(), error, self.kept_settlement_errors);
                Decision::Become(CompetitionStatus::DeltaBroadcasted(state))
            },
            _ => Decision::Become(
                if state.competition.completed_at.is_some() {
                    state.completed_at(now)
                } else {
                    CompetitionStatus::DeltaBroadcasted(state)
                },
            ),
        }
    }
}

/// The contract, its funding output and its funding transaction are all there.
pub open spec fn contract_built(competition: Competition) -> bool {
    competition.contract_parameters is Some && competition.funding_outpoint is Some
        && competition.funding_psbt_base64 is Some
}

/// What follows from work on signing a contract.
pub open spec fn signing_follows(
    status: CompetitionStatus,
    work: Work,
    report: Report,
    now: Timestamp,
    decision: Decision,
) -> bool {
    match work {
        Work::AggregateNonces => match report {
            Report::Failed(failure) => decision == Decision::Fail(
                status,
                CompetitionError::FailedNonceAggregation(failure.message),
            ),
            _ => if all_signatures(status.data()) {
                decision == Decision::Ask(status, Work::SignContract)
            } else {
                decision == Decision::Become(status)
            },
        },
        Work::SignContract => match report {
            Report::Failed(failure) => decision == Decision::Fail(
                status,
                CompetitionError::FailedBroadcast(failure.message),
            ),
            _ => decision == Decision::Become(
                match status.data().signed_contract {
                    Some(signed) => AwaitingSignatures::of(status.data()).signing_complete_spec(
                        signed,
                        now,
                    ),
                    None => status,
                },
            ),
        },
        _ => decision == Decision::Become(status),
    }
}

/// What follows from work on signing a contract.
fn signing_decision(
    status: CompetitionStatus,
    work: Work,
    report: Report,
    now: Timestamp,
) -> (decision: Decision)
    ensures
        signing_follows(status, work, report, now, decision),
{
    match work {
        Work::AggregateNonces => match report {
            Report::Failed(failure) => Decision::Fail(
                status,
                CompetitionError::FailedNonceAggregation(failure.message),
            ),
            _ => if status.competition().has_all_entry_partial_signatures() {
                Decision::Ask(status, Work::SignContract)
            } else {
                Decision::Become(status)
            },
        },
        Work::SignContract => match report {
            Report::Failed(failure) => Decision::Fail(
                status,
                CompetitionError::FailedBroadcast(failure.message),
            ),
            _ => if status.competition().signed_contract.is_some() {
                let mut competition = status.into_competition();
                competition.signed_at = Some(now);
                Decision::Become(
                    CompetitionStatus::SigningComplete(
                        SigningComplete::from_competition_at(competition, now),
                    ),
                )
            } else {
                Decision::Become(status)
            },
        },
        _ => Decision::Become(status),
    }
}

/// The contract was to be built.
fn contract_checked(state: EntriesSubmitted, now: Timestamp) -> (next: CompetitionStatus)
    ensures
        next == if contract_built(state.competition) {
            state.contract_created_spec(
                state.competition.contract_parameters->0,
                state.competition.funding_outpoint->0,
                state.competition.funding_psbt_base64->0,
                now,
            )
        } else {
            CompetitionStatus::EntriesSubmitted(state)
        },
{
    let built = state.competition.contract_parameters.is_some()
        && state.competition.funding_outpoint.is_some()
        && state.competition.funding_psbt_base64.is_some();
    if built {
        let mut competition = state.into_competition();
        competition.contracted_at = Some(now);
        CompetitionStatus::ContractCreated(ContractCreated::from_competition_at(competition, now))
    } else {
        CompetitionStatus::EntriesSubmitted(state)
    }
}

/// The funding transaction was to be broadcast.
fn funding_sent(state: SigningComplete, now: Timestamp) -> (next: CompetitionStatus)
    ensures
        next == match state.competition.funding_transaction {
            Some(tx) => state.funding_broadcasted_spec(tx, now),
            None => CompetitionStatus::SigningComplete(state),
        },
{
    if state.competition.funding_transaction.is_some() {
        let mut competition = state.into_competition();
        competition.funding_broadcasted_at = Some(now);
        CompetitionStatus::FundingBroadcasted(
            FundingBroadcasted::from_competition_at(competition, now),
        )
    } else {
        CompetitionStatus::SigningComplete(state)
    }
}

} // verus!
