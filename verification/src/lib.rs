//! The rules by which a prediction competition is run: its lifecycle, its tickets and entries,
//! the contract that holds the pot, and how the pot is paid out or given back.
//!
//! The library decides; it performs no input or output. Whoever runs it carries out the work it
//! asks for and hands back what came of it.

pub mod advance;
pub mod arkade;
pub mod automatic;
pub mod binding;
pub mod building;
pub mod chain;
pub mod claim_laws;
pub mod claims;
pub mod clock;
pub mod competition;
pub mod contract;
pub mod contract_laws;
pub mod contract_signing;
pub mod contracting;
pub mod dlc;
pub mod dlc_spends;
pub mod coordination_laws;
pub mod encoding;
pub mod enforcement;
pub mod entering;
pub mod entries;
pub mod entry_laws;
pub mod funding;
pub mod identity;
pub mod ids;
pub mod kickoff;
pub mod kickoff_signing;
pub mod lease;
pub mod lifecycle;
pub mod lifecycle_laws;
pub mod metrics;
pub mod outcome;
pub mod payout_jobs;
pub mod payout_laws;
pub mod payout_schedule;
pub mod payouts;
pub mod progress;
pub mod psbt;
pub mod publishing;
pub mod rankings;
pub mod refunds;
pub mod registration;
pub mod reported;
pub mod roster;
pub mod roster_laws;
pub mod runners;
pub mod sealing;
pub mod sellback;
pub mod settlement;
pub mod settlement_laws;
pub mod signing;
pub mod states;
pub mod step_laws;
pub mod terms;
pub mod ticket_payouts;
pub mod ticket_laws;
pub mod tickets;
pub mod wakes;
pub mod workers;
