//! Funding a competition's pool in an Arkade batch, which spends every ticket's escrow.

use crate::arkade::{ArkCommitment, TicketArkEscrow};
use crate::chain::{
    decode_transaction, named_output, output_from_str, output_view, transaction_parts, x_coordinate,
    x_only_key,
};
use crate::clock::Timestamp;
use crate::competition::{Competition, Uuid};
use crate::contract::{OutPoint, SignedContract, Transaction};
use crate::encoding::{hex_bytes, hex_decode, is_hex};
use crate::entries::UserEntry;
use crate::payouts::same_bytes;
use vstd::prelude::*;

verus! {

/// Why a pool is not funded.
#[derive(Clone, Copy, PartialEq, Eq, Structural, Debug)]
pub enum KickoffError {
    /// Arkade is not set up.
    NoArkade,
    /// The contract is not built yet.
    NoContract,
    NoSession,
    /// The entry's key is no public key.
    InvalidEntryKey(Uuid),
    /// There are so many entries, and so many funded escrows.
    EscrowsMissing { entries: usize, escrows: usize },
    /// The ticket's escrow script is not in hexadecimal.
    InvalidTapTree(Uuid),
    /// The ticket's escrow is not funded.
    Unfunded(Uuid),
    /// The output that funded the ticket's escrow is none.
    InvalidOutput(Uuid),
    /// It is not known what the ticket's escrow holds.
    NoAmount(Uuid),
    /// The escrows hold less than the pool.
    TooLittle,
    /// The commitment transaction cannot be read.
    InvalidCommitment,
    /// A forfeit was asked for before the contract is signed.
    ForfeitTooEarly,
    /// Nobody who takes part has the key.
    UnknownKey,
    /// Keymeld did not sign the input.
    NotSigned(usize),
    /// What Keymeld returned is no signature.
    InvalidSignature(usize),
}

/// Check that a pool can be funded at all.
pub fn check_kickoff(has_arkade: bool, competition: &Competition, has_session: bool) -> (checked: Result<
    (),
    KickoffError,
>)
    ensures
        checked == if !has_arkade {
            Err::<(), KickoffError>(KickoffError::NoArkade)
        } else if competition.contract_parameters is None {
            Err::<(), KickoffError>(KickoffError::NoContract)
        } else if !has_session {
            Err::<(), KickoffError>(KickoffError::NoSession)
        } else {
            Ok::<(), KickoffError>(())
        },
{
    if !has_arkade {
        return Err(KickoffError::NoArkade);
    }
    if competition.contract_parameters.is_none() {
        return Err(KickoffError::NoContract);
    }
    if !has_session {
        return Err(KickoffError::NoSession);
    }
    Ok(())
}

/// A player whose escrow Keymeld signs for: the x coordinate of their entry key, and their ticket.
#[derive(Debug)]
pub struct KickoffPlayer {
    pub key: Vec<u8>,
    pub user_id: Uuid,
}

/// The players, with their keys as sequences of bytes.
pub open spec fn players_view(players: Seq<KickoffPlayer>) -> Seq<(Seq<u8>, Uuid)> {
    players.map_values(|player: KickoffPlayer| (player.key@, player.user_id))
}

/// The players of the entries, in order; or the first entry whose key is none.
pub open spec fn players_of(entries: Seq<UserEntry>) -> Result<Seq<(Seq<u8>, Uuid)>, KickoffError>
    decreases entries.len(),
{
    if entries.len() == 0 {
        Ok(Seq::empty())
    } else {
        match players_of(entries.drop_last()) {
            Err(error) => Err(error),
            Ok(players) => match x_coordinate(entries.last().ephemeral_pubkey@) {
                None => Err(KickoffError::InvalidEntryKey(entries.last().id)),
                Some(key) => Ok(players.push((key, entries.last().ticket_id))),
            },
        }
    }
}

/// The first error stays the first, whatever entries follow.
proof fn players_fault_is_final(entries: Seq<UserEntry>, upto: int)
    requires
        0 <= upto <= entries.len(),
        players_of(entries.take(upto)) is Err,
    ensures
        players_of(entries) == players_of(entries.take(upto)),
    decreases entries.len() - upto,
{
    if upto < entries.len() {
        assert(entries.take(upto + 1).drop_last() =~= entries.take(upto));
        players_fault_is_final(entries, upto + 1);
    } else {
        assert(entries.take(upto) =~= entries);
    }
}

/// The players that Keymeld signs for, in the order of the entries, which is the contract's.
pub fn kickoff_players(entries: &Vec<UserEntry>) -> (made: Result<Vec<KickoffPlayer>, KickoffError>)
    ensures
        match players_of(entries@) {
            Ok(expected) => made matches Ok(players) && players_view(players@) == expected,
            Err(error) => made matches Err(told) && told == error,
        },
{
    let mut players: Vec<KickoffPlayer> = Vec::new();
    assert(entries@.take(0) =~= Seq::empty());
    assert(players_view(players@) =~= Seq::empty());
    let mut i: usize = 0;
    while i < entries.len()
        invariant
            i <= entries@.len(),
            players_of(entries@.take(i as int)) == Ok::<Seq<(Seq<u8>, Uuid)>, KickoffError>(
                players_view(players@),
            ),
        decreases entries@.len() - i,
    {
        assert(entries@.take(i + 1).drop_last() =~= entries@.take(i as int));
        let entry = &entries[i];
        match x_only_key(entry.ephemeral_pubkey.as_str()) {
            None => {
                proof {
                    players_fault_is_final(entries@, i + 1);
                }
                return Err(KickoffError::InvalidEntryKey(entry.id));
            },
            Some(key) => {
                let ghost before = players@;
                let ghost added = (key@, entry.ticket_id);
                players.push(KickoffPlayer { key, user_id: entry.ticket_id });
                assert(players_view(players@) =~= players_view(before).push(added));
            },
        }
        i = i + 1;
    }
    assert(entries@.take(i as int) =~= entries@);
    Ok(players)
}

/// An escrow that the batch spends.
#[derive(Debug)]
pub struct KickoffInput {
    pub tap_tree: Vec<u8>,
    pub outpoint: OutPoint,
    pub amount_sats: u64,
}

/// An escrow that the batch spends, with its bytes as sequences.
pub struct KickoffInputView {
    pub tap_tree: Seq<u8>,
    pub outpoint: (Seq<u8>, u32),
    pub amount_sats: u64,
}

impl View for KickoffInput {
    type V = KickoffInputView;

    open spec fn view(&self) -> KickoffInputView {
        KickoffInputView {
            tap_tree: self.tap_tree@,
            outpoint: output_view(self.outpoint),
            amount_sats: self.amount_sats,
        }
    }
}

/// The inputs, with their bytes as sequences.
pub open spec fn inputs_view(inputs: Seq<KickoffInput>) -> Seq<KickoffInputView> {
    inputs.map_values(|input: KickoffInput| input@)
}

/// The input that an escrow is, or why it is none.
pub open spec fn input_of(escrow: TicketArkEscrow) -> Result<KickoffInputView, KickoffError> {
    if !is_hex(escrow.escrow_tap_tree@) {
        Err(KickoffError::InvalidTapTree(escrow.ticket_id))
    } else {
        match escrow.vtxo_outpoint {
            None => Err(KickoffError::Unfunded(escrow.ticket_id)),
            Some(text) => match named_output(text@) {
                None => Err(KickoffError::InvalidOutput(escrow.ticket_id)),
                Some(outpoint) => match escrow.vtxo_sats {
                    None => Err(KickoffError::NoAmount(escrow.ticket_id)),
                    Some(amount_sats) => Ok(
                        KickoffInputView {
                            tap_tree: hex_bytes(escrow.escrow_tap_tree@),
                            outpoint,
                            amount_sats,
                        },
                    ),
                },
            },
        }
    }
}

/// The inputs that escrows are, in order; or the first fault.
pub open spec fn inputs_of(escrows: Seq<TicketArkEscrow>) -> Result<
    Seq<KickoffInputView>,
    KickoffError,
>
    decreases escrows.len(),
{
    if escrows.len() == 0 {
        Ok(Seq::empty())
    } else {
        match inputs_of(escrows.drop_last()) {
            Err(error) => Err(error),
            Ok(inputs) => match input_of(escrows.last()) {
                Err(error) => Err(error),
                Ok(input) => Ok(inputs.push(input)),
            },
        }
    }
}

/// The first fault stays the first, whatever escrows follow.
proof fn inputs_fault_is_final(escrows: Seq<TicketArkEscrow>, upto: int)
    requires
        0 <= upto <= escrows.len(),
        inputs_of(escrows.take(upto)) is Err,
    ensures
        inputs_of(escrows) == inputs_of(escrows.take(upto)),
    decreases escrows.len() - upto,
{
    if upto < escrows.len() {
        assert(escrows.take(upto + 1).drop_last() =~= escrows.take(upto));
        inputs_fault_is_final(escrows, upto + 1);
    } else {
        assert(escrows.take(upto) =~= escrows);
    }
}

/// The input that an escrow is.
fn make_input(escrow: &TicketArkEscrow) -> (made: Result<KickoffInput, KickoffError>)
    ensures
        match input_of(*escrow) {
            Ok(expected) => made matches Ok(input) && input@ == expected,
            Err(error) => made matches Err(told) && told == error,
        },
{
    let tap_tree = match hex_decode(escrow.escrow_tap_tree.as_str()) {
        Some(tap_tree) => tap_tree,
        None => {
            return Err(KickoffError::InvalidTapTree(escrow.ticket_id));
        },
    };
    let outpoint = match &escrow.vtxo_outpoint {
        Some(text) => match output_from_str(text.as_str()) {
            Some(outpoint) => outpoint,
            None => {
                return Err(KickoffError::InvalidOutput(escrow.ticket_id));
            },
        },
        None => {
            return Err(KickoffError::Unfunded(escrow.ticket_id));
        },
    };
    match escrow.vtxo_sats {
        Some(amount_sats) => Ok(KickoffInput { tap_tree, outpoint, amount_sats }),
        None => Err(KickoffError::NoAmount(escrow.ticket_id)),
    }
}

/// What escrows hold together, where it is known.
pub open spec fn escrowed(escrows: Seq<TicketArkEscrow>) -> nat
    decreases escrows.len(),
{
    if escrows.len() == 0 {
        0
    } else {
        escrowed(escrows.drop_last()) + match escrows.last().vtxo_sats {
            Some(sats) => sats as nat,
            None => 0,
        }
    }
}

/// Fewer escrows hold no more.
proof fn escrowed_grows(escrows: Seq<TicketArkEscrow>, upto: int)
    requires
        0 <= upto <= escrows.len(),
    ensures
        escrowed(escrows.take(upto)) <= escrowed(escrows),
    decreases escrows.len() - upto,
{
    if upto < escrows.len() {
        assert(escrows.take(upto + 1).drop_last() =~= escrows.take(upto));
        escrowed_grows(escrows, upto + 1);
    } else {
        assert(escrows.take(upto) =~= escrows);
    }
}

/// How a pool is funded.
#[derive(Debug)]
pub enum KickoffPlan {
    /// A batch funded it before: sign its contract again, at this output of this transaction.
    Resume { funding: OutPoint, commitment: Transaction },
    /// Spend the escrows. What is left over the pool is the coordinator's fee, which gets an output
    /// of its own where it is not too small for one.
    Fund { inputs: Vec<KickoffInput>, fee_sats: u64, pays_fee: bool },
}

/// Whether there are as many funded escrows as entries, and they hold enough for the pool.
pub open spec fn funding_fault(
    entries: nat,
    escrows: Seq<TicketArkEscrow>,
    funding_value: u64,
) -> Option<KickoffError> {
    if escrows.len() != entries {
        Some(
            KickoffError::EscrowsMissing {
                entries: entries as usize,
                escrows: escrows.len() as usize,
            },
        )
    } else {
        match inputs_of(escrows) {
            Err(error) => Some(error),
            Ok(_) => if escrowed(escrows) < funding_value {
                Some(KickoffError::TooLittle)
            } else {
                None
            },
        }
    }
}

/// The output of the recorded commitment transaction that funds the pool.
pub open spec fn commitment_output(done: ArkCommitment) -> (Seq<u8>, u32) {
    let parts = transaction_parts(hex_bytes(done.commitment_tx@))->0;
    (parts.0, done.funding_vout)
}

/// How a pool is funded again whose batch is recorded.
fn resume_plan(done: &ArkCommitment) -> (plan: Result<KickoffPlan, KickoffError>)
    ensures
        if is_hex(done.commitment_tx@) && transaction_parts(hex_bytes(done.commitment_tx@)) is Some {
            plan matches Ok(KickoffPlan::Resume { funding, commitment }) && commitment.raw@
                == hex_bytes(done.commitment_tx@) && output_view(funding) == commitment_output(*done)
        } else {
            plan matches Err(error) && error is InvalidCommitment
        },
{
    let raw = match hex_decode(done.commitment_tx.as_str()) {
        Some(raw) => raw,
        None => {
            return Err(KickoffError::InvalidCommitment);
        },
    };
    match decode_transaction(&raw) {
        Some(parts) => Ok(
            KickoffPlan::Resume {
                funding: OutPoint { txid: parts.txid, vout: done.funding_vout },
                commitment: Transaction { raw },
            },
        ),
        None => Err(KickoffError::InvalidCommitment),
    }
}

/// How a pool is funded: from the batch that funded it before, where one is recorded, or else from
/// the escrows of all its entries. `dust` is the least that an output may be worth.
pub fn ark_kickoff(
    entries: &Vec<UserEntry>,
    escrows: &Vec<TicketArkEscrow>,
    commitment: &Option<ArkCommitment>,
    funding_value: u64,
    dust: u64,
) -> (plan: Result<KickoffPlan, KickoffError>)
    requires
        commitment is None ==> escrowed(escrows@) <= u64::MAX,
    ensures
        match *commitment {
            Some(done) => if is_hex(done.commitment_tx@) && transaction_parts(
                hex_bytes(done.commitment_tx@),
            ) is Some {
                plan matches Ok(KickoffPlan::Resume { funding, commitment }) && commitment.raw@
                    == hex_bytes(done.commitment_tx@) && output_view(funding) == commitment_output(done)
            } else {
                plan matches Err(error) && error is InvalidCommitment
            },
            None => match funding_fault(entries@.len(), escrows@, funding_value) {
                Some(error) => plan matches Err(told) && told == error,
                None => plan matches Ok(KickoffPlan::Fund { inputs, fee_sats, pays_fee })
                    && inputs_view(inputs@) == inputs_of(escrows@)->Ok_0 && fee_sats == escrowed(
                    escrows@,
                ) - funding_value && pays_fee == (fee_sats >= dust),
            },
        },
{
    if let Some(done) = commitment {
        return resume_plan(done);
    }
    if escrows.len() != entries.len() {
        return Err(
            KickoffError::EscrowsMissing { entries: entries.len(), escrows: escrows.len() },
        );
    }
    let mut inputs: Vec<KickoffInput> = Vec::new();
    let mut total: u64 = 0;
    assert(escrows@.take(0) =~= Seq::empty());
    assert(inputs_view(inputs@) =~= Seq::empty());
    let mut i: usize = 0;
    while i < escrows.len()
        invariant
            i <= escrows@.len(),
            escrows@.len() == entries@.len(),
            commitment is None,
            escrowed(escrows@) <= u64::MAX,
            inputs_of(escrows@.take(i as int)) == Ok::<Seq<KickoffInputView>, KickoffError>(
                inputs_view(inputs@),
            ),
            total == escrowed(escrows@.take(i as int)),
        decreases escrows@.len() - i,
    {
        assert(escrows@.take(i + 1).drop_last() =~= escrows@.take(i as int));
        match make_input(&escrows[i]) {
            Err(error) => {
                proof {
                    inputs_fault_is_final(escrows@, i + 1);
                }
                return Err(error);
            },
            Ok(input) => {
                proof {
                    escrowed_grows(escrows@, i + 1);
                }
                total = total + input.amount_sats;
                let ghost before = inputs@;
                let ghost added = input@;
                inputs.push(input);
                assert(inputs_view(inputs@) =~= inputs_view(before).push(added));
            },
        }
        i = i + 1;
    }
    assert(escrows@.take(i as int) =~= escrows@);
    if total < funding_value {
        return Err(KickoffError::TooLittle);
    }
    let fee_sats: u64 = total - funding_value;
    Ok(KickoffPlan::Fund { inputs, fee_sats, pays_fee: fee_sats >= dust })
}

/// A batch funded the pool and its contract is signed: the competition has its funding, which is on
/// its way, and starts afresh with the errors.
pub fn pool_was_funded(
    competition: &mut Competition,
    funding: OutPoint,
    commitment: Transaction,
    signed: SignedContract,
    now: Timestamp,
)
    ensures
        final(competition).errors@.len() == 0,
        *final(competition) == (Competition {
            funding_outpoint: Some(funding),
            funding_transaction: Some(commitment),
            signed_contract: Some(signed),
            signed_at: Some(now),
            funding_broadcasted_at: Some(now),
            errors: final(competition).errors,
            ..*old(competition)
        }),
{
    competition.funding_outpoint = Some(funding);
    competition.funding_transaction = Some(commitment);
    competition.signed_contract = Some(signed);
    competition.signed_at = Some(now);
    competition.funding_broadcasted_at = Some(now);
    competition.errors = Vec::new();
}

/// What an escrow is signed for.
#[derive(Clone, Copy, PartialEq, Eq, Structural, Debug)]
pub enum SigningPurpose {
    /// To show that it can be spent.
    IntentProof,
    /// To give it up to the batch.
    Forfeit,
}

/// Check that an escrow may be signed for: it is given up only once the contract is signed.
pub fn check_spend(purpose: SigningPurpose, contract_signed: bool) -> (checked: Result<(), KickoffError>)
    ensures
        checked == if purpose is Forfeit && !contract_signed {
            Err::<(), KickoffError>(KickoffError::ForfeitTooEarly)
        } else {
            Ok::<(), KickoffError>(())
        },
{
    match purpose {
        SigningPurpose::IntentProof => Ok(()),
        SigningPurpose::Forfeit => if contract_signed {
            Ok(())
        } else {
            Err(KickoffError::ForfeitTooEarly)
        },
    }
}

/// The last player from the first to the `upto`th who has the key.
pub open spec fn holder_of(players: Seq<(Seq<u8>, Uuid)>, key: Seq<u8>, upto: int) -> Option<Uuid>
    decreases upto,
{
    if upto <= 0 || upto > players.len() {
        None
    } else if players[upto - 1].0 == key {
        Some(players[upto - 1].1)
    } else {
        holder_of(players, key, upto - 1)
    }
}

/// Who has the key. Where several have it, the last counts.
pub fn find_holder(players: &Vec<KickoffPlayer>, key: &Vec<u8>) -> (holder: Result<Uuid, KickoffError>)
    ensures
        match holder_of(players_view(players@), key@, players@.len() as int) {
            Some(user_id) => holder == Ok::<Uuid, KickoffError>(user_id),
            None => holder == Err::<Uuid, KickoffError>(KickoffError::UnknownKey),
        },
{
    let ghost views = players_view(players@);
    let mut i: usize = players.len();
    while i > 0
        invariant
            i <= players@.len(),
            views == players_view(players@),
            holder_of(views, key@, players@.len() as int) == holder_of(views, key@, i as int),
        decreases i,
    {
        assert(views[i - 1] == (players@[i - 1].key@, players@[i - 1].user_id));
        if same_bytes(&players[i - 1].key, key) {
            return Ok(players[i - 1].user_id);
        }
        i = i - 1;
    }
    Err(KickoffError::UnknownKey)
}

} // verus!
