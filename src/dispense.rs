use vstd::prelude::*;

use crate::address::{account_of, decode_account};
use crate::config::{
    cooldown_of, effective_cooldown, window_start, window_start_of, FAUCET_AMOUNT,
    RECORDED_AMOUNT,
};
use crate::error::FaucetError;

verus! {

/// The reply to a request that arrives inside its address's cooldown window.
pub const COOLDOWN_MESSAGE: &'static str = "You have already received tokens in the last 2 hours";

/// What precedes the settlement reference in the reply to a dispensation.
pub const SUBMITTED_PREFIX: &'static str = "Extrinsic submitted: ";

/// Why the settlement of a transfer failed.
#[derive(Debug, Clone, Copy, PartialEq, Eq, Structural)]
pub enum SettlementError {
    /// The network endpoint could not be reached.
    Connectivity,
    /// The transfer was rejected before inclusion.
    Submission,
    /// The transfer was included but not finalized.
    Finality,
}

/// The request-level error for a settlement failure.
pub open spec fn settlement_failure(e: SettlementError) -> FaucetError {
    match e {
        SettlementError::Connectivity => FaucetError::Connectivity,
        SettlementError::Submission => FaucetError::Submission,
        SettlementError::Finality => FaucetError::Finality,
    }
}

fn failure_of(e: SettlementError) -> (r: FaucetError)
    ensures
        r == settlement_failure(e),
{
    match e {
        SettlementError::Connectivity => FaucetError::Connectivity,
        SettlementError::Submission => FaucetError::Submission,
        SettlementError::Finality => FaucetError::Finality,
    }
}

/// A ledger operation could not be carried out.
#[derive(Debug, Clone, Copy, PartialEq, Eq, Structural)]
pub struct StorageFault;

/// A successful reply to the caller.
#[derive(Debug)]
pub enum Reply {
    /// The address is inside its cooldown window; nothing was sent.
    CoolingDown,
    /// The transfer settled under this reference.
    Submitted(String),
}

pub enum ReplyModel {
    CoolingDown,
    Submitted(Seq<char>),
}

impl View for Reply {
    type V = ReplyModel;

    open spec fn view(&self) -> ReplyModel {
        match self {
            Reply::CoolingDown => ReplyModel::CoolingDown,
            Reply::Submitted(s) => ReplyModel::Submitted(s@),
        }
    }
}

/// The outcome of the action a dispensation asked for last.
#[derive(Debug)]
pub enum Event {
    /// The rate limiter's answer: whether the address is eligible.
    Eligibility(Result<bool, StorageFault>),
    /// Whether the provisional record was written.
    Recorded(Result<(), StorageFault>),
    /// The settlement reference of the finalized transfer, or why it failed.
    Settled(Result<String, SettlementError>),
    /// Whether the settlement reference was attached to the record.
    Attached(Result<(), StorageFault>),
}

pub enum EventModel {
    Eligibility(Result<bool, StorageFault>),
    Recorded(Result<(), StorageFault>),
    Settled(Result<Seq<char>, SettlementError>),
    Attached(Result<(), StorageFault>),
}

impl View for Event {
    type V = EventModel;

    open spec fn view(&self) -> EventModel {
        match self {
            Event::Eligibility(r) => EventModel::Eligibility(*r),
            Event::Recorded(r) => EventModel::Recorded(*r),
            Event::Settled(Ok(s)) => EventModel::Settled(Ok(s@)),
            Event::Settled(Err(e)) => EventModel::Settled(Err(*e)),
            Event::Attached(r) => EventModel::Attached(*r),
        }
    }
}

/// What the dispensation asks its environment to do next.
#[derive(Debug)]
#[allow(inconsistent_fields)]
pub enum Action {
    /// Ask the rate limiter: count the records of `address` after `window_start`
    /// (eligible when there are none) and remove those before it.
    CheckEligibility { address: String, window_start: i128 },
    /// Write the provisional record, with an empty settlement reference.
    InsertProvisional { address: String, amount: u64, timestamp: i64 },
    /// Submit a transfer of `amount` to `account` and await its finality.
    Submit { account: [u8; 32], amount: u128 },
    /// Attach the settlement reference to the record of `(address, timestamp)`.
    AttachSettlement { address: String, timestamp: i64, settlement_ref: String },
    /// The request is done: reply to the caller.
    Respond(Reply),
    /// The request failed.
    Fail(FaucetError),
}

pub enum ActionModel {
    CheckEligibility { address: Seq<char>, window_start: int },
    InsertProvisional { address: Seq<char>, amount: nat, timestamp: int },
    Submit { account: Seq<u8>, amount: nat },
    AttachSettlement { address: Seq<char>, timestamp: int, settlement_ref: Seq<char> },
    Respond(ReplyModel),
    Fail(FaucetError),
}

impl View for Action {
    type V = ActionModel;

    open spec fn view(&self) -> ActionModel {
        match self {
            Action::CheckEligibility { address, window_start } => ActionModel::CheckEligibility {
                address: address@,
                window_start: *window_start as int,
            },
            Action::InsertProvisional { address, amount, timestamp } =>
                ActionModel::InsertProvisional {
                address: address@,
                amount: *amount as nat,
                timestamp: *timestamp as int,
            },
            Action::Submit { account, amount } => ActionModel::Submit {
                account: account@,
                amount: *amount as nat,
            },
            Action::AttachSettlement { address, timestamp, settlement_ref } =>
                ActionModel::AttachSettlement {
                address: address@,
                timestamp: *timestamp as int,
                settlement_ref: settlement_ref@,
            },
            Action::Respond(reply) => ActionModel::Respond(reply@),
            Action::Fail(e) => ActionModel::Fail(*e),
        }
    }
}

/// Where a dispensation stands.
#[derive(Debug)]
pub enum Stage {
    /// Waiting for the rate limiter.
    CheckingEligibility,
    /// Waiting for the provisional record to be written.
    Recording { account: [u8; 32] },
    /// Waiting for the transfer to settle.
    Settling,
    /// Waiting for the settlement reference to be attached.
    Reconciling { settlement_ref: String },
    /// Replied or failed; nothing more happens.
    Finished,
}

pub enum StageModel {
    CheckingEligibility,
    Recording(Seq<u8>),
    Settling,
    Reconciling(Seq<char>),
    Finished,
}

impl View for Stage {
    type V = StageModel;

    open spec fn view(&self) -> StageModel {
        match self {
            Stage::CheckingEligibility => StageModel::CheckingEligibility,
            Stage::Recording { account } => StageModel::Recording(account@),
            Stage::Settling => StageModel::Settling,
            Stage::Reconciling { settlement_ref } => StageModel::Reconciling(settlement_ref@),
            Stage::Finished => StageModel::Finished,
        }
    }
}

/// One request for funds, from its arrival to its reply: it checks eligibility,
/// decodes the recipient, records the attempt, has the transfer settled and
/// reconciles the record, strictly in that order and without retries.
///
/// The eligibility check and the provisional write are separate ledger
/// operations: two requests for one address that arrive together may both be
/// found eligible before either has written its record.
#[derive(Debug)]
pub struct Dispensation {
    address: String,
    now: i64,
    cooldown_minutes: u64,
    stage: Stage,
}

pub struct DispensationModel {
    pub address: Seq<char>,
    pub now: int,
    pub cooldown_minutes: nat,
    pub stage: StageModel,
}

impl View for Dispensation {
    type V = DispensationModel;

    closed spec fn view(&self) -> DispensationModel {
        DispensationModel {
            address: self.address@,
            now: self.now as int,
            cooldown_minutes: self.cooldown_minutes as nat,
            stage: self.stage@,
        }
    }
}

/// Whether a dispensation in `stage` is waiting for the event `e`.
pub open spec fn awaits(stage: StageModel, e: EventModel) -> bool {
    match stage {
        StageModel::CheckingEligibility => e is Eligibility,
        StageModel::Recording(_) => e is Recorded,
        StageModel::Settling => e is Settled,
        StageModel::Reconciling(_) => e is Attached,
        StageModel::Finished => false,
    }
}

/// The next stage and the action to take when `d` receives `e`.
pub open spec fn transition(d: DispensationModel, e: EventModel) -> (StageModel, ActionModel) {
    match e {
        EventModel::Eligibility(Err(_)) => (
            StageModel::Finished,
            ActionModel::Fail(FaucetError::Storage),
        ),
        EventModel::Eligibility(Ok(false)) => (
            StageModel::Finished,
            ActionModel::Respond(ReplyModel::CoolingDown),
        ),
        EventModel::Eligibility(Ok(true)) => match account_of(d.address) {
            None => (StageModel::Finished, ActionModel::Fail(FaucetError::Validation)),
            Some(account) => (
                StageModel::Recording(account),
                ActionModel::InsertProvisional {
                    address: d.address,
                    amount: RECORDED_AMOUNT as nat,
                    timestamp: d.now,
                },
            ),
        },
        EventModel::Recorded(Err(_)) => (
            StageModel::Finished,
            ActionModel::Fail(FaucetError::Storage),
        ),
        EventModel::Recorded(Ok(())) => (
            StageModel::Settling,
            ActionModel::Submit { account: d.stage->Recording_0, amount: FAUCET_AMOUNT as nat },
        ),
        EventModel::Settled(Err(e)) => (
            StageModel::Finished,
            ActionModel::Fail(settlement_failure(e)),
        ),
        EventModel::Settled(Ok(reference)) => (
            StageModel::Reconciling(reference),
            ActionModel::AttachSettlement {
                address: d.address,
                timestamp: d.now,
                settlement_ref: reference,
            },
        ),
        EventModel::Attached(Err(_)) => (
            StageModel::Finished,
            ActionModel::Fail(FaucetError::Storage),
        ),
        EventModel::Attached(Ok(())) => (
            StageModel::Finished,
            ActionModel::Respond(ReplyModel::Submitted(d.stage->Reconciling_0)),
        ),
    }
}

impl Dispensation {
    /// Starts a dispensation to `address` arriving at `now`, under the given
    /// cooldown (the default where none is given). The first action asks the
    /// rate limiter about the cooldown window that ends at `now`.
    pub fn start(address: String, now: i64, cooldown_minutes: Option<u64>) -> (r: (
        Dispensation,
        Action,
    ))
        ensures
            consistent(r.0@),
            r.0@ == (DispensationModel {
                address: address@,
                now: now as int,
                cooldown_minutes: cooldown_of(cooldown_minutes) as nat,
                stage: StageModel::CheckingEligibility,
            }),
            r.1@ == (ActionModel::CheckEligibility {
                address: address@,
                window_start: window_start_of(now as int, cooldown_of(cooldown_minutes) as int),
            }),
    {
        let cooldown = effective_cooldown(cooldown_minutes);
        let action = Action::CheckEligibility {
            address: address.clone(),
            window_start: window_start(now, cooldown),
        };
        (Dispensation { address, now, cooldown_minutes: cooldown, stage: Stage::CheckingEligibility }, action)
    }

    /// Whether the dispensation has replied or failed.
    pub fn is_finished(&self) -> (r: bool)
        ensures
            r == (self@.stage is Finished),
    {
        match self.stage {
            Stage::Finished => true,
            _ => false,
        }
    }

    /// Whether the dispensation is waiting for `event`.
    pub fn awaits(&self, event: &Event) -> (r: bool)
        ensures
            r == awaits(self@.stage, event@),
    {
        match (&self.stage, event) {
            (Stage::CheckingEligibility, Event::Eligibility(_)) => true,
            (Stage::Recording { .. }, Event::Recorded(_)) => true,
            (Stage::Settling, Event::Settled(_)) => true,
            (Stage::Reconciling { .. }, Event::Attached(_)) => true,
            _ => false,
        }
    }

    /// Takes the outcome of the last action and returns the next one.
    pub fn step(&mut self, event: Event) -> (r: Action)
        requires
            awaits(old(self)@.stage, event@),
        ensures
            (final(self)@.stage, r@) == transition(old(self)@, event@),
            final(self)@.address == old(self)@.address,
            final(self)@.now == old(self)@.now,
            final(self)@.cooldown_minutes == old(self)@.cooldown_minutes,
    {
        let mut stage = Stage::Finished;
        std::mem::swap(&mut stage, &mut self.stage);
        match event {
            Event::Eligibility(Err(_)) => Action::Fail(FaucetError::Storage),
            Event::Eligibility(Ok(false)) => Action::Respond(Reply::CoolingDown),
            Event::Eligibility(Ok(true)) => match decode_account(self.address.as_str()) {
                Err(e) => Action::Fail(e),
                Ok(account) => {
                    self.stage = Stage::Recording { account };
                    Action::InsertProvisional {
                        address: self.address.clone(),
                        amount: RECORDED_AMOUNT,
                        timestamp: self.now,
                    }
                },
            },
            Event::Recorded(Err(_)) => Action::Fail(FaucetError::Storage),
            Event::Recorded(Ok(())) => {
                let account = match stage {
                    Stage::Recording { account } => account,
                    _ => [0u8; 32],
                };
                self.stage = Stage::Settling;
                Action::Submit { account, amount: FAUCET_AMOUNT }
            },
            Event::Settled(Err(e)) => Action::Fail(failure_of(e)),
            Event::Settled(Ok(reference)) => {
                let action = Action::AttachSettlement {
                    address: self.address.clone(),
                    timestamp: self.now,
                    settlement_ref: reference.clone(),
                };
                self.stage = Stage::Reconciling { settlement_ref: reference };
                action
            },
            Event::Attached(Err(_)) => Action::Fail(FaucetError::Storage),
            Event::Attached(Ok(())) => match stage {
                Stage::Reconciling { settlement_ref } => Action::Respond(
                    Reply::Submitted(settlement_ref),
                ),
                _ => Action::Respond(Reply::CoolingDown),
            },
        }
    }
}

/// What holds of every dispensation reachable from its start: past the
/// eligibility check, the address has decoded, and the account being paid is
/// the one it decodes to.
pub open spec fn consistent(d: DispensationModel) -> bool {
    match d.stage {
        StageModel::Recording(account) => account_of(d.address) == Some(account),
        StageModel::Settling => account_of(d.address) is Some,
        StageModel::Reconciling(_) => account_of(d.address) is Some,
        _ => true,
    }
}

/// Every step keeps a dispensation consistent.
pub proof fn lemma_step_keeps_consistent(d: DispensationModel, e: EventModel)
    requires
        consistent(d),
        awaits(d.stage, e),
    ensures
        consistent(
            DispensationModel { stage: transition(d, e).0, ..d },
        ),
{
}

/// A recipient address that does not decode to an account never leads to a
/// ledger write or a settlement: once the address is found eligible, the
/// request fails with `Validation`.
pub proof fn lemma_malformed_address_never_recorded(d: DispensationModel, e: EventModel)
    requires
        consistent(d),
        awaits(d.stage, e),
        account_of(d.address) is None,
    ensures
        !(transition(d, e).1 is InsertProvisional),
        !(transition(d, e).1 is Submit),
        !(transition(d, e).1 is AttachSettlement),
        e == EventModel::Eligibility(Ok(true)) ==> transition(d, e) == (
            StageModel::Finished,
            ActionModel::Fail(FaucetError::Validation),
        ),
{
}

} // verus!
