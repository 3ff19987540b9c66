//! The per-job manager: a state machine that follows the events of one job
//! and says which cloud operations are due.
//!
//! The manager never performs an operation itself. Its driver feeds it
//! events, the firing of the insolvency timer and the outcomes of the
//! operations it asked for, and carries out each step that comes back before
//! it feeds the next event.

use vstd::prelude::*;
use vstd::string::*;
use crate::amount::{max_amount, saturating_diff, Amount};
use crate::event::{JobEvent, JobEventView, JobId};
use crate::rate_card::{min_rate_of, RateCard, RateEntryView};

verus! {

/// The balance of a job, the rate at which it burns, and the time at which
/// the balance was last reconciled with the chain.
#[derive(Clone, Copy, Debug, PartialEq, Eq, Structural)]
pub struct SolvencyState {
    /// Remaining prepaid credit.
    pub balance: Amount,
    /// Current burn rate, per second.
    pub rate: Amount,
    /// The rate before the latest lock.
    pub original_rate: Amount,
    /// When the balance was last settled, in seconds since the epoch.
    pub last_settled: u64,
    /// The minimum rate at which the job's instance type is served.
    pub min_rate: Amount,
}

/// The state of the manager of one job.
#[derive(Debug)]
pub struct JobManager {
    pub job: JobId,
    pub card: RateCard,
    pub solvency: SolvencyState,
    pub image_url: String,
    pub instance_type: String,
    /// The instance bound to the job, if any.
    pub binding: Option<String>,
    /// Whether the manager has ended its task.
    pub finished: bool,
}

/// The model of a manager.
pub struct ManagerView {
    pub job: Seq<u8>,
    pub card: Seq<RateEntryView>,
    pub balance: nat,
    pub rate: nat,
    pub original_rate: nat,
    pub last_settled: nat,
    pub min_rate: nat,
    pub image_url: Seq<char>,
    pub instance_type: Seq<char>,
    pub binding: Option<Seq<char>>,
    pub finished: bool,
}

impl View for JobManager {
    type V = ManagerView;

    open spec fn view(&self) -> ManagerView {
        ManagerView {
            job: self.job@,
            card: self.card@,
            balance: self.solvency.balance@,
            rate: self.solvency.rate@,
            original_rate: self.solvency.original_rate@,
            last_settled: self.solvency.last_settled as nat,
            min_rate: self.solvency.min_rate@,
            image_url: self.image_url@,
            instance_type: self.instance_type@,
            binding: match self.binding {
                Some(id) => Some(id@),
                None => None,
            },
            finished: self.finished,
        }
    }
}

/// What the driver does after an event or the timer.
#[derive(Clone, Debug, PartialEq, Eq)]
pub enum Step {
    /// Nothing; wait for the next event.
    Wait,
    /// Look the job's instance up and hand the answer to `reconcile`.
    Discover,
    /// Spin this instance down, then wait for the next event.
    SpinDown(String),
    /// Spin this instance down, if one is named, and end the task.
    Finish(Option<String>),
}

/// The model of `Step`.
pub enum StepView {
    Wait,
    Discover,
    SpinDown(Seq<char>),
    Finish(Option<Seq<char>>),
}

impl View for Step {
    type V = StepView;

    open spec fn view(&self) -> StepView {
        match *self {
            Step::Wait => StepView::Wait,
            Step::Discover => StepView::Discover,
            Step::SpinDown(id) => StepView::SpinDown(id@),
            Step::Finish(Some(id)) => StepView::Finish(Some(id@)),
            Step::Finish(None) => StepView::Finish(None),
        }
    }
}

/// What a spin-up is asked with.
#[derive(Clone, Debug, PartialEq, Eq)]
pub struct SpinUpRequest {
    pub image_url: String,
    pub job: JobId,
    pub instance_type: String,
}

/// The model of `SpinUpRequest`.
pub struct SpinUpRequestView {
    pub image_url: Seq<char>,
    pub job: Seq<u8>,
    pub instance_type: Seq<char>,
}

impl View for SpinUpRequest {
    type V = SpinUpRequestView;

    open spec fn view(&self) -> SpinUpRequestView {
        SpinUpRequestView {
            image_url: self.image_url@,
            job: self.job@,
            instance_type: self.instance_type@,
        }
    }
}

/// What the driver does after a lookup.
#[derive(Clone, Debug, PartialEq, Eq)]
pub enum Provision {
    /// Nothing.
    Keep,
    /// Spin an instance up and hand its identifier to `launched`.
    SpinUp(SpinUpRequest),
    /// Spin this instance down.
    SpinDown(String),
}

/// The model of `Provision`.
pub enum ProvisionView {
    Keep,
    SpinUp(SpinUpRequestView),
    SpinDown(Seq<char>),
}

impl View for Provision {
    type V = ProvisionView;

    open spec fn view(&self) -> ProvisionView {
        match *self {
            Provision::Keep => ProvisionView::Keep,
            Provision::SpinUp(request) => ProvisionView::SpinUp(request@),
            Provision::SpinDown(id) => ProvisionView::SpinDown(id@),
        }
    }
}

/// The instance type of a job whose metadata names none.
pub open spec fn default_instance_type() -> Seq<char> {
    "c6a.xlarge"@
}

/// A manager before it has seen any event: placeholders that hold no
/// instance.
pub open spec fn initial(job: Seq<u8>, card: Seq<RateEntryView>, now: nat) -> ManagerView {
    ManagerView {
        job,
        card,
        balance: 60,
        rate: 1,
        original_rate: 1,
        last_settled: now,
        min_rate: 1,
        image_url: Seq::empty(),
        instance_type: default_instance_type(),
        binding: None,
        finished: false,
    }
}

/// The seconds until the balance runs out, seen at `now`; `None` where the
/// rate is zero and it never does. The runway `balance / rate` counts from
/// the last settlement and is capped at the largest `u64`.
pub open spec fn time_left(m: ManagerView, now: nat) -> Option<nat> {
    if m.rate == 0 {
        None
    } else {
        let runway = m.balance / m.rate;
        let capped = if runway > u64::MAX {
            u64::MAX as nat
        } else {
            runway
        };
        Some(saturating_diff(capped, saturating_diff(now, m.last_settled)))
    }
}

/// The balance that is predicted to remain at time `t`.
pub open spec fn predicted_balance(m: ManagerView, t: int) -> int {
    m.balance - m.rate * (t - m.last_settled)
}

/// Whether the manager can take the event: a deposit must leave the balance
/// within 256 bits.
pub open spec fn accepts(m: ManagerView, e: JobEventView) -> bool {
    match e {
        JobEventView::Deposited { amount } => m.finished || m.balance + amount <= max_amount(),
        _ => true,
    }
}

/// The manager after an event, and the step that is due.
pub open spec fn on_event(m: ManagerView, e: JobEventView) -> (ManagerView, StepView) {
    if m.finished {
        (m, StepView::Finish(None))
    } else {
        match e {
            JobEventView::Opened { metadata, rate, balance, timestamp } => {
                let instance_type = match metadata.instance_type {
                    Some(t) => t,
                    None => default_instance_type(),
                };
                (
                    ManagerView {
                        balance,
                        rate,
                        original_rate: rate,
                        last_settled: timestamp,
                        min_rate: min_rate_of(m.card, instance_type),
                        image_url: metadata.image_url,
                        instance_type,
                        ..m
                    },
                    StepView::Discover,
                )
            },
            JobEventView::Settled { amount, timestamp } => (
                ManagerView {
                    balance: saturating_diff(m.balance, amount),
                    last_settled: timestamp,
                    ..m
                },
                StepView::Wait,
            ),
            JobEventView::Closed => (
                ManagerView { binding: None, finished: true, ..m },
                StepView::Finish(m.binding),
            ),
            JobEventView::Deposited { amount } => (
                ManagerView { balance: m.balance + amount, ..m },
                StepView::Wait,
            ),
            JobEventView::Withdrew { amount } => (
                ManagerView { balance: saturating_diff(m.balance, amount), ..m },
                StepView::Wait,
            ),
            JobEventView::RevisedRate { new_rate } => (
                ManagerView { rate: new_rate, original_rate: m.rate, ..m },
                if new_rate >= m.min_rate && m.binding is None {
                    StepView::Discover
                } else {
                    StepView::Wait
                },
            ),
            JobEventView::LockCreated { new_rate } => match m.binding {
                Some(id) => if new_rate < m.min_rate {
                    (
                        ManagerView { rate: new_rate, original_rate: m.rate, binding: None, ..m },
                        StepView::SpinDown(id),
                    )
                } else {
                    (ManagerView { rate: new_rate, original_rate: m.rate, ..m }, StepView::Wait)
                },
                None => (
                    ManagerView { rate: new_rate, original_rate: m.rate, ..m },
                    StepView::Wait,
                ),
            },
            JobEventView::LockDeleted => (ManagerView { original_rate: m.rate, ..m }, StepView::Wait),
        }
    }
}

/// The manager after the insolvency timer has fired, and the step that is
/// due: the bound instance goes down and the task ends.
pub open spec fn on_timeout(m: ManagerView) -> (ManagerView, StepView) {
    if m.finished {
        (m, StepView::Finish(None))
    } else {
        (ManagerView { binding: None, finished: true, ..m }, StepView::Finish(m.binding))
    }
}

/// The manager after a lookup of the job's instance, and what is due. What
/// the cloud holds decides the binding: a found instance is adopted or, below
/// the minimum rate, spun down; where none is found, one is spun up unless
/// the rate is below the minimum.
pub open spec fn on_lookup(m: ManagerView, found: Option<Seq<char>>) -> (
    ManagerView,
    ProvisionView,
) {
    if m.finished {
        (m, ProvisionView::Keep)
    } else {
        match found {
            Some(id) => if m.rate >= m.min_rate {
                (ManagerView { binding: Some(id), ..m }, ProvisionView::Keep)
            } else {
                (ManagerView { binding: None, ..m }, ProvisionView::SpinDown(id))
            },
            None => if m.rate >= m.min_rate {
                (
                    ManagerView { binding: None, ..m },
                    ProvisionView::SpinUp(
                        SpinUpRequestView {
                            image_url: m.image_url,
                            job: m.job,
                            instance_type: m.instance_type,
                        },
                    ),
                )
            } else {
                (ManagerView { binding: None, ..m }, ProvisionView::Keep)
            },
        }
    }
}

/// The manager after a spin-up has returned an instance.
pub open spec fn on_launched(m: ManagerView, instance: Seq<char>) -> ManagerView {
    if m.finished {
        m
    } else {
        ManagerView { binding: Some(instance), ..m }
    }
}

impl JobManager {
    /// A manager at the start of its task, before any event: it holds
    /// placeholders and no instance.
    pub fn new(job: JobId, card: RateCard, now: u64) -> (r: JobManager)
        ensures
            r@ == initial(job@, card@, now as nat),
    {
        JobManager {
            job,
            card,
            solvency: SolvencyState {
                balance: Amount::from_u64(60),
                rate: Amount::one(),
                original_rate: Amount::one(),
                last_settled: now,
                min_rate: Amount::one(),
            },
            image_url: String::new(),
            instance_type: "c6a.xlarge".to_owned(),
            binding: None,
            finished: false,
        }
    }

    /// The seconds after which the insolvency timer fires, seen at `now`;
    /// `None` where the rate is zero and the timer is never armed.
    pub fn time_to_insolvency(&self, now: u64) -> (r: Option<u64>)
        ensures
            match r {
                Some(d) => time_left(self@, now as nat) == Some(d as nat),
                None => time_left(self@, now as nat) is None,
            },
            self@.rate == 0 <==> r is None,
    {
        if self.solvency.rate.is_zero() {
            None
        } else {
            let runway: u64 = self.solvency.balance.div(&self.solvency.rate).saturating_u64();
            let elapsed: u64 = now.saturating_sub(self.solvency.last_settled);
            Some(runway.saturating_sub(elapsed))
        }
    }

    /// Whether `handle_event` can take the event: a deposit must leave the
    /// balance within 256 bits.
    pub fn accepts(&self, event: &JobEvent) -> (r: bool)
        ensures
            r == accepts(self@, event@),
    {
        match event {
            JobEvent::Deposited { amount } => self.finished || self.solvency.balance.checked_add(
                amount,
            ).is_some(),
            _ => true,
        }
    }

    /// Takes an event of the job and says which step is due.
    pub fn handle_event(&mut self, event: JobEvent) -> (step: Step)
        requires
            accepts(old(self)@, event@),
        ensures
            (final(self)@, step@) == on_event(old(self)@, event@),
    {
        if self.finished {
            return Step::Finish(None);
        }
        match event {
            JobEvent::Opened { metadata, rate, balance, timestamp } => {
                let instance_type = match metadata.instance_type {
                    Some(t) => t,
                    None => "c6a.xlarge".to_owned(),
                };
                self.solvency =
                SolvencyState {
                    balance,
                    rate,
                    original_rate: rate,
                    last_settled: timestamp,
                    min_rate: self.card.min_rate_for(instance_type.as_str()),
                };
                self.image_url = metadata.image_url;
                self.instance_type = instance_type;
                Step::Discover
            },
            JobEvent::Settled { amount, timestamp } => {
                self.solvency.balance = self.solvency.balance.saturating_sub(&amount);
                self.solvency.last_settled = timestamp;
                Step::Wait
            },
            JobEvent::Closed => {
                self.finished = true;
                Step::Finish(self.binding.take())
            },
            JobEvent::Deposited { amount } => {
                match self.solvency.balance.checked_add(&amount) {
                    Some(sum) => {
                        self.solvency.balance = sum;
                    },
                    None => {},
                }
                Step::Wait
            },
            JobEvent::Withdrew { amount } => {
                self.solvency.balance = self.solvency.balance.saturating_sub(&amount);
                Step::Wait
            },
            JobEvent::RevisedRate { new_rate } => {
                self.solvency.original_rate = self.solvency.rate;
                self.solvency.rate = new_rate;
                if new_rate.at_least(&self.solvency.min_rate) && self.binding.is_none() {
                    Step::Discover
                } else {
                    Step::Wait
                }
            },
            JobEvent::LockCreated { new_rate } => {
                self.solvency.original_rate = self.solvency.rate;
                self.solvency.rate = new_rate;
                if new_rate.less_than(&self.solvency.min_rate) {
                    match self.binding.take() {
                        Some(id) => Step::SpinDown(id),
                        None => Step::Wait,
                    }
                } else {
                    Step::Wait
                }
            },
            JobEvent::LockDeleted => {
                self.solvency.original_rate = self.solvency.rate;
                Step::Wait
            },
        }
    }

    /// Takes the firing of the insolvency timer: the bound instance goes
    /// down and the task ends.
    pub fn handle_timeout(&mut self) -> (step: Step)
        ensures
            (final(self)@, step@) == on_timeout(old(self)@),
    {
        if self.finished {
            Step::Finish(None)
        } else {
            self.finished = true;
            Step::Finish(self.binding.take())
        }
    }

    /// Takes the answer of a lookup of the job's instance, `None` where the
    /// cloud holds none, and says what is due.
    pub fn reconcile(&mut self, found: Option<String>) -> (r: Provision)
        ensures
            (final(self)@, r@) == on_lookup(
                old(self)@,
                match found {
                    Some(id) => Some(id@),
                    None => None,
                },
            ),
    {
        if self.finished {
            return Provision::Keep;
        }
        let serve = self.solvency.rate.at_least(&self.solvency.min_rate);
        match found {
            Some(id) => {
                if serve {
                    self.binding = Some(id);
                    Provision::Keep
                } else {
                    self.binding = None;
                    Provision::SpinDown(id)
                }
            },
            None => {
                self.binding = None;
                if serve {
                    Provision::SpinUp(
                        SpinUpRequest {
                            image_url: self.image_url.clone(),
                            job: self.job,
                            instance_type: self.instance_type.clone(),
                        },
                    )
                } else {
                    Provision::Keep
                }
            },
        }
    }

    /// Takes the identifier of the instance that a spin-up returned and
    /// binds it to the job.
    pub fn launched(&mut self, instance: String)
        ensures
            final(self)@ == on_launched(old(self)@, instance@),
    {
        if !self.finished {
            self.binding = Some(instance);
        }
    }
}

} // verus!
