//! A model of a job's life, and what holds of every such life.
//!
//! The model joins a manager to the cloud it commands: each moment brings an
//! event or the firing of the timer, the driver carries out the steps that
//! the manager asks for, and the cloud changes accordingly. The theorems are
//! stated over this model and over the manager's own transition functions.

use vstd::prelude::*;
use crate::amount::saturating_diff;
use crate::event::{JobEventView, JobMetadataView};
use crate::manager::{
    default_instance_type,
    on_event,
    on_launched,
    on_lookup,
    on_timeout,
    predicted_balance,
    time_left,
    ManagerView,
    ProvisionView,
    SpinUpRequestView,
    StepView,
};
use crate::rate_card::{lemma_unlisted_rate_is_one, lists};

verus! {

/// What a moment brings to the manager.
pub enum Stimulus {
    /// An event of the job.
    Log(JobEventView),
    /// The firing of the insolvency timer.
    Timeout,
}

/// One moment of a job's life: what arrives, and what a spin-up returns
/// should the manager ask for one at this moment (`None`: it fails).
pub struct Moment {
    pub stimulus: Stimulus,
    pub launch: Option<Seq<char>>,
}

/// An operation on the cloud.
pub enum CloudCall {
    /// A lookup of the job's instance.
    Find,
    /// A spin-up.
    SpinUp(SpinUpRequestView),
    /// A spin-down of an instance.
    SpinDown(Seq<char>),
}

/// A manager, the instances that run for its job, in the order in which a
/// lookup meets them, and the operations carried out so far.
pub struct World {
    pub manager: ManagerView,
    pub cloud: Seq<Seq<char>>,
    pub calls: Seq<CloudCall>,
}

/// The answer of a lookup: the first instance of the job, if it has any.
pub open spec fn lookup(cloud: Seq<Seq<char>>) -> Option<Seq<char>> {
    if cloud.len() > 0 {
        Some(cloud[0])
    } else {
        None
    }
}

/// The cloud after the spin-down of an instance: the instance is gone, and
/// it is no error if it was not there.
pub open spec fn without(cloud: Seq<Seq<char>>, id: Seq<char>) -> Seq<Seq<char>>
    decreases cloud.len(),
{
    if cloud.len() == 0 {
        cloud
    } else if cloud.last() == id {
        without(cloud.drop_last(), id)
    } else {
        without(cloud.drop_last(), id).push(cloud.last())
    }
}

/// The world after the manager has taken the answer of a lookup and the
/// driver has carried out what it asked for.
pub open spec fn after_lookup(w: World, launch: Option<Seq<char>>) -> World {
    let (m, provision) = on_lookup(w.manager, lookup(w.cloud));
    let calls = w.calls.push(CloudCall::Find);
    match provision {
        ProvisionView::Keep => World { manager: m, cloud: w.cloud, calls },
        ProvisionView::SpinDown(id) => World {
            manager: m,
            cloud: without(w.cloud, id),
            calls: calls.push(CloudCall::SpinDown(id)),
        },
        ProvisionView::SpinUp(request) => match launch {
            Some(id) => World {
                manager: on_launched(m, id),
                cloud: w.cloud.push(id),
                calls: calls.push(CloudCall::SpinUp(request)),
            },
            None => World {
                manager: m,
                cloud: w.cloud,
                calls: calls.push(CloudCall::SpinUp(request)),
            },
        },
    }
}

/// The world after the driver has carried out a step.
pub open spec fn after_step(w: World, step: StepView, launch: Option<Seq<char>>) -> World {
    match step {
        StepView::Wait => w,
        StepView::Discover => after_lookup(w, launch),
        StepView::SpinDown(id) => World {
            cloud: without(w.cloud, id),
            calls: w.calls.push(CloudCall::SpinDown(id)),
            ..w
        },
        StepView::Finish(Some(id)) => World {
            cloud: without(w.cloud, id),
            calls: w.calls.push(CloudCall::SpinDown(id)),
            ..w
        },
        StepView::Finish(None) => w,
    }
}

/// The world after one moment.
pub open spec fn advance(w: World, moment: Moment) -> World {
    let (m, step) = match moment.stimulus {
        Stimulus::Log(e) => on_event(w.manager, e),
        Stimulus::Timeout => on_timeout(w.manager),
    };
    after_step(World { manager: m, ..w }, step, moment.launch)
}

/// The world after a run of moments.
pub open spec fn run(w: World, moments: Seq<Moment>) -> World
    decreases moments.len(),
{
    if moments.len() == 0 {
        w
    } else {
        advance(run(w, moments.drop_last()), moments.last())
    }
}

/// The job has at most one instance, and where the manager is bound, it is
/// bound to that instance.
pub open spec fn single_instance(w: World) -> bool {
    &&& w.cloud.len() <= 1
    &&& match w.manager.binding {
        Some(id) => w.cloud == seq![id],
        None => true,
    }
}

/// While the insolvency timer is pending, the job is solvent: seen at `now`,
/// at every instant before the timer fires the predicted balance is above
/// zero. With a rate of zero the timer is never armed and the balance stays
/// as it is. The one state left out holds neither rate nor balance.
pub proof fn lemma_solvent_while_timer_pending(m: ManagerView, now: nat, t: nat)
    requires
        m.rate > 0 || m.balance > 0,
        match time_left(m, now) {
            Some(d) => now <= t < now + d,
            None => true,
        },
    ensures
        predicted_balance(m, t as int) > 0,
{
    if m.rate == 0 {
        assert(m.rate * (t - m.last_settled) == 0) by (nonlinear_arith)
            requires
                m.rate == 0,
        ;
    } else {
        let runway = m.balance / m.rate;
        let span = t - m.last_settled;
        assert(span < runway);
        assert(m.rate * runway <= m.balance) by (nonlinear_arith)
            requires
                m.rate > 0,
                runway == m.balance / m.rate,
        ;
        assert(m.rate * span < m.rate * runway) by (nonlinear_arith)
            requires
                m.rate > 0,
                span < runway,
        ;
    }
}

/// With a rate of zero the insolvency timer is never armed.
pub proof fn lemma_zero_rate_never_due(m: ManagerView, now: nat)
    requires
        m.rate == 0,
    ensures
        time_left(m, now) is None,
{
}

/// The insolvency timer is set for the instant at which the runway,
/// `balance / rate` seconds from the last settlement, ends; an instant that
/// has passed is due at once.
pub proof fn lemma_insolvency_deadline(m: ManagerView, now: nat)
    requires
        m.rate > 0,
        m.balance / m.rate <= u64::MAX,
        now >= m.last_settled,
    ensures
        time_left(m, now) == Some(saturating_diff(m.last_settled + m.balance / m.rate, now)),
{
}

/// A job opened with a balance below its rate is insolvent at once:
/// whatever the lookup finds, the timer is due whenever it is read after the
/// opening, and its firing spins the bound instance down and ends the task.
pub proof fn lemma_underfunded_job_is_due(
    w: World,
    metadata: JobMetadataView,
    rate: nat,
    balance: nat,
    timestamp: nat,
    launch: Option<Seq<char>>,
    now: nat,
)
    requires
        !w.manager.finished,
        balance < rate,
    ensures
        ({
            let opened = advance(
                w,
                Moment {
                    stimulus: Stimulus::Log(
                        JobEventView::Opened { metadata, rate, balance, timestamp },
                    ),
                    launch,
                },
            );
            let fired = advance(opened, Moment { stimulus: Stimulus::Timeout, launch: None });
            &&& time_left(opened.manager, now) == Some(0nat)
            &&& fired.manager.finished
            &&& fired.manager.binding is None
            &&& fired.calls == match opened.manager.binding {
                Some(id) => opened.calls.push(CloudCall::SpinDown(id)),
                None => opened.calls,
            }
        }),
{
    assert(balance / rate == 0) by (nonlinear_arith)
        requires
            balance < rate,
    ;
}

/// An instance type that the rate card does not list is served from the
/// rate one: a job opened for it at any rate of one or more is launched
/// where the cloud holds no instance of it.
pub proof fn lemma_unlisted_type_launches(
    m: ManagerView,
    metadata: JobMetadataView,
    rate: nat,
    balance: nat,
    timestamp: nat,
)
    requires
        !m.finished,
        rate >= 1,
        !lists(
            m.card,
            match metadata.instance_type {
                Some(t) => t,
                None => default_instance_type(),
            },
        ),
    ensures
        ({
            let (opened, step) = on_event(
                m,
                JobEventView::Opened { metadata, rate, balance, timestamp },
            );
            &&& opened.min_rate == 1
            &&& step == StepView::Discover
            &&& on_lookup(opened, None).1 == ProvisionView::SpinUp(
                SpinUpRequestView {
                    image_url: metadata.image_url,
                    job: m.job,
                    instance_type: match metadata.instance_type {
                        Some(t) => t,
                        None => default_instance_type(),
                    },
                },
            )
        }),
{
    let instance_type = match metadata.instance_type {
        Some(t) => t,
        None => default_instance_type(),
    };
    lemma_unlisted_rate_is_one(m.card, instance_type);
}

/// A lock remembers the rate it replaces, and its deletion forgets it: after
/// `LockCreated` the manager holds the new rate and, as original rate, the
/// rate before the lock; after `LockDeleted` the original rate is the rate
/// in force, which the deletion does not change.
pub proof fn lemma_lock_cycle(m: ManagerView, new_rate: nat)
    requires
        !m.finished,
    ensures
        ({
            let locked = on_event(m, JobEventView::LockCreated { new_rate }).0;
            let unlocked = on_event(locked, JobEventView::LockDeleted).0;
            &&& locked.rate == new_rate
            &&& locked.original_rate == m.rate
            &&& unlocked.rate == new_rate
            &&& unlocked.original_rate == new_rate
        }),
{
}

/// Only `JobOpened`, `JobRevisedRate` and `LockCreated` change the rate:
/// every other moment, with all that the driver does in it, leaves it as it
/// was.
pub proof fn lemma_rate_changes_only_by_rate_events(w: World, moment: Moment)
    requires
        match moment.stimulus {
            Stimulus::Log(e) => !(e is Opened || e is RevisedRate || e is LockCreated),
            Stimulus::Timeout => true,
        },
    ensures
        advance(w, moment).manager.rate == w.manager.rate,
{
}

/// Whether a moment can touch the balance other than by a deposit, or end
/// the task.
pub open spec fn keeps_balance(moment: Moment) -> bool {
    match moment.stimulus {
        Stimulus::Log(e) => e is Deposited || e is RevisedRate || e is LockCreated
            || e is LockDeleted,
        Stimulus::Timeout => false,
    }
}

/// The sum of the deposits among the moments.
pub open spec fn deposited(moments: Seq<Moment>) -> nat
    decreases moments.len(),
{
    if moments.len() == 0 {
        0
    } else {
        deposited(moments.drop_last()) + match moments.last().stimulus {
            Stimulus::Log(JobEventView::Deposited { amount }) => amount,
            _ => 0,
        }
    }
}

/// Deposits add up: over a run without opening, settlement, withdrawal or
/// end of the task, the balance grows by exactly the sum of the deposits.
pub proof fn lemma_deposits_add_up(w: World, moments: Seq<Moment>)
    requires
        !w.manager.finished,
        forall|i: int| 0 <= i < moments.len() ==> keeps_balance(#[trigger] moments[i]),
    ensures
        !run(w, moments).manager.finished,
        run(w, moments).manager.balance == w.manager.balance + deposited(moments),
    decreases moments.len(),
{
    if moments.len() > 0 {
        let before = moments.drop_last();
        assert forall|i: int| 0 <= i < before.len() implies keeps_balance(#[trigger] before[i]) by {
            assert(before[i] == moments[i]);
        }
        lemma_deposits_add_up(w, before);
        assert(keeps_balance(moments.last()));
    }
}

/// A run of one deposit among moments that leave the balance alone raises
/// the balance by exactly the amount deposited.
pub proof fn lemma_single_deposit(w: World, before: Seq<Moment>, amount: nat, after: Seq<Moment>)
    requires
        !w.manager.finished,
        forall|i: int| 0 <= i < before.len() ==> keeps_balance(#[trigger] before[i]),
        forall|i: int| 0 <= i < after.len() ==> keeps_balance(#[trigger] after[i]),
        deposited(before) == 0,
        deposited(after) == 0,
    ensures
        ({
            let deposit = Moment {
                stimulus: Stimulus::Log(JobEventView::Deposited { amount }),
                launch: None,
            };
            run(w, before.push(deposit) + after).manager.balance == w.manager.balance + amount
        }),
{
    let deposit = Moment {
        stimulus: Stimulus::Log(JobEventView::Deposited { amount }),
        launch: None,
    };
    let all = before.push(deposit) + after;
    assert forall|i: int| 0 <= i < all.len() implies keeps_balance(#[trigger] all[i]) by {
        if i < before.len() {
            assert(all[i] == before[i]);
        } else if i == before.len() {
            assert(all[i] == deposit);
        } else {
            assert(all[i] == after[i - before.len() - 1]);
        }
    }
    lemma_deposits_add_up(w, all);
    lemma_deposited_concat(before.push(deposit), after);
    assert(before.push(deposit).drop_last() =~= before);
}

/// The deposits of two runs in a row are the sum of the deposits of each.
pub proof fn lemma_deposited_concat(a: Seq<Moment>, b: Seq<Moment>)
    ensures
        deposited(a + b) == deposited(a) + deposited(b),
    decreases b.len(),
{
    if b.len() == 0 {
        assert(a + b =~= a);
    } else {
        assert((a + b).drop_last() =~= a + b.drop_last());
        lemma_deposited_concat(a, b.drop_last());
    }
}

/// A spin-down leaves no more instances than there were, and none of a
/// single instance that it names.
pub proof fn lemma_without(cloud: Seq<Seq<char>>, id: Seq<char>)
    ensures
        without(cloud, id).len() <= cloud.len(),
        cloud == seq![id] ==> without(cloud, id).len() == 0,
    decreases cloud.len(),
{
    if cloud.len() > 0 {
        lemma_without(cloud.drop_last(), id);
        if cloud == seq![id] {
            assert(cloud.last() == id);
        }
    }
}

/// No moment gives the job a second instance: a world with at most one
/// instance, to which the manager is bound if it is bound at all, stays so,
/// whatever arrives and however a spin-up ends.
pub proof fn lemma_advance_keeps_single_instance(w: World, moment: Moment)
    requires
        single_instance(w),
    ensures
        single_instance(advance(w, moment)),
{
    let (m, step) = match moment.stimulus {
        Stimulus::Log(e) => on_event(w.manager, e),
        Stimulus::Timeout => on_timeout(w.manager),
    };
    match w.manager.binding {
        Some(id) => {
            lemma_without(w.cloud, id);
        },
        None => {},
    }
    match step {
        StepView::Wait => {},
        StepView::Discover => {
            match lookup(w.cloud) {
                Some(id) => {
                    lemma_without(w.cloud, id);
                    assert(w.cloud =~= seq![id]);
                },
                None => {
                    match moment.launch {
                        Some(id) => {
                            assert(w.cloud.push(id) =~= seq![id]);
                        },
                        None => {},
                    }
                },
            }
        },
        StepView::SpinDown(id) => {
            lemma_without(w.cloud, id);
        },
        StepView::Finish(Some(id)) => {
            lemma_without(w.cloud, id);
        },
        StepView::Finish(None) => {},
    }
}

/// Over a whole life the job never has two instances.
pub proof fn lemma_run_keeps_single_instance(w: World, moments: Seq<Moment>)
    requires
        single_instance(w),
    ensures
        single_instance(run(w, moments)),
    decreases moments.len(),
{
    if moments.len() > 0 {
        lemma_run_keeps_single_instance(w, moments.drop_last());
        lemma_advance_keeps_single_instance(run(w, moments.drop_last()), moments.last());
    }
}

/// The operations that a moment adds to those carried out before.
pub open spec fn calls_added(w: World, moment: Moment) -> Seq<CloudCall> {
    advance(w, moment).calls.skip(w.calls.len() as int)
}

/// A spin-up is asked for only after a lookup that found no instance: a
/// moment adds operations to those before it, and where it adds a spin-up,
/// it adds a lookup and the spin-up, and the job had no instance.
pub proof fn lemma_spin_up_follows_empty_lookup(w: World, moment: Moment)
    ensures
        advance(w, moment).calls == w.calls + calls_added(w, moment),
        forall|i: int|
            0 <= i < calls_added(w, moment).len() && (#[trigger] calls_added(w, moment)[i])
                is SpinUp ==> {
                &&& lookup(w.cloud) is None
                &&& calls_added(w, moment).len() == 2
                &&& calls_added(w, moment)[0] is Find
                &&& i == 1
            },
{
    let next = advance(w, moment);
    let added = calls_added(w, moment);
    let step = match moment.stimulus {
        Stimulus::Log(e) => on_event(w.manager, e).1,
        Stimulus::Timeout => on_timeout(w.manager).1,
    };
    match step {
        StepView::Wait => {
            assert(added =~= Seq::<CloudCall>::empty());
        },
        StepView::Discover => {
            assert(next.calls.len() >= w.calls.len() + 1);
            assert(next.calls =~= w.calls + added);
        },
        StepView::SpinDown(id) => {
            assert(added =~= seq![CloudCall::SpinDown(id)]);
        },
        StepView::Finish(Some(id)) => {
            assert(added =~= seq![CloudCall::SpinDown(id)]);
        },
        StepView::Finish(None) => {
            assert(added =~= Seq::<CloudCall>::empty());
        },
    }
    assert(next.calls =~= w.calls + added);
}

/// Once the task has ended, nothing more happens: no moment changes the
/// manager or the cloud, or calls for an operation.
pub proof fn lemma_finished_is_final(w: World, moments: Seq<Moment>)
    requires
        w.manager.finished,
    ensures
        run(w, moments) == w,
    decreases moments.len(),
{
    if moments.len() > 0 {
        lemma_finished_is_final(w, moments.drop_last());
    }
}

/// The run of a first moment followed by others.
pub proof fn lemma_run_from_first(w: World, first: Moment, rest: Seq<Moment>)
    ensures
        run(w, seq![first] + rest) == run(advance(w, first), rest),
    decreases rest.len(),
{
    let all = seq![first] + rest;
    if rest.len() == 0 {
        assert(all.drop_last() =~= Seq::<Moment>::empty());
        assert(run(w, all.drop_last()) == w);
    } else {
        assert(all.drop_last() =~= seq![first] + rest.drop_last());
        lemma_run_from_first(w, first, rest.drop_last());
    }
}

/// After `JobClosed` the manager of a bound job spins its instance down
/// exactly once and ends: the closing moment adds that one spin-down to the
/// operations, and no later moment adds anything.
pub proof fn lemma_close_spins_down_once(w: World, launch: Option<Seq<char>>, rest: Seq<Moment>)
    requires
        !w.manager.finished,
        w.manager.binding is Some,
    ensures
        ({
            let close = Moment { stimulus: Stimulus::Log(JobEventView::Closed), launch };
            let end = run(w, seq![close] + rest);
            &&& end.manager.finished
            &&& end.manager.binding is None
            &&& end.calls == w.calls.push(CloudCall::SpinDown(w.manager.binding->0))
        }),
{
    let close = Moment { stimulus: Stimulus::Log(JobEventView::Closed), launch };
    lemma_run_from_first(w, close, rest);
    lemma_finished_is_final(advance(w, close), rest);
}

/// Replaying a job's log forgets where the replay started: two managers of
/// the same job with the same rate card, neither of them ended, that replay
/// the same moments from `JobOpened` on against the same cloud end in the
/// same state, with the same cloud and after the same operations. The
/// binding comes from what the lookup finds, not from what was remembered.
pub proof fn lemma_replay_forgets_start(
    a: ManagerView,
    b: ManagerView,
    cloud: Seq<Seq<char>>,
    calls: Seq<CloudCall>,
    moments: Seq<Moment>,
)
    requires
        !a.finished,
        !b.finished,
        a.job == b.job,
        a.card == b.card,
        moments.len() > 0,
        moments[0].stimulus is Log,
        moments[0].stimulus->Log_0 is Opened,
    ensures
        run(World { manager: a, cloud, calls }, moments) == run(
            World { manager: b, cloud, calls },
            moments,
        ),
{
    let first = moments[0];
    let rest = moments.skip(1);
    assert(moments =~= seq![first] + rest);
    let wa = World { manager: a, cloud, calls };
    let wb = World { manager: b, cloud, calls };
    lemma_run_from_first(wa, first, rest);
    lemma_run_from_first(wb, first, rest);
    assert(advance(wa, first) == advance(wb, first));
}

} // verus!
