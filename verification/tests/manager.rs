use control_plane::amount::Amount;
use control_plane::event::{decode, Decoded, EventKind, JobEvent, JobId, JobMetadata};
use control_plane::manager::{JobManager, Provision, SpinUpRequest, Step};
use control_plane::rate_card::RateCard;
use ethers::abi::{encode, Token};
use ethers::types::U256;

const T: u64 = 1_700_000_000;

/// A cloud that keeps the instances of one job in memory.
struct Cloud {
    instances: Vec<String>,
    finds: usize,
    spin_ups: Vec<SpinUpRequest>,
    spin_downs: Vec<String>,
    launched: usize,
    refuse_launch: bool,
}

fn empty_cloud() -> Cloud {
    Cloud {
        instances: Vec::new(),
        finds: 0,
        spin_ups: Vec::new(),
        spin_downs: Vec::new(),
        launched: 0,
        refuse_launch: false,
    }
}

fn spin_down(cloud: &mut Cloud, id: String) {
    cloud.instances.retain(|known| *known != id);
    cloud.spin_downs.push(id);
}

/// Carries out a step as a driver does; says whether the task has ended.
fn carry_out(manager: &mut JobManager, cloud: &mut Cloud, step: Step) -> bool {
    match step {
        Step::Wait => false,
        Step::Discover => {
            cloud.finds += 1;
            match manager.reconcile(cloud.instances.first().cloned()) {
                Provision::Keep => {}
                Provision::SpinDown(id) => spin_down(cloud, id),
                Provision::SpinUp(request) => {
                    cloud.spin_ups.push(request);
                    if !cloud.refuse_launch {
                        cloud.launched += 1;
                        let id = format!("i-{}", cloud.launched);
                        cloud.instances.push(id.clone());
                        manager.launched(id);
                    }
                }
            }
            false
        }
        Step::SpinDown(id) => {
            spin_down(cloud, id);
            false
        }
        Step::Finish(instance) => {
            if let Some(id) = instance {
                spin_down(cloud, id);
            }
            true
        }
    }
}

fn deliver(manager: &mut JobManager, cloud: &mut Cloud, event: JobEvent) -> bool {
    assert!(manager.accepts(&event));
    let step = manager.handle_event(event);
    carry_out(manager, cloud, step)
}

fn job() -> JobId {
    JobId { bytes: [0x11; 32] }
}

fn manager_with(card: &str) -> JobManager {
    JobManager::new(job(), RateCard::parse(card).unwrap(), T - 10)
}

fn opened(rate: u64, balance: u64) -> JobEvent {
    JobEvent::Opened {
        metadata: JobMetadata {
            image_url: "http://x/enclave.eif".to_string(),
            instance_type: Some("c6a.xlarge".to_string()),
        },
        rate: Amount::from_u64(rate),
        balance: Amount::from_u64(balance),
        timestamp: T,
    }
}

/// A manager after the happy path: opened at rate 10 with balance 1000
/// against a minimum rate of 5, and bound to a fresh instance.
fn running() -> (JobManager, Cloud) {
    let mut manager = manager_with("c6a.xlarge:5");
    let mut cloud = empty_cloud();
    assert!(!deliver(&mut manager, &mut cloud, opened(10, 1000)));
    (manager, cloud)
}

#[test]
fn a_new_manager_holds_placeholders() {
    let manager = manager_with("c6a.xlarge:5");
    assert_eq!(manager.job, job());
    assert_eq!(manager.solvency.balance, Amount::from_u64(60));
    assert_eq!(manager.solvency.rate, Amount::one());
    assert_eq!(manager.solvency.original_rate, Amount::one());
    assert_eq!(manager.solvency.min_rate, Amount::one());
    assert_eq!(manager.solvency.last_settled, T - 10);
    assert_eq!(manager.instance_type, "c6a.xlarge");
    assert_eq!(manager.image_url, "");
    assert_eq!(manager.binding, None);
    assert!(!manager.finished);
    assert_eq!(manager.time_to_insolvency(T - 10), Some(60));
    assert_eq!(manager.time_to_insolvency(T), Some(50));
}

#[test]
fn happy_path() {
    let topic = EventKind::Opened.topic();
    let data = encode(&[
        Token::String("{\"instance\":\"c6a.xlarge\",\"url\":\"http://x/enclave.eif\"}".to_string()),
        Token::Uint(U256::from(10u64)),
        Token::Uint(U256::from(1000u64)),
        Token::Uint(U256::from(T)),
    ]);
    let event = match decode(&vec![topic], &data) {
        Decoded::Event(event) => event,
        other => panic!("not an event: {:?}", other),
    };
    let mut manager = manager_with("c6a.xlarge:5");
    let mut cloud = empty_cloud();
    assert!(!deliver(&mut manager, &mut cloud, event));

    assert_eq!(
        cloud.spin_ups,
        vec![SpinUpRequest {
            image_url: "http://x/enclave.eif".to_string(),
            job: job(),
            instance_type: "c6a.xlarge".to_string(),
        }]
    );
    assert_eq!(cloud.finds, 1);
    assert!(cloud.spin_downs.is_empty());
    assert_eq!(manager.binding, Some("i-1".to_string()));
    assert_eq!(manager.solvency.min_rate, Amount::from_u64(5));
    assert_eq!(manager.solvency.original_rate, Amount::from_u64(10));
    // insolvency at T + 100
    assert_eq!(manager.time_to_insolvency(T), Some(100));
    assert_eq!(manager.time_to_insolvency(T + 30), Some(70));
    assert_eq!(manager.time_to_insolvency(T + 100), Some(0));
    assert_eq!(manager.time_to_insolvency(T + 500), Some(0));
}

#[test]
fn settle_and_deposit_extend_life() {
    let (mut manager, mut cloud) = running();
    assert!(!deliver(
        &mut manager,
        &mut cloud,
        JobEvent::Settled { amount: Amount::from_u64(500), timestamp: T + 50 }
    ));
    assert_eq!(manager.solvency.balance, Amount::from_u64(500));
    assert_eq!(manager.time_to_insolvency(T + 50), Some(50));
    assert!(!deliver(
        &mut manager,
        &mut cloud,
        JobEvent::Deposited { amount: Amount::from_u64(500) }
    ));
    assert_eq!(manager.solvency.balance, Amount::from_u64(1000));
    assert_eq!(manager.solvency.last_settled, T + 50);
    // new insolvency at T + 150
    assert_eq!(manager.time_to_insolvency(T + 60), Some(90));
    assert_eq!(manager.time_to_insolvency(T + 150), Some(0));
    assert_eq!(cloud.spin_ups.len(), 1);
    assert!(cloud.spin_downs.is_empty());
    assert_eq!(manager.binding, Some("i-1".to_string()));
}

#[test]
fn close_spins_down_once_and_ends() {
    let (mut manager, mut cloud) = running();
    assert!(deliver(&mut manager, &mut cloud, JobEvent::Closed));
    assert_eq!(cloud.spin_downs, vec!["i-1".to_string()]);
    assert!(cloud.instances.is_empty());
    assert!(manager.finished);
    assert_eq!(manager.binding, None);
    // whatever comes later asks for nothing
    assert_eq!(manager.handle_event(JobEvent::Closed), Step::Finish(None));
    assert_eq!(manager.handle_event(opened(10, 1000)), Step::Finish(None));
    assert_eq!(manager.handle_timeout(), Step::Finish(None));
    assert_eq!(manager.reconcile(None), Provision::Keep);
    manager.launched("i-9".to_string());
    assert_eq!(manager.binding, None);
    assert_eq!(manager.solvency.balance, Amount::from_u64(1000));
}

#[test]
fn close_of_an_unbound_job_spins_nothing_down() {
    let mut manager = manager_with("c6a.xlarge:5");
    let mut cloud = empty_cloud();
    assert!(deliver(&mut manager, &mut cloud, JobEvent::Closed));
    assert!(cloud.spin_downs.is_empty());
    assert!(manager.finished);
}

#[test]
fn rate_locked_below_minimum() {
    let (mut manager, mut cloud) = running();
    assert!(!deliver(
        &mut manager,
        &mut cloud,
        JobEvent::LockCreated { new_rate: Amount::from_u64(4) }
    ));
    assert_eq!(cloud.spin_downs, vec!["i-1".to_string()]);
    assert_eq!(manager.binding, None);
    assert_eq!(manager.solvency.rate, Amount::from_u64(4));
    assert_eq!(manager.solvency.original_rate, Amount::from_u64(10));

    // the deletion of the lock alone does not respin
    assert!(!deliver(&mut manager, &mut cloud, JobEvent::LockDeleted));
    assert_eq!(manager.solvency.rate, Amount::from_u64(4));
    assert_eq!(manager.solvency.original_rate, Amount::from_u64(4));
    assert_eq!(manager.binding, None);
    assert_eq!(cloud.finds, 1);
    assert_eq!(cloud.spin_ups.len(), 1);

    // a revised rate above the minimum looks the instance up, then spins up
    assert!(!deliver(
        &mut manager,
        &mut cloud,
        JobEvent::RevisedRate { new_rate: Amount::from_u64(6) }
    ));
    assert_eq!(cloud.finds, 2);
    assert_eq!(cloud.spin_ups.len(), 2);
    assert_eq!(cloud.spin_ups[1].instance_type, "c6a.xlarge");
    assert_eq!(cloud.spin_ups[1].image_url, "http://x/enclave.eif");
    assert_eq!(manager.binding, Some("i-2".to_string()));
    assert_eq!(manager.solvency.rate, Amount::from_u64(6));
    assert_eq!(manager.solvency.original_rate, Amount::from_u64(4));
    assert_eq!(cloud.instances, vec!["i-2".to_string()]);
}

#[test]
fn restart_recovery() {
    let (_, mut cloud) = running();
    // the control plane restarts: a new manager replays the log
    let mut manager = manager_with("c6a.xlarge:5");
    assert_eq!(manager.binding, None);
    assert!(!deliver(&mut manager, &mut cloud, opened(10, 1000)));
    assert_eq!(cloud.spin_ups.len(), 1);
    assert_eq!(cloud.finds, 2);
    assert_eq!(manager.binding, Some("i-1".to_string()));
    assert_eq!(cloud.instances, vec!["i-1".to_string()]);
}

#[test]
fn insolvency_with_zero_rate() {
    let mut manager = manager_with("c6a.xlarge:5");
    let mut cloud = empty_cloud();
    assert!(!deliver(&mut manager, &mut cloud, opened(0, 0)));
    assert!(cloud.spin_ups.is_empty());
    assert_eq!(manager.binding, None);
    assert_eq!(manager.time_to_insolvency(T), None);
    assert_eq!(manager.time_to_insolvency(u64::MAX), None);
    // the same against a card that does not list the type: the minimum is one
    let mut manager = manager_with("");
    assert!(!deliver(&mut manager, &mut cloud, opened(0, 0)));
    assert_eq!(manager.solvency.min_rate, Amount::one());
    assert!(cloud.spin_ups.is_empty());
    assert_eq!(manager.time_to_insolvency(T + 1), None);
    // the task idles until the job is closed
    assert!(deliver(&mut manager, &mut cloud, JobEvent::Closed));
    assert!(cloud.spin_downs.is_empty());
    assert!(cloud.spin_ups.is_empty());
}

#[test]
fn two_openings_in_a_row_make_one_instance() {
    let (mut manager, mut cloud) = running();
    assert!(!deliver(&mut manager, &mut cloud, opened(10, 1000)));
    assert!(!deliver(&mut manager, &mut cloud, opened(10, 1000)));
    assert_eq!(cloud.spin_ups.len(), 1);
    assert_eq!(cloud.instances, vec!["i-1".to_string()]);
    assert_eq!(manager.binding, Some("i-1".to_string()));
}

#[test]
fn an_underfunded_job_is_insolvent_at_once() {
    let mut manager = manager_with("c6a.xlarge:5");
    let mut cloud = empty_cloud();
    assert!(!deliver(&mut manager, &mut cloud, opened(10, 9)));
    assert_eq!(manager.binding, Some("i-1".to_string()));
    assert_eq!(manager.time_to_insolvency(T), Some(0));
    assert_eq!(manager.time_to_insolvency(T - 5), Some(0));
    let step = manager.handle_timeout();
    assert_eq!(step, Step::Finish(Some("i-1".to_string())));
    assert!(carry_out(&mut manager, &mut cloud, step));
    assert_eq!(cloud.spin_downs, vec!["i-1".to_string()]);
    assert!(manager.finished);
    assert_eq!(manager.binding, None);
}

#[test]
fn a_type_missing_from_the_card_is_served_from_rate_one() {
    let mut manager = manager_with("m5.large:50");
    let mut cloud = empty_cloud();
    assert!(!deliver(&mut manager, &mut cloud, opened(1, 1000)));
    assert_eq!(manager.solvency.min_rate, Amount::one());
    assert_eq!(cloud.spin_ups.len(), 1);
    assert_eq!(manager.binding, Some("i-1".to_string()));
}

#[test]
fn an_opening_without_instance_type_uses_the_default_type() {
    let mut manager = manager_with("c6a.xlarge:5");
    let mut cloud = empty_cloud();
    // a first opening names another type
    let mut first = opened(10, 1000);
    if let JobEvent::Opened { metadata, .. } = &mut first {
        metadata.instance_type = Some("m5.large".to_string());
    }
    assert!(!deliver(&mut manager, &mut cloud, first));
    assert_eq!(manager.instance_type, "m5.large");
    assert_eq!(manager.solvency.min_rate, Amount::one());
    // a second opening names none
    let mut second = opened(10, 1000);
    if let JobEvent::Opened { metadata, .. } = &mut second {
        metadata.instance_type = None;
    }
    assert!(!deliver(&mut manager, &mut cloud, second));
    assert_eq!(manager.instance_type, "c6a.xlarge");
    assert_eq!(manager.solvency.min_rate, Amount::from_u64(5));
}

#[test]
fn an_opening_below_the_minimum_rate_launches_nothing() {
    let mut manager = manager_with("c6a.xlarge:5");
    let mut cloud = empty_cloud();
    assert!(!deliver(&mut manager, &mut cloud, opened(4, 1000)));
    assert_eq!(cloud.finds, 1);
    assert!(cloud.spin_ups.is_empty());
    assert!(cloud.spin_downs.is_empty());
    assert_eq!(manager.binding, None);
}

#[test]
fn an_opening_below_the_minimum_rate_spins_a_found_instance_down() {
    let (_, mut cloud) = running();
    let mut manager = manager_with("c6a.xlarge:5");
    assert!(!deliver(&mut manager, &mut cloud, opened(4, 1000)));
    assert_eq!(cloud.spin_downs, vec!["i-1".to_string()]);
    assert!(cloud.instances.is_empty());
    assert_eq!(manager.binding, None);
    assert_eq!(cloud.spin_ups.len(), 1);
}

#[test]
fn a_failed_spin_up_leaves_the_job_unbound_until_the_next_reconciliation() {
    let mut manager = manager_with("c6a.xlarge:5");
    let mut cloud = empty_cloud();
    cloud.refuse_launch = true;
    assert!(!deliver(&mut manager, &mut cloud, opened(10, 1000)));
    assert_eq!(cloud.spin_ups.len(), 1);
    assert_eq!(manager.binding, None);
    assert_eq!(manager.solvency.balance, Amount::from_u64(1000));
    cloud.refuse_launch = false;
    assert!(!deliver(
        &mut manager,
        &mut cloud,
        JobEvent::RevisedRate { new_rate: Amount::from_u64(10) }
    ));
    assert_eq!(cloud.spin_ups.len(), 2);
    assert_eq!(manager.binding, Some("i-1".to_string()));
}

#[test]
fn a_revised_rate_of_a_bound_job_asks_for_nothing() {
    let (mut manager, mut cloud) = running();
    assert_eq!(
        manager.handle_event(JobEvent::RevisedRate { new_rate: Amount::from_u64(20) }),
        Step::Wait
    );
    assert_eq!(manager.solvency.rate, Amount::from_u64(20));
    assert_eq!(manager.solvency.original_rate, Amount::from_u64(10));
    assert_eq!(manager.time_to_insolvency(T), Some(50));
    // a revised rate below the minimum does not reconcile either
    assert_eq!(
        manager.handle_event(JobEvent::RevisedRate { new_rate: Amount::from_u64(2) }),
        Step::Wait
    );
    assert_eq!(manager.binding, Some("i-1".to_string()));
    assert!(!deliver(&mut manager, &mut cloud, JobEvent::LockDeleted));
    assert_eq!(cloud.finds, 1);
}

#[test]
fn a_lock_at_or_above_the_minimum_keeps_the_instance() {
    let (mut manager, _) = running();
    assert_eq!(
        manager.handle_event(JobEvent::LockCreated { new_rate: Amount::from_u64(5) }),
        Step::Wait
    );
    assert_eq!(manager.binding, Some("i-1".to_string()));
    assert_eq!(manager.solvency.rate, Amount::from_u64(5));
    assert_eq!(manager.solvency.original_rate, Amount::from_u64(10));
}

#[test]
fn a_lock_below_the_minimum_of_an_unbound_job_asks_for_nothing() {
    let mut manager = manager_with("c6a.xlarge:5");
    assert_eq!(
        manager.handle_event(JobEvent::LockCreated { new_rate: Amount::zero() }),
        Step::Wait
    );
    assert_eq!(manager.solvency.rate, Amount::zero());
    assert_eq!(manager.solvency.original_rate, Amount::one());
}

#[test]
fn settlement_and_withdrawal_stop_at_zero() {
    let (mut manager, _) = running();
    assert_eq!(
        manager.handle_event(JobEvent::Withdrew { amount: Amount::from_u64(400) }),
        Step::Wait
    );
    assert_eq!(manager.solvency.balance, Amount::from_u64(600));
    assert_eq!(manager.solvency.last_settled, T);
    assert_eq!(
        manager.handle_event(JobEvent::Withdrew { amount: Amount::from_u64(601) }),
        Step::Wait
    );
    assert_eq!(manager.solvency.balance, Amount::zero());
    assert_eq!(
        manager.handle_event(JobEvent::Settled { amount: Amount::from_u64(1), timestamp: T + 7 }),
        Step::Wait
    );
    assert_eq!(manager.solvency.balance, Amount::zero());
    assert_eq!(manager.solvency.last_settled, T + 7);
    assert_eq!(manager.time_to_insolvency(T + 7), Some(0));
}

#[test]
fn a_deposit_that_overflows_is_not_accepted() {
    let (mut manager, _) = running();
    let top = Amount { l0: u64::MAX, l1: u64::MAX, l2: u64::MAX, l3: u64::MAX };
    assert!(!manager.accepts(&JobEvent::Deposited { amount: top }));
    assert!(manager.accepts(&JobEvent::Deposited {
        amount: top.saturating_sub(&Amount::from_u64(1000))
    }));
    assert!(manager.accepts(&JobEvent::Withdrew { amount: top }));
    assert!(manager.accepts(&JobEvent::Closed));
    manager.handle_event(JobEvent::Closed);
    assert!(manager.accepts(&JobEvent::Deposited { amount: top }));
}

#[test]
fn the_runway_is_capped_at_the_largest_u64() {
    let mut manager = manager_with("");
    let top = Amount { l0: u64::MAX, l1: u64::MAX, l2: u64::MAX, l3: u64::MAX };
    manager.handle_event(JobEvent::Opened {
        metadata: JobMetadata { image_url: "u".to_string(), instance_type: None },
        rate: Amount::one(),
        balance: top,
        timestamp: T,
    });
    assert_eq!(manager.time_to_insolvency(T), Some(u64::MAX));
    assert_eq!(manager.time_to_insolvency(T + 5), Some(u64::MAX - 5));
    // a clock behind the settlement counts as no time passed
    assert_eq!(manager.time_to_insolvency(0), Some(u64::MAX));
}

#[test]
fn the_timer_of_an_unbound_job_ends_the_task() {
    let mut manager = manager_with("c6a.xlarge:5");
    assert_eq!(manager.handle_timeout(), Step::Finish(None));
    assert!(manager.finished);
}

#[test]
fn a_lookup_decides_the_binding() {
    let (mut manager, _) = running();
    // the instance is gone from the cloud: a new one is asked for
    match manager.reconcile(None) {
        Provision::SpinUp(request) => assert_eq!(request.job, job()),
        other => panic!("no spin-up: {:?}", other),
    }
    assert_eq!(manager.binding, None);
    // the cloud holds another instance: it is adopted
    assert_eq!(manager.reconcile(Some("i-7".to_string())), Provision::Keep);
    assert_eq!(manager.binding, Some("i-7".to_string()));
}

#[test]
fn a_replay_ends_the_same_from_any_start() {
    let log = || {
        vec![
            opened(10, 1000),
            JobEvent::Settled { amount: Amount::from_u64(300), timestamp: T + 30 },
            JobEvent::Deposited { amount: Amount::from_u64(50) },
            JobEvent::LockCreated { new_rate: Amount::from_u64(7) },
            JobEvent::LockDeleted,
            JobEvent::RevisedRate { new_rate: Amount::from_u64(8) },
        ]
    };
    // one manager starts fresh, the other from a state of its own
    let mut fresh = manager_with("c6a.xlarge:5");
    let mut used = manager_with("c6a.xlarge:5");
    used.handle_event(JobEvent::Deposited { amount: Amount::from_u64(12345) });
    used.handle_event(JobEvent::LockCreated { new_rate: Amount::from_u64(99) });
    used.launched("i-stale".to_string());
    let mut cloud_of_fresh = empty_cloud();
    let mut cloud_of_used = empty_cloud();
    for event in log() {
        assert!(!deliver(&mut fresh, &mut cloud_of_fresh, event));
    }
    for event in log() {
        assert!(!deliver(&mut used, &mut cloud_of_used, event));
    }
    assert_eq!(fresh.solvency, used.solvency);
    assert_eq!(fresh.binding, used.binding);
    assert_eq!(fresh.image_url, used.image_url);
    assert_eq!(fresh.instance_type, used.instance_type);
    assert_eq!(cloud_of_fresh.instances, cloud_of_used.instances);
    assert_eq!(fresh.solvency.balance, Amount::from_u64(750));
    assert_eq!(fresh.solvency.rate, Amount::from_u64(8));
    assert_eq!(fresh.solvency.original_rate, Amount::from_u64(7));
    assert_eq!(fresh.binding, Some("i-1".to_string()));
}

#[test]
fn the_job_is_solvent_until_the_timer_fires() {
    let (manager, _) = running();
    // rate 10, balance 1000, settled at T: the timer read at T + 40 fires at T + 100
    let wait = manager.time_to_insolvency(T + 40).unwrap();
    assert_eq!(wait, 60);
    for t in [T + 40, T + 41, T + 99] {
        assert!(t < T + 40 + wait);
        assert!(1000i128 - 10 * (t as i128 - T as i128) > 0);
    }
    assert!(1000i128 - 10 * ((T + 40 + wait) as i128 - T as i128) <= 0);
}
