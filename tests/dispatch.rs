use pallet_collective_proxy::dispatch::{dispatched, Event, RestrictedOrigin};
use pallet_collective_proxy::filter::CallFilter;
use pallet_collective_proxy::presets::{Call, ProxyType};
use pallet_collective_proxy::registry::{Error, Pallet};

const ALICE: u64 = 1;
const BOB: u64 = 2;
const ZED: u64 = 26;

/// The outcome a host gets when it runs `call` under `origin`.
fn run(origin: &RestrictedOrigin<u64, ProxyType>, call: &Call) -> Result<u64, &'static str> {
    if origin.permits(call) {
        Ok(origin.account)
    } else {
        Err("CallFiltered")
    }
}

#[test]
fn filtered_call_is_reported_in_event_only() {
    let mut p: Pallet<u64, ProxyType> = Pallet::new(2);
    assert_eq!(p.add_proxy(true, ALICE, ProxyType::NonTransfer), Ok(()));
    let origin = p.execute_call(true, ALICE).unwrap();
    let transfer = Call::Transfer { dest: BOB, amount: 10 };
    assert!(!origin.permits(&transfer));
    let event = dispatched(run(&origin, &transfer));
    assert_eq!(event, Event::CollectiveProxyExecuted { result: Err("CallFiltered") });
}

#[test]
fn permitted_call_is_reported_as_success() {
    let mut p: Pallet<u64, ProxyType> = Pallet::new(2);
    assert_eq!(p.add_proxy(true, ALICE, ProxyType::NonTransfer), Ok(()));
    let origin = p.execute_call(true, ALICE).unwrap();
    let remark = Call::Remark { tag: 7 };
    assert!(origin.permits(&remark));
    let event = dispatched(run(&origin, &remark));
    assert_eq!(event, Event::CollectiveProxyExecuted { result: Ok(()) });
}

#[test]
fn execute_for_unknown_proxy_is_not_found() {
    let mut p: Pallet<u64, ProxyType> = Pallet::new(2);
    assert_eq!(p.add_proxy(true, ALICE, ProxyType::Any), Ok(()));
    assert_eq!(p.execute_call(true, ZED), Err(Error::NotFound));
}

#[test]
fn execute_without_executor_authority_is_refused() {
    let mut p: Pallet<u64, ProxyType> = Pallet::new(2);
    assert_eq!(p.add_proxy(true, ALICE, ProxyType::Any), Ok(()));
    let before = p.proxies().clone();
    assert_eq!(p.execute_call(false, ALICE), Err(Error::BadOrigin));
    assert_eq!(p.execute_call(false, ZED), Err(Error::BadOrigin));
    assert_eq!(p.proxies().clone(), before);
}

#[test]
fn execute_acts_as_grant_proxy_with_first_filter() {
    let mut p: Pallet<u64, ProxyType> = Pallet::new(3);
    assert_eq!(p.add_proxy(true, BOB, ProxyType::Any), Ok(()));
    assert_eq!(p.add_proxy(true, ALICE, ProxyType::NonTransfer), Ok(()));
    assert_eq!(p.add_proxy(true, ALICE, ProxyType::Any), Ok(()));
    let origin = p.execute_call(true, ALICE).unwrap();
    assert_eq!(origin, RestrictedOrigin { account: ALICE, filter: ProxyType::NonTransfer });
    assert_eq!(run(&origin, &Call::Remark { tag: 1 }), Ok(ALICE));
}

#[test]
fn dispatched_drops_success_payload() {
    let event: Event<u8> = dispatched(Ok::<u64, u8>(99));
    assert_eq!(event, Event::CollectiveProxyExecuted { result: Ok(()) });
    let event: Event<u8> = dispatched(Err::<u64, u8>(3));
    assert_eq!(event, Event::CollectiveProxyExecuted { result: Err(3) });
}

#[test]
fn any_filter_permits_every_call() {
    let transfer = Call::Transfer { dest: BOB, amount: 1 };
    let remark = Call::Remark { tag: 0 };
    assert!(ProxyType::Any.filter(&transfer));
    assert!(ProxyType::Any.filter(&remark));
    assert!(!ProxyType::NonTransfer.filter(&transfer));
    assert!(ProxyType::NonTransfer.filter(&remark));
}

#[test]
fn superset_relation_of_proxy_types() {
    assert!(ProxyType::Any.is_superset(&ProxyType::Any));
    assert!(ProxyType::Any.is_superset(&ProxyType::NonTransfer));
    assert!(ProxyType::NonTransfer.is_superset(&ProxyType::NonTransfer));
    assert!(!ProxyType::NonTransfer.is_superset(&ProxyType::Any));
    assert!(ProxyType::Any.same_as(&ProxyType::Any));
    assert!(!ProxyType::Any.same_as(&ProxyType::NonTransfer));
    assert_eq!(ProxyType::NonTransfer.duplicate(), ProxyType::NonTransfer);
}
