use farmfe_plugin_css::dispatch::dispatch_in_order;
use farmfe_plugin_css::dispatch::{dispatch, stops_dispatch};
use farmfe_plugin_css::error::{CompilationError, HookResult};

fn fail() -> HookResult<u32> {
    HookResult::Failed(CompilationError::Io { path: "x".to_string(), msg: "denied".to_string() })
}

#[test]
fn first_handler_wins() {
    let outcomes = vec![HookResult::Handled(1u32), HookResult::Handled(2u32)];
    assert_eq!(dispatch(&outcomes), Some(0));
}

#[test]
fn decline_is_skipped() {
    let outcomes = vec![HookResult::NotApplicable, HookResult::Handled(7u32)];
    assert_eq!(dispatch(&outcomes), Some(1));
}

#[test]
fn all_decline_is_unhandled() {
    let outcomes: Vec<HookResult<u32>> = vec![HookResult::NotApplicable, HookResult::NotApplicable];
    assert_eq!(dispatch(&outcomes), None);
    assert_eq!(dispatch::<u32>(&vec![]), None);
}

#[test]
fn failure_stops_dispatch() {
    let outcomes = vec![HookResult::NotApplicable, fail(), HookResult::Handled(3u32)];
    assert_eq!(dispatch(&outcomes), Some(1));
    assert!(stops_dispatch(&fail()));
    assert!(!stops_dispatch(&HookResult::<u32>::NotApplicable));
    assert!(stops_dispatch(&HookResult::Handled(0u32)));
}

#[test]
fn dispatch_in_order_stops_at_first_handler() {
    let called = std::cell::RefCell::new(Vec::new());
    let (r, n) = dispatch_in_order(3, |i| {
        called.borrow_mut().push(i);
        if i == 0 { HookResult::NotApplicable } else { HookResult::Handled(i as u32) }
    });
    assert!(matches!(r, HookResult::Handled(1)));
    assert_eq!(n, 2);
    assert_eq!(*called.borrow(), vec![0, 1]);
}

#[test]
fn dispatch_in_order_all_decline() {
    let (r, n) = dispatch_in_order(2, |_| HookResult::<u32>::NotApplicable);
    assert!(matches!(r, HookResult::NotApplicable));
    assert_eq!(n, 2);
}

#[test]
fn dispatch_in_order_failure_aborts() {
    let (r, n) = dispatch_in_order(3, |i| if i == 0 { fail() } else { HookResult::Handled(9u32) });
    assert!(matches!(r, HookResult::Failed(_)));
    assert_eq!(n, 1);
}
