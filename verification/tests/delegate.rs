use auto_trading::DelegateState;

#[test]
fn after_reduce_keeps_opening_legs() {
    assert_eq!(DelegateState::Hedging(1, 2).after_reduce(), Some(DelegateState::Single(2)));
    assert_eq!(
        DelegateState::HedgingProfit(1, 2, 3).after_reduce(),
        Some(DelegateState::OpenProfit(2, 3))
    );
    assert_eq!(DelegateState::HedgingLoss(1, 2, 3).after_reduce(), Some(DelegateState::OpenLoss(2, 3)));
    assert_eq!(
        DelegateState::HedgingProfitLoss(1, 2, 3, 4).after_reduce(),
        Some(DelegateState::OpenProfitLoss(2, 3, 4))
    );
    assert_eq!(DelegateState::Single(1).after_reduce(), None);
    assert_eq!(DelegateState::ProfitLoss(1, 2).after_reduce(), None);
    assert_eq!(DelegateState::OpenProfit(1, 2).after_reduce(), None);
}

#[test]
fn after_open_keeps_exit_legs() {
    assert_eq!(DelegateState::OpenProfit(1, 2).after_open(), Some(DelegateState::Single(2)));
    assert_eq!(DelegateState::OpenLoss(1, 2).after_open(), Some(DelegateState::Single(2)));
    assert_eq!(
        DelegateState::OpenProfitLoss(1, 2, 3).after_open(),
        Some(DelegateState::ProfitLoss(2, 3))
    );
    assert_eq!(DelegateState::Single(1).after_open(), None);
    assert_eq!(DelegateState::Hedging(1, 2).after_open(), None);
}

#[test]
fn steps_run_out() {
    // Repeated steps end after at most as many steps as there are legs.
    let mut s = Some(DelegateState::HedgingProfitLoss(1, 2, 3, 4));
    let mut steps = 0;
    while let Some(t) = s {
        s = t.after_reduce().or_else(|| t.after_open()).or_else(|| match t {
            DelegateState::ProfitLoss(_, b) => Some(DelegateState::Single(b)),
            _ => None,
        });
        steps += 1;
    }
    assert_eq!(steps, 4);
}

#[test]
fn cancel_refunds_the_opening_leg() {
    assert_eq!(DelegateState::Single(1).cancel_refund(true), Some(1));
    assert_eq!(DelegateState::Single(1).cancel_refund(false), None);
    assert_eq!(DelegateState::Hedging(1, 2).cancel_refund(false), Some(2));
    assert_eq!(DelegateState::HedgingProfit(1, 2, 3).cancel_refund(false), Some(2));
    assert_eq!(DelegateState::HedgingLoss(1, 2, 3).cancel_refund(false), Some(2));
    assert_eq!(DelegateState::HedgingProfitLoss(1, 2, 3, 4).cancel_refund(false), Some(2));
    assert_eq!(DelegateState::OpenProfit(1, 2).cancel_refund(false), Some(1));
    assert_eq!(DelegateState::OpenLoss(1, 2).cancel_refund(false), Some(1));
    assert_eq!(DelegateState::OpenProfitLoss(1, 2, 3).cancel_refund(false), Some(1));
    assert_eq!(DelegateState::ProfitLoss(1, 2).cancel_refund(true), None);
}
