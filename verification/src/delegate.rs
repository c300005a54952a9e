//! The shape of an order as a matching engine holds it: one leg, or an
//! opening leg together with a reducing leg and take-profit / stop-loss legs.
//! The legs themselves (`D`) are the engine's.
use vstd::prelude::*;

verus! {

/// The legs of an order.
#[derive(Debug, Clone, Copy, PartialEq)]
pub enum DelegateState<D> {
    /// A single leg.
    Single(D),
    /// A reducing leg, then an opening leg.
    Hedging(D, D),
    /// A reducing leg, an opening leg, a take-profit leg.
    HedgingProfit(D, D, D),
    /// A reducing leg, an opening leg, a stop-loss leg.
    HedgingLoss(D, D, D),
    /// A reducing leg, an opening leg, a take-profit leg, a stop-loss leg.
    HedgingProfitLoss(D, D, D, D),
    /// An opening leg, a take-profit leg.
    OpenProfit(D, D),
    /// An opening leg, a stop-loss leg.
    OpenLoss(D, D),
    /// An opening leg, a take-profit leg, a stop-loss leg.
    OpenProfitLoss(D, D, D),
    /// A take-profit leg, a stop-loss leg.
    ProfitLoss(D, D),
}

impl<D> DelegateState<D> {
    /// Number of legs.
    pub open spec fn legs(self) -> nat {
        match self {
            DelegateState::Single(..) => 1,
            DelegateState::Hedging(..) => 2,
            DelegateState::HedgingProfit(..) => 3,
            DelegateState::HedgingLoss(..) => 3,
            DelegateState::HedgingProfitLoss(..) => 4,
            DelegateState::OpenProfit(..) => 2,
            DelegateState::OpenLoss(..) => 2,
            DelegateState::OpenProfitLoss(..) => 3,
            DelegateState::ProfitLoss(..) => 2,
        }
    }

    /// An opening leg with its optional take-profit and stop-loss legs.
    pub open spec fn spec_opening(open: D, profit: Option<D>, loss: Option<D>) -> DelegateState<D> {
        match (profit, loss) {
            (Some(p), None) => DelegateState::OpenProfit(open, p),
            (None, Some(l)) => DelegateState::OpenLoss(open, l),
            (Some(p), Some(l)) => DelegateState::OpenProfitLoss(open, p, l),
            (None, None) => DelegateState::Single(open),
        }
    }

    /// What is left once the reducing leg is done with (filled, or dropped
    /// because the position no longer fits it): the opening leg with its
    /// take-profit / stop-loss legs. `None` when the order had no reducing
    /// leg besides an opening one, and so is over.
    pub open spec fn spec_after_reduce(self) -> Option<DelegateState<D>> {
        match self {
            DelegateState::Hedging(_, v) => Some(DelegateState::Single(v)),
            DelegateState::HedgingProfit(_, a, b) => Some(DelegateState::OpenProfit(a, b)),
            DelegateState::HedgingLoss(_, a, b) => Some(DelegateState::OpenLoss(a, b)),
            DelegateState::HedgingProfitLoss(_, a, b, c) => Some(
                DelegateState::OpenProfitLoss(a, b, c),
            ),
            _ => None,
        }
    }

    /// What is left once the opening leg has filled: its take-profit /
    /// stop-loss legs. `None` when it had none, and so is over.
    pub open spec fn spec_after_open(self) -> Option<DelegateState<D>> {
        match self {
            DelegateState::OpenProfit(_, v) => Some(DelegateState::Single(v)),
            DelegateState::OpenLoss(_, v) => Some(DelegateState::Single(v)),
            DelegateState::OpenProfitLoss(_, a, b) => Some(DelegateState::ProfitLoss(a, b)),
            _ => None,
        }
    }

    /// The leg whose reserved margin a cancelled order gives back: its
    /// opening leg, where it has one besides other legs; a single leg when
    /// `single_opens` (whether that leg opens a position); none for exit
    /// legs alone.
    pub open spec fn spec_cancel_refund(self, single_opens: bool) -> Option<D> {
        match self {
            DelegateState::Single(v) => if single_opens {
                Some(v)
            } else {
                None
            },
            DelegateState::Hedging(_, v) => Some(v),
            DelegateState::HedgingProfit(_, v, _) => Some(v),
            DelegateState::HedgingLoss(_, v, _) => Some(v),
            DelegateState::HedgingProfitLoss(_, v, _, _) => Some(v),
            DelegateState::OpenProfit(v, _) => Some(v),
            DelegateState::OpenLoss(v, _) => Some(v),
            DelegateState::OpenProfitLoss(v, _, _) => Some(v),
            DelegateState::ProfitLoss(..) => None,
        }
    }
}

impl<D> DelegateState<D> {
    /// The reducing leg, as each variant's description places it.
    pub open spec fn reduce_leg(self) -> Option<D> {
        match self {
            DelegateState::Hedging(r, _) => Some(r),
            DelegateState::HedgingProfit(r, _, _) => Some(r),
            DelegateState::HedgingLoss(r, _, _) => Some(r),
            DelegateState::HedgingProfitLoss(r, _, _, _) => Some(r),
            _ => None,
        }
    }

    /// The opening leg, as each variant's description places it.
    pub open spec fn open_leg(self) -> Option<D> {
        match self {
            DelegateState::Hedging(_, o) => Some(o),
            DelegateState::HedgingProfit(_, o, _) => Some(o),
            DelegateState::HedgingLoss(_, o, _) => Some(o),
            DelegateState::HedgingProfitLoss(_, o, _, _) => Some(o),
            DelegateState::OpenProfit(o, _) => Some(o),
            DelegateState::OpenLoss(o, _) => Some(o),
            DelegateState::OpenProfitLoss(o, _, _) => Some(o),
            _ => None,
        }
    }

    /// The take-profit leg, as each variant's description places it.
    pub open spec fn profit_leg(self) -> Option<D> {
        match self {
            DelegateState::HedgingProfit(_, _, p) => Some(p),
            DelegateState::HedgingProfitLoss(_, _, p, _) => Some(p),
            DelegateState::OpenProfit(_, p) => Some(p),
            DelegateState::OpenProfitLoss(_, p, _) => Some(p),
            DelegateState::ProfitLoss(p, _) => Some(p),
            _ => None,
        }
    }

    /// The stop-loss leg, as each variant's description places it.
    pub open spec fn loss_leg(self) -> Option<D> {
        match self {
            DelegateState::HedgingLoss(_, _, l) => Some(l),
            DelegateState::HedgingProfitLoss(_, _, _, l) => Some(l),
            DelegateState::OpenLoss(_, l) => Some(l),
            DelegateState::OpenProfitLoss(_, _, l) => Some(l),
            DelegateState::ProfitLoss(_, l) => Some(l),
            _ => None,
        }
    }

    /// The leg of a single-leg order.
    pub open spec fn single_leg(self) -> Option<D> {
        match self {
            DelegateState::Single(v) => Some(v),
            _ => None,
        }
    }
}

impl<D: Copy> DelegateState<D> {
    /// The leg to refund when the order is cancelled; see
    /// [`DelegateState::spec_cancel_refund`].
    pub fn cancel_refund(&self, single_opens: bool) -> (r: Option<D>)
        ensures
            r == self.spec_cancel_refund(single_opens),
    {
        match *self {
            DelegateState::Single(v) => if single_opens {
                Some(v)
            } else {
                None
            },
            DelegateState::Hedging(_, v) => Some(v),
            DelegateState::HedgingProfit(_, v, _) => Some(v),
            DelegateState::HedgingLoss(_, v, _) => Some(v),
            DelegateState::HedgingProfitLoss(_, v, _, _) => Some(v),
            DelegateState::OpenProfit(v, _) => Some(v),
            DelegateState::OpenLoss(v, _) => Some(v),
            DelegateState::OpenProfitLoss(v, _, _) => Some(v),
            DelegateState::ProfitLoss(..) => None,
        }
    }

    /// An order made of the opening leg `open` with the take-profit leg
    /// `profit` and the stop-loss leg `loss`, each if given.
    pub fn opening(open: D, profit: Option<D>, loss: Option<D>) -> (r: DelegateState<D>)
        ensures
            r == Self::spec_opening(open, profit, loss),
    {
        match (profit, loss) {
            (Some(p), None) => DelegateState::OpenProfit(open, p),
            (None, Some(l)) => DelegateState::OpenLoss(open, l),
            (Some(p), Some(l)) => DelegateState::OpenProfitLoss(open, p, l),
            (None, None) => DelegateState::Single(open),
        }
    }

    /// The order once its reducing leg is done with; see [`DelegateState::spec_after_reduce`].
    pub fn after_reduce(&self) -> (r: Option<DelegateState<D>>)
        ensures
            r == self.spec_after_reduce(),
    {
        match *self {
            DelegateState::Hedging(_, v) => Some(DelegateState::Single(v)),
            DelegateState::HedgingProfit(_, a, b) => Some(DelegateState::OpenProfit(a, b)),
            DelegateState::HedgingLoss(_, a, b) => Some(DelegateState::OpenLoss(a, b)),
            DelegateState::HedgingProfitLoss(_, a, b, c) => Some(
                DelegateState::OpenProfitLoss(a, b, c),
            ),
            _ => None,
        }
    }

    /// The order once its opening leg has filled; see [`DelegateState::spec_after_open`].
    pub fn after_open(&self) -> (r: Option<DelegateState<D>>)
        ensures
            r == self.spec_after_open(),
    {
        match *self {
            DelegateState::OpenProfit(_, v) => Some(DelegateState::Single(v)),
            DelegateState::OpenLoss(_, v) => Some(DelegateState::Single(v)),
            DelegateState::OpenProfitLoss(_, a, b) => Some(DelegateState::ProfitLoss(a, b)),
            _ => None,
        }
    }
}

/// Each step drops exactly one leg and keeps the others in order, so an
/// order runs out of legs after finitely many steps; a step never brings a
/// reducing leg back, and after the opening leg no opening leg is left.
pub proof fn lemma_steps_drop_one_leg<D>(s: DelegateState<D>)
    ensures
        s.spec_after_reduce() matches Some(t) ==> t.legs() + 1 == s.legs()
            && t.spec_after_reduce() is None,
        s.spec_after_open() matches Some(t) ==> t.legs() + 1 == s.legs()
            && t.spec_after_reduce() is None && t.spec_after_open() is None,
{
}

/// The exit legs given with an opening order are exactly what is left once
/// its opening leg fills: the take-profit leg, the stop-loss leg, both (in
/// that order), or nothing.
pub proof fn lemma_opening_then_fill<D>(open: D, profit: Option<D>, loss: Option<D>)
    ensures
        DelegateState::spec_opening(open, profit, loss).spec_after_open() == match (profit, loss) {
            (Some(p), None) => Some(DelegateState::Single(p)),
            (None, Some(l)) => Some(DelegateState::Single(l)),
            (Some(p), Some(l)) => Some(DelegateState::ProfitLoss(p, l)),
            (None, None) => None::<DelegateState<D>>,
        },
        DelegateState::spec_opening(open, profit, loss).spec_after_reduce() is None,
{
}

/// An order with an opening leg still waiting refunds that leg when it is
/// cancelled, and what is left after that leg fills refunds nothing (its
/// margin is then held by the position).
pub proof fn lemma_cancel_refunds_opening<D>(open: D, profit: Option<D>, loss: Option<D>)
    ensures
        DelegateState::spec_opening(open, profit, loss).spec_cancel_refund(true) == Some(open),
        DelegateState::spec_opening(open, profit, loss).spec_after_open() matches Some(t) ==> (
        t.spec_cancel_refund(false) is None),
{
}

/// An opening order holds exactly the legs it was given, each in its own
/// role: `open` as its opening leg, `profit` as its take-profit leg, `loss`
/// as its stop-loss leg, and no reducing leg; given no exit leg it is the
/// single leg `open`.
pub proof fn lemma_opening_legs<D>(open: D, profit: Option<D>, loss: Option<D>)
    ensures
        ({
            let r = DelegateState::spec_opening(open, profit, loss);
            &&& r.reduce_leg() is None
            &&& r.profit_leg() == profit
            &&& r.loss_leg() == loss
            &&& (profit is Some || loss is Some) ==> r.open_leg() == Some(open)
            &&& (profit is None && loss is None) ==> r.single_leg() == Some(open)
            &&& r.legs() == 1 + (if profit is Some { 1nat } else { 0nat }) + (if loss is Some {
                1nat
            } else {
                0nat
            })
        }),
{
}

/// Dropping the reducing leg keeps every other leg in its role: the step is
/// taken exactly when there is a reducing leg, and the opening, take-profit
/// and stop-loss legs come through unchanged (an opening leg left alone
/// becomes a single leg).
pub proof fn lemma_after_reduce_legs<D>(s: DelegateState<D>)
    ensures
        s.spec_after_reduce() is Some <==> s.reduce_leg() is Some,
        s.spec_after_reduce() matches Some(t) ==> {
            &&& t.reduce_leg() is None
            &&& t.profit_leg() == s.profit_leg()
            &&& t.loss_leg() == s.loss_leg()
            &&& (t.open_leg() == s.open_leg() || (t.single_leg() == s.open_leg()
                && s.profit_leg() is None && s.loss_leg() is None))
        },
{
}

/// Filling the opening leg keeps the exit legs: the step is taken exactly
/// when there is an opening leg with an exit leg and no reducing leg, no
/// opening leg is left, and a lone exit leg becomes a single leg while two
/// stay the take-profit and stop-loss legs.
pub proof fn lemma_after_open_legs<D>(s: DelegateState<D>)
    ensures
        s.spec_after_open() is Some <==> (s.open_leg() is Some && s.reduce_leg() is None && (
        s.profit_leg() is Some || s.loss_leg() is Some)),
        s.spec_after_open() matches Some(t) ==> {
            &&& t.open_leg() is None
            &&& t.reduce_leg() is None
            &&& (s.profit_leg() is Some && s.loss_leg() is Some) ==> t.profit_leg()
                == s.profit_leg() && t.loss_leg() == s.loss_leg()
            &&& (s.profit_leg() is Some && s.loss_leg() is None) ==> t.single_leg()
                == s.profit_leg()
            &&& (s.profit_leg() is None && s.loss_leg() is Some) ==> t.single_leg()
                == s.loss_leg()
        },
{
}

/// A cancelled order with an opening leg beside other legs refunds that
/// opening leg, a single leg is refunded only when it opens, and exit legs
/// alone refund nothing.
pub proof fn lemma_cancel_refund_legs<D>(s: DelegateState<D>, single_opens: bool)
    ensures
        s.open_leg() is Some ==> s.spec_cancel_refund(single_opens) == s.open_leg(),
        s.single_leg() is Some ==> s.spec_cancel_refund(single_opens) == (if single_opens {
            s.single_leg()
        } else {
            None
        }),
        (s.open_leg() is None && s.single_leg() is None) ==> s.spec_cancel_refund(single_opens)
            is None,
{
}

} // verus!
