//! What the pages of the one-sided engine are asked for.
use vstd::prelude::*;
use vstd::string::*;
use crate::json;
use crate::num::Num;
use crate::roster;
use crate::routes;
use crate::routes::Answer;
use crate::symbols;
use crate::table;
use crate::text;
use crate::time::Moment;
use crate::top::engine;
use crate::top::engine::{Action, EngineView, RealtimeEngine, Subscriber};
use crate::top::tracker::{Side, SymbolTracker, TrackerView};

verus! {

impl EngineView {
    /// The engine after a subscription; one that is refused changes nothing.
    pub open spec fn subscribed(self, side: Side, id: Option<Seq<char>>, size: Option<Seq<char>>) -> EngineView {
        match routes::subscription(id, size) {
            Some((sub_id, size)) => EngineView {
                subscribers: roster::put(self.subscribers, sub_id, Subscriber { sub_id, side, size }),
                ..self
            },
            None => self,
        }
    }

    /// The engine after a subscriber was removed.
    pub open spec fn unsubscribed(self, id: Option<Seq<char>>) -> EngineView {
        match routes::removal(id) {
            Some(sub_id) => EngineView {
                subscribers: roster::without(self.subscribers, sub_id),
                ..self
            },
            None => self,
        }
    }
}

/// What is told of a symbol.
#[derive(Debug)]
pub struct Vitals {
    pub symbol: String,
    pub direction: Side,
    pub entry_price: Option<Num>,
    pub current_price: Option<Num>,
    pub in_position: bool,
    pub klines: usize,
    pub closed_trades: usize,
}

/// The contents of a [`Vitals`].
#[verifier::ext_equal]
pub struct VitalsView {
    pub symbol: Seq<char>,
    pub direction: Side,
    pub entry_price: Option<Num>,
    pub current_price: Option<Num>,
    pub in_position: bool,
    pub klines: nat,
    pub closed_trades: nat,
}

impl View for Vitals {
    type V = VitalsView;

    open spec fn view(&self) -> VitalsView {
        VitalsView {
            symbol: self.symbol@,
            direction: self.direction,
            entry_price: self.entry_price,
            current_price: self.current_price,
            in_position: self.in_position,
            klines: self.klines as nat,
            closed_trades: self.closed_trades as nat,
        }
    }
}

/// The contents of some.
pub open spec fn vitals_views(s: Seq<Vitals>) -> Seq<VitalsView> {
    Seq::new(s.len(), |i: int| s[i]@)
}

/// What is told of a symbol.
pub open spec fn vitals_of(sym: Seq<char>, tr: TrackerView) -> VitalsView {
    VitalsView {
        symbol: sym,
        direction: tr.direction,
        entry_price: tr.entry_price,
        current_price: tr.current_price,
        in_position: tr.in_position,
        klines: tr.klines.len(),
        closed_trades: tr.closed_trades.len(),
    }
}

/// What is told of all symbols.
pub open spec fn all_vitals(trackers: Seq<(Seq<char>, TrackerView)>) -> Seq<VitalsView> {
    Seq::new(trackers.len(), |i: int| vitals_of(trackers[i].0, trackers[i].1))
}

/// See [`vitals_of`].
fn make_vitals(sym: &String, tr: &SymbolTracker) -> (r: Vitals)
    ensures
        r@ == vitals_of(sym@, tr@),
{
    Vitals {
        symbol: sym.clone(),
        direction: tr.direction,
        entry_price: tr.entry_price,
        current_price: tr.current_price,
        in_position: tr.in_position,
        klines: tr.klines.len(),
        closed_trades: tr.closed_trades.len(),
    }
}

impl RealtimeEngine {
    /// Watches a symbol that was asked for, for a side, with the quote of the symbol that
    /// it is resolved to; says how to answer, and what is to be done.
    pub fn watch(
        &mut self,
        param: &Option<String>,
        side: Side,
        quote: Option<(Num, Num)>,
        now: Moment,
        format: &Option<String>,
    ) -> (r: (Answer, Vec<Action>))
        requires
            old(self)@.wf(),
        ensures
            final(self)@.wf(),
            ({
                let asked = routes::asked_symbol(json::chars(*param));
                let name = symbols::resolved_usdt(asked);
                let key = text::uppercase(name);
                if asked.len() == 0 {
                    &&& final(self)@ == old(self)@
                    &&& r.0@ == routes::no_symbol()
                    &&& r.1@.len() == 0
                } else {
                    &&& final(self)@ == old(self)@.added(key, side, quote, now).0
                    &&& engine::action_views(r.1@) == old(self)@.added(key, side, quote, now).1
                    &&& r.0@ == routes::watch_answer(
                        name,
                        asked,
                        old(self)@.accepts(key, side),
                        json::chars(*format),
                    )
                }
            }),
    {
        let asked: String = routes::read_symbol(param);
        if asked.as_str().unicode_len() == 0 {
            return (Answer::Json(routes::error_text("No symbol provided")), Vec::new());
        }
        self.watch_path(asked.as_str(), side, quote, now, format)
    }

    /// Watches a symbol as it was given, for a side, with the quote of the symbol that it
    /// is resolved to; says how to answer, and what is to be done.
    pub fn watch_path(
        &mut self,
        symbol: &str,
        side: Side,
        quote: Option<(Num, Num)>,
        now: Moment,
        format: &Option<String>,
    ) -> (r: (Answer, Vec<Action>))
        requires
            old(self)@.wf(),
        ensures
            final(self)@.wf(),
            ({
                let name = symbols::resolved_usdt(symbol@);
                let key = text::uppercase(name);
                &&& final(self)@ == old(self)@.added(key, side, quote, now).0
                &&& engine::action_views(r.1@) == old(self)@.added(key, side, quote, now).1
                &&& r.0@ == routes::watch_answer(
                    name,
                    symbol@,
                    old(self)@.accepts(key, side),
                    json::chars(*format),
                )
            }),
    {
        let name: String = RealtimeEngine::resolve_symbol(symbol);
        let (added, actions): (bool, Vec<Action>) = self.add_tracker(name.as_str(), side, quote, now);
        (routes::answer_watch(name.as_str(), symbol, added, format), actions)
    }

    /// Takes in a subscription; says how to answer.
    pub fn subscribe(
        &mut self,
        side: Side,
        id: &Option<String>,
        size: &Option<String>,
        redirect: &Option<String>,
    ) -> (r: Answer)
        requires
            old(self)@.wf(),
        ensures
            final(self)@.wf(),
            final(self)@ == old(self)@.subscribed(side, json::chars(*id), json::chars(*size)),
            r@ == if routes::subscription(json::chars(*id), json::chars(*size)) is Some {
                routes::subscription_answer(json::chars(*redirect))
            } else {
                routes::refused_subscription()
            },
    {
        match routes::read_subscription(id, size) {
            Some((sub_id, size)) => {
                self.add_subscriber(sub_id, side, size);
                routes::answer_subscription(redirect)
            },
            None => Answer::Json(routes::error_text("Invalid subID")),
        }
    }

    /// Removes the subscriber that was asked for; says which, if it can be one.
    pub fn unsubscribe(&mut self, id: &Option<String>) -> (r: Option<i32>)
        requires
            old(self)@.wf(),
        ensures
            final(self)@.wf(),
            final(self)@ == old(self)@.unsubscribed(json::chars(*id)),
            r == routes::removal(json::chars(*id)),
    {
        let asked: Option<i32> = routes::read_removal(id);
        if let Some(sub_id) = asked {
            self.remove_subscriber(sub_id);
        }
        asked
    }

    /// What is told of all symbols.
    pub fn vitals(&self) -> (r: Vec<Vitals>)
        ensures
            vitals_views(r@) == all_vitals(self@.trackers),
    {
        let items: &Vec<(String, SymbolTracker)> = self.all_trackers();
        let ghost wanted = all_vitals(self@.trackers);
        let mut r: Vec<Vitals> = Vec::new();
        let mut i: usize = 0;
        assert(vitals_views(r@) =~= wanted.take(0));
        while i < items.len()
            invariant
                i <= items@.len(),
                table::rows(items@) == self@.trackers,
                wanted == all_vitals(self@.trackers),
                vitals_views(r@) == wanted.take(i as int),
            decreases items@.len() - i,
        {
            let ghost before = r@;
            let v: Vitals = make_vitals(&items[i].0, &items[i].1);
            r.push(v);
            proof {
                assert(self@.trackers[i as int] == (items@[i as int].0@, items@[i as int].1@));
                assert(vitals_views(r@) =~= vitals_views(before).push(v@));
                assert(wanted.take(i + 1) =~= wanted.take(i as int).push(wanted[i as int]));
            }
            i = i + 1;
        }
        assert(wanted.take(i as int) =~= wanted);
        r
    }
}

} // verus!
