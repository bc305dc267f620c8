//! What the pages of the grid engine are asked for.
use vstd::prelude::*;
use vstd::string::*;
use crate::json;
use crate::market::{KlineData, TradeDirection};
use crate::num::Num;
use crate::roster;
use crate::routes;
use crate::routes::Answer;
use crate::symbols;
use crate::table;
use crate::text;
use crate::grid::engine::{EngineView, RealtimeEngine, Subscriber};
use crate::grid::score;
use crate::grid::score::{GridScore, GridScoreView};
use crate::grid::tracker::{SymbolTracker, TrackerView};

verus! {

impl EngineView {
    /// The engine after a subscription; one that is refused changes nothing.
    pub open spec fn subscribed(self, id: Option<Seq<char>>, size: Option<Seq<char>>) -> EngineView {
        match routes::subscription(id, size) {
            Some((sub_id, size)) => EngineView {
                subscribers: roster::put(self.subscribers, sub_id, Subscriber { sub_id, size }),
                ..self
            },
            None => self,
        }
    }

    /// The engine after a subscriber was removed.
    pub open spec fn unsubscribed(self, id: Option<Seq<char>>) -> EngineView {
        match routes::removal(id) {
            Some(sub_id) => EngineView {
                subscribers: roster::without(self.subscribers, sub_id),
                ..self
            },
            None => self,
        }
    }
}

/// What is told of an active trade.
#[derive(Clone, Copy, Debug)]
pub struct ActiveVitals {
    pub level: i32,
    pub direction: TradeDirection,
    pub entry_price: Num,
    pub sl: Num,
    pub tp: Num,
}

/// What is told of the active trade of a symbol.
pub open spec fn active_vitals(tr: TrackerView) -> Option<ActiveVitals> {
    match tr.active_trade {
        Some(t) => Some(
            ActiveVitals {
                level: t.level,
                direction: t.direction,
                entry_price: t.entry_price,
                sl: t.sl,
                tp: t.tp,
            },
        ),
        None => None,
    }
}

/// See [`active_vitals`].
fn active_vitals_of(tr: &SymbolTracker) -> (r: Option<ActiveVitals>)
    ensures
        r == active_vitals(tr@),
{
    match &tr.active_trade {
        Some(t) => Some(
            ActiveVitals {
                level: t.level,
                direction: t.direction,
                entry_price: t.entry_price,
                sl: t.sl,
                tp: t.tp,
            },
        ),
        None => None,
    }
}

/// What is told of a symbol.
#[derive(Debug)]
pub struct Vitals {
    pub symbol: String,
    pub base_price: Num,
    pub current_price: Option<Num>,
    pub klines: usize,
    pub closed_trades: usize,
    pub active: Option<ActiveVitals>,
}

/// The contents of a [`Vitals`].
#[verifier::ext_equal]
pub struct VitalsView {
    pub symbol: Seq<char>,
    pub base_price: Num,
    pub current_price: Option<Num>,
    pub klines: nat,
    pub closed_trades: nat,
    pub active: Option<ActiveVitals>,
}

impl View for Vitals {
    type V = VitalsView;

    open spec fn view(&self) -> VitalsView {
        VitalsView {
            symbol: self.symbol@,
            base_price: self.base_price,
            current_price: self.current_price,
            klines: self.klines as nat,
            closed_trades: self.closed_trades as nat,
            active: self.active,
        }
    }
}

/// The contents of some.
pub open spec fn vitals_views(s: Seq<Vitals>) -> Seq<VitalsView> {
    Seq::new(s.len(), |i: int| s[i]@)
}

/// What is told of a symbol.
pub open spec fn vitals_of(sym: Seq<char>, tr: TrackerView) -> VitalsView {
    VitalsView {
        symbol: sym,
        base_price: tr.base_price,
        current_price: tr.current_price,
        klines: tr.klines.len(),
        closed_trades: tr.closed_trades.len(),
        active: active_vitals(tr),
    }
}

/// What is told of all symbols.
pub open spec fn all_vitals(trackers: Seq<(Seq<char>, TrackerView)>) -> Seq<VitalsView> {
    Seq::new(trackers.len(), |i: int| vitals_of(trackers[i].0, trackers[i].1))
}

/// See [`vitals_of`].
fn make_vitals(sym: &String, tr: &SymbolTracker) -> (r: Vitals)
    ensures
        r@ == vitals_of(sym@, tr@),
{
    Vitals {
        symbol: sym.clone(),
        base_price: tr.base_price,
        current_price: tr.current_price,
        klines: tr.klines.len(),
        closed_trades: tr.closed_trades.len(),
        active: active_vitals_of(tr),
    }
}

/// The contents of some scores.
pub open spec fn score_views(s: Seq<GridScore>) -> Seq<GridScoreView> {
    Seq::new(s.len(), |i: int| s[i]@)
}

/// The score of a symbol under its name: what its bars say where there are fifty or
/// more, else the score of no bars.
pub open spec fn named_score(symbol: Seq<char>, bars: Option<Seq<KlineData>>) -> GridScoreView {
    match bars {
        Some(klines) => if klines.len() >= routes::ENOUGH_BARS {
            GridScoreView { symbol, ..score::score(klines) }
        } else {
            GridScoreView { symbol, ..score::score(Seq::empty()) }
        },
        None => GridScoreView { symbol, ..score::score(Seq::empty()) },
    }
}

/// The bars of a list that may not be there.
pub open spec fn bars_view(bars: Option<Vec<KlineData>>) -> Option<Seq<KlineData>> {
    match bars {
        Some(v) => Some(v@),
        None => None,
    }
}

/// See [`named_score`].
pub fn score_named(symbol: String, bars: &Option<Vec<KlineData>>) -> (r: GridScore)
    requires
        *bars is Some ==> bars->0@.len() <= u32::MAX,
    ensures
        r@ == named_score(symbol@, bars_view(*bars)),
{
    let none: Vec<KlineData> = Vec::new();
    let klines: &Vec<KlineData> = match bars {
        Some(v) => if v.len() >= routes::ENOUGH_BARS {
            v
        } else {
            &none
        },
        None => &none,
    };
    let ghost used = klines@;
    assert(none@ =~= Seq::<KlineData>::empty());
    let mut r: GridScore = RealtimeEngine::score_symbol_grid(klines.as_slice());
    let ghost before = r@;
    r.symbol = symbol;
    assert(r@ =~= GridScoreView { symbol: symbol@, ..before });
    r
}

/// The best of some scores, the best first.
pub open spec fn recommended(scores: Seq<GridScoreView>) -> Seq<GridScoreView> {
    let order = routes::best(Seq::new(scores.len(), |i: int| scores[i].suitability));
    Seq::new(order.len(), |i: int| scores[order[i]])
}

/// The score of a symbol is a number, whatever its bars.
pub proof fn lemma_named_score(symbol: Seq<char>, bars: Option<Seq<KlineData>>)
    requires
        bars is Some ==> bars->0.len() <= u32::MAX,
    ensures
        !named_score(symbol, bars).suitability.nan(),
{
    score::lemma_suitability(Seq::<KlineData>::empty());
    if bars is Some {
        score::lemma_suitability(bars->0);
    }
}

/// The recommended are twenty, or all where there are fewer, and none has a smaller
/// suitability than one after it.
pub proof fn lemma_recommended(scores: Seq<GridScoreView>)
    requires
        forall|i: int| 0 <= i < scores.len() ==> !(#[trigger] scores[i]).suitability.nan(),
    ensures
        recommended(scores).len() == if scores.len() > routes::RECOMMENDED {
            routes::RECOMMENDED as nat
        } else {
            scores.len()
        },
        forall|i: int, j: int|
            0 <= i < j < recommended(scores).len() ==> !(#[trigger] recommended(
                scores,
            )[i]).suitability.below((#[trigger] recommended(scores)[j]).suitability),
{
    let merits = Seq::new(scores.len(), |i: int| scores[i].suitability);
    routes::lemma_best(merits);
    let order = routes::best(merits);
    assert forall|i: int, j: int| 0 <= i < j < recommended(scores).len() implies !(
    #[trigger] recommended(scores)[i]).suitability.below(
        (#[trigger] recommended(scores)[j]).suitability,
    ) by {
        assert(order[i] != order[j]);
        assert(merits[order[i]] == scores[order[i]].suitability);
        assert(merits[order[j]] == scores[order[j]].suitability);
    }
}

/// Another score of the same contents.
fn duplicate(s: &GridScore) -> (r: GridScore)
    ensures
        r@ == s@,
{
    GridScore {
        symbol: s.symbol.clone(),
        base_price: s.base_price,
        price_range_pct: s.price_range_pct,
        level_crosses: s.level_crosses,
        oscillation_score: s.oscillation_score,
        total_trades: s.total_trades,
        wins: s.wins,
        losses: s.losses,
        total_pnl_pct: s.total_pnl_pct,
        win_rate: s.win_rate,
        suitability: s.suitability,
    }
}

/// See [`recommended`].
pub fn recommend(scores: &Vec<GridScore>) -> (r: Vec<GridScore>)
    ensures
        score_views(r@) == recommended(score_views(scores@)),
{
    let mut keys: Vec<Num> = Vec::new();
    let ghost all = score_views(scores@);
    let mut i: usize = 0;
    while i < scores.len()
        invariant
            i <= scores@.len(),
            all == score_views(scores@),
            keys@.len() == i,
            forall|j: int| 0 <= j < i ==> #[trigger] keys@[j] == all[j].suitability,
        decreases scores@.len() - i,
    {
        keys.push(scores[i].suitability);
        i = i + 1;
    }
    assert(keys@ =~= Seq::new(all.len(), |i: int| all[i].suitability));
    let ranks: Vec<usize> = routes::rank_scores(&keys);
    let ghost wanted = recommended(all);
    let mut r: Vec<GridScore> = Vec::new();
    let mut j: usize = 0;
    assert(score_views(r@) =~= wanted.take(0));
    while j < ranks.len()
        invariant
            j <= ranks@.len(),
            all == score_views(scores@),
            wanted == recommended(all),
            wanted.len() == ranks@.len(),
            crate::order::as_positions(ranks@) == routes::best(
                Seq::new(all.len(), |i: int| all[i].suitability),
            ),
            forall|i: int| 0 <= i < ranks@.len() ==> (#[trigger] ranks@[i]) < scores@.len(),
            score_views(r@) == wanted.take(j as int),
        decreases ranks@.len() - j,
    {
        let ghost before = r@;
        let s: GridScore = duplicate(&scores[ranks[j]]);
        r.push(s);
        proof {
            assert(crate::order::as_positions(ranks@)[j as int] == ranks@[j as int]);
            assert(wanted[j as int] == s@);
            assert(score_views(r@) =~= score_views(before).push(s@));
            assert(wanted.take(j + 1) =~= wanted.take(j as int).push(wanted[j as int]));
        }
        j = j + 1;
    }
    assert(wanted.take(j as int) =~= wanted);
    r
}

impl RealtimeEngine {
    /// Watches a symbol that was asked for, at the price of the symbol that it is resolved
    /// to; says how to answer.
    pub fn watch(&mut self, param: &Option<String>, price: Option<Num>, format: &Option<String>) -> (r:
        Answer)
        requires
            old(self)@.wf(),
        ensures
            final(self)@.wf(),
            ({
                let asked = routes::asked_symbol(json::chars(*param));
                let name = symbols::resolved(asked);
                let key = text::uppercase(name);
                if asked.len() == 0 {
                    final(self)@ == old(self)@ && r@ == routes::no_symbol()
                } else {
                    &&& final(self)@ == old(self)@.added(key, price)
                    &&& r@ == routes::watch_answer(
                        name,
                        asked,
                        old(self)@.accepts(key, price),
                        json::chars(*format),
                    )
                }
            }),
    {
        let asked: String = routes::read_symbol(param);
        if asked.as_str().unicode_len() == 0 {
            return Answer::Json(routes::error_text("No symbol provided"));
        }
        self.watch_path(asked.as_str(), price, format)
    }

    /// Watches a symbol as it was given, at the price of the symbol that it is resolved
    /// to; says how to answer.
    pub fn watch_path(&mut self, symbol: &str, price: Option<Num>, format: &Option<String>) -> (r:
        Answer)
        requires
            old(self)@.wf(),
        ensures
            final(self)@.wf(),
            ({
                let name = symbols::resolved(symbol@);
                let key = text::uppercase(name);
                &&& final(self)@ == old(self)@.added(key, price)
                &&& r@ == routes::watch_answer(
                    name,
                    symbol@,
                    old(self)@.accepts(key, price),
                    json::chars(*format),
                )
            }),
    {
        let name: String = RealtimeEngine::resolve_symbol(symbol);
        let added: bool = self.add_tracker(name.as_str(), price);
        routes::answer_watch(name.as_str(), symbol, added, format)
    }

    /// Takes in a subscription; says how to answer.
    pub fn subscribe(
        &mut self,
        id: &Option<String>,
        size: &Option<String>,
        redirect: &Option<String>,
    ) -> (r: Answer)
        requires
            old(self)@.wf(),
        ensures
            final(self)@.wf(),
            final(self)@ == old(self)@.subscribed(json::chars(*id), json::chars(*size)),
            r@ == if routes::subscription(json::chars(*id), json::chars(*size)) is Some {
                routes::subscription_answer(json::chars(*redirect))
            } else {
                routes::refused_subscription()
            },
    {
        match routes::read_subscription(id, size) {
            Some((sub_id, size)) => {
                self.add_subscriber(sub_id, size);
                routes::answer_subscription(redirect)
            },
            None => Answer::Json(routes::error_text("Invalid subID")),
        }
    }

    /// Removes the subscriber that was asked for; says which, if it can be one.
    pub fn unsubscribe(&mut self, id: &Option<String>) -> (r: Option<i32>)
        requires
            old(self)@.wf(),
        ensures
            final(self)@.wf(),
            final(self)@ == old(self)@.unsubscribed(json::chars(*id)),
            r == routes::removal(json::chars(*id)),
    {
        let asked: Option<i32> = routes::read_removal(id);
        if let Some(sub_id) = asked {
            self.remove_subscriber(sub_id);
        }
        asked
    }

    /// What is told of all symbols.
    pub fn vitals(&self) -> (r: Vec<Vitals>)
        ensures
            vitals_views(r@) == all_vitals(self@.trackers),
    {
        let items: &Vec<(String, SymbolTracker)> = self.all_trackers();
        let ghost wanted = all_vitals(self@.trackers);
        let mut r: Vec<Vitals> = Vec::new();
        let mut i: usize = 0;
        assert(vitals_views(r@) =~= wanted.take(0));
        while i < items.len()
            invariant
                i <= items@.len(),
                table::rows(items@) == self@.trackers,
                wanted == all_vitals(self@.trackers),
                vitals_views(r@) == wanted.take(i as int),
            decreases items@.len() - i,
        {
            let ghost before = r@;
            let v: Vitals = make_vitals(&items[i].0, &items[i].1);
            r.push(v);
            proof {
                assert(self@.trackers[i as int] == (items@[i as int].0@, items@[i as int].1@));
                assert(vitals_views(r@) =~= vitals_views(before).push(v@));
                assert(wanted.take(i + 1) =~= wanted.take(i as int).push(wanted[i as int]));
            }
            i = i + 1;
        }
        assert(wanted.take(i as int) =~= wanted);
        r
    }
}

} // verus!
