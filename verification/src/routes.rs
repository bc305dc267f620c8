//! What the pages are asked for, and how they answer.
use vstd::prelude::*;
use vstd::string::*;
use crate::figures;
use crate::json;
use crate::json::{Field, FieldView};
use crate::num::{num, Num};
use crate::order;
use crate::page;
use crate::page::{Glyph, NumStyle, Page};
use crate::stream;
use crate::symbols;
use crate::text;

verus! {

/// What is shown after everything was forgotten.
pub const CLEARED: &'static str = r#"<html><body style="font-family:monospace;background:#0d1117;color:#c9d1d9;padding:20px"><h2>All trackers & subscriptions cleared</h2><a href="/">Back</a></body></html>"#;

/// What is shown after everything was forgotten and the stream is connected anew.
pub const FLUSHED: &'static str = r#"<html><body style="font-family:monospace;background:#0d1117;color:#c9d1d9;padding:20px"><h2>All trackers & subscriptions cleared. WS will reconnect.</h2><a href="/">Back</a></body></html>"#;

/// How a request is answered.
#[derive(Debug)]
pub enum Answer {
    Dashboard,
    /// The page to manage subscribers and symbols.
    Manage,
    /// A JSON text.
    Json(String),
}

/// The contents of an [`Answer`].
#[verifier::ext_equal]
pub enum AnswerView {
    Dashboard,
    Manage,
    Json(Seq<char>),
}

impl View for Answer {
    type V = AnswerView;

    open spec fn view(&self) -> AnswerView {
        match *self {
            Answer::Dashboard => AnswerView::Dashboard,
            Answer::Manage => AnswerView::Manage,
            Answer::Json(s) => AnswerView::Json(s@),
        }
    }
}

/// Whether there is a parameter and it has this text.
pub fn says(o: &Option<String>, what: &str) -> (b: bool)
    ensures
        b == (json::chars(*o) == Some(what@)),
{
    match o {
        Some(s) => text::same(s.as_str(), what),
        None => false,
    }
}

/// The symbol that is asked for: without blanks around it, in capitals; empty where
/// there is none.
pub open spec fn asked_symbol(o: Option<Seq<char>>) -> Seq<char> {
    symbols::cleaned(stream::or_empty(o))
}

/// See [`asked_symbol`].
pub fn read_symbol(o: &Option<String>) -> (r: String)
    ensures
        r@ == asked_symbol(json::chars(*o)),
{
    match o {
        Some(s) => symbols::clean(s.as_str()),
        None => {
            let none: String = String::new();
            assert(none@ =~= Seq::<char>::empty());
            symbols::clean(none.as_str())
        },
    }
}

/// An error as a JSON text.
pub open spec fn error(message: Seq<char>) -> Seq<char> {
    json::object_text(seq![("error"@, FieldView::Text(message))])
}

/// See [`error`].
pub fn error_text(message: &str) -> (r: String)
    ensures
        r@ == error(message@),
{
    let mut fields: Vec<(String, Field)> = Vec::new();
    fields.push(("error".to_owned(), Field::Text(message.to_owned())));
    assert(json::field_views(fields@) =~= seq![("error"@, FieldView::Text(message@))]);
    json::write_object(fields)
}

/// The answer to a request without a symbol.
pub open spec fn no_symbol() -> AnswerView {
    AnswerView::Json(error("No symbol provided"@))
}

/// The answer to a request to watch a symbol: a JSON text if that is asked for, else the
/// dashboard.
pub open spec fn watch_answer(
    symbol: Seq<char>,
    original: Seq<char>,
    added: bool,
    format: Option<Seq<char>>,
) -> AnswerView {
    if format == Some("json"@) {
        AnswerView::Json(
            json::object_text(
                seq![
                    ("symbol"@, FieldView::Text(symbol)),
                    ("original"@, FieldView::Text(original)),
                    ("added"@, FieldView::Flag(added)),
                ],
            ),
        )
    } else {
        AnswerView::Dashboard
    }
}

/// See [`watch_answer`].
pub fn answer_watch(symbol: &str, original: &str, added: bool, format: &Option<String>) -> (r: Answer)
    ensures
        r@ == watch_answer(symbol@, original@, added, json::chars(*format)),
{
    if !says(format, "json") {
        return Answer::Dashboard;
    }
    let mut fields: Vec<(String, Field)> = Vec::new();
    fields.push(("symbol".to_owned(), Field::Text(symbol.to_owned())));
    fields.push(("original".to_owned(), Field::Text(original.to_owned())));
    fields.push(("added".to_owned(), Field::Flag(added)));
    assert(json::field_views(fields@) =~= seq![
        ("symbol"@, FieldView::Text(symbol@)),
        ("original"@, FieldView::Text(original@)),
        ("added"@, FieldView::Flag(added)),
    ]);
    Answer::Json(json::write_object(fields))
}

/// The 32-bit integer that a parameter writes, or another one.
pub open spec fn integer_or(o: Option<Seq<char>>, other: i32) -> i32 {
    match o {
        Some(s) => match text::parsed_integer(s, i32::MIN as int, i32::MAX as int) {
            Some(n) => n as i32,
            None => other,
        },
        None => other,
    }
}

/// See [`integer_or`].
pub fn read_integer_or(o: &Option<String>, other: i32) -> (r: i32)
    ensures
        r == integer_or(json::chars(*o), other),
{
    match o {
        Some(s) => match text::parse_integer(s.as_str(), i32::MIN as i64, i32::MAX as i64) {
            Some(n) => n as i32,
            None => other,
        },
        None => other,
    }
}

/// The number that a parameter writes, or another one.
pub open spec fn number_or(o: Option<Seq<char>>, other: Num) -> Num {
    match stream::number_in(o) {
        Some(n) => n,
        None => other,
    }
}

/// See [`number_or`].
pub fn read_number_or(o: &Option<String>, other: Num) -> (r: Num)
    ensures
        r == number_or(json::chars(*o), other),
{
    match stream::read_number(o) {
        Some(n) => n,
        None => other,
    }
}

/// The number and the stake that a subscription asks for: number zero and a stake of
/// five where it does not say. A negative number is refused.
pub open spec fn subscription(id: Option<Seq<char>>, size: Option<Seq<char>>) -> Option<(i32, Num)> {
    let sub_id = integer_or(id, 0);
    if sub_id < 0 {
        None
    } else {
        Some((sub_id, number_or(size, num(figures::FIVE))))
    }
}

/// See [`subscription`].
pub fn read_subscription(id: &Option<String>, size: &Option<String>) -> (r: Option<(i32, Num)>)
    ensures
        r == subscription(json::chars(*id), json::chars(*size)),
{
    let sub_id: i32 = read_integer_or(id, 0);
    if sub_id < 0 {
        return None;
    }
    Some((sub_id, read_number_or(size, num(figures::FIVE))))
}

/// The answer to a subscription that is refused.
pub open spec fn refused_subscription() -> AnswerView {
    AnswerView::Json(error("Invalid subID"@))
}

/// The answer to a subscription.
pub open spec fn subscription_answer(redirect: Option<Seq<char>>) -> AnswerView {
    if redirect == Some("subs"@) {
        AnswerView::Manage
    } else {
        AnswerView::Dashboard
    }
}

/// See [`subscription_answer`].
pub fn answer_subscription(redirect: &Option<String>) -> (r: Answer)
    ensures
        r@ == subscription_answer(json::chars(*redirect)),
{
    if says(redirect, "subs") {
        Answer::Manage
    } else {
        Answer::Dashboard
    }
}

/// The number of the subscriber to be removed, if one is asked for that can be.
pub open spec fn removal(id: Option<Seq<char>>) -> Option<i32> {
    let sub_id = integer_or(id, -1 as i32);
    if sub_id >= 0 {
        Some(sub_id)
    } else {
        None
    }
}

/// See [`removal`].
pub fn read_removal(id: &Option<String>) -> (r: Option<i32>)
    ensures
        r == removal(json::chars(*id)),
{
    let sub_id: i32 = read_integer_or(id, -1);
    if sub_id >= 0 {
        Some(sub_id)
    } else {
        None
    }
}

/// What is shown of a symbol that is not tracked.
pub fn not_found(symbol: &str) -> (r: String)
    ensures
        r@ == "<h2>Symbol "@ + symbol@ + " not found</h2><a href=\"/\">Back</a>"@,
{
    text::concat(
        text::concat("<h2>Symbol ", symbol).as_str(),
        " not found</h2><a href=\"/\">Back</a>",
    )
}

/// A percentage brought between a tenth and fifty.
pub open spec fn spec_bounded(n: Num) -> Num {
    n.within(num(figures::TENTH), num(figures::FIFTY))
}

/// See [`spec_bounded`].
#[verifier::when_used_as_spec(spec_bounded)]
pub fn bounded(n: Num) -> (r: Num)
    ensures
        r == spec_bounded(n),
{
    n.within(num(figures::TENTH), num(figures::FIFTY))
}

/// The stop and the target in percent that are asked for: 1.5 and 0.5 where the request
/// does not say.
pub fn read_config(sl: &Option<String>, tp: &Option<String>) -> (r: (Num, Num))
    ensures
        r.0 == bounded(number_or(json::chars(*sl), num(figures::ONE_AND_A_HALF))),
        r.1 == bounded(number_or(json::chars(*tp), num(figures::HALF))),
{
    (
        bounded(read_number_or(sl, num(figures::ONE_AND_A_HALF))),
        bounded(read_number_or(tp, num(figures::HALF))),
    )
}

/// How many ghosts are asked for; none where the request does not say or asks for fewer.
pub fn read_ghosts(val: &Option<String>) -> (r: i32)
    ensures
        r == (if integer_or(json::chars(*val), 0) > 0 {
            integer_or(json::chars(*val), 0)
        } else {
            0
        }),
{
    let n: i32 = read_integer_or(val, 0);
    if n > 0 {
        n
    } else {
        0
    }
}

/// The page of the configuration: stop and target in percent, whether trades are reversed,
/// ghosts, stop, target, what the button asks for, its class and label, what is said of
/// the mode, ghosts.
pub const CONFIG_PAGE: &'static str = r#"<!DOCTYPE html>
<html lang="en">
<head><meta charset="UTF-8"><title>Config — Grid Engine</title>
<style>
  * { box-sizing:border-box; margin:0; padding:0 }
  body { font-family:Segoe UI,sans-serif; background:#0d1117; color:#c9d1d9; padding:30px; max-width:700px; margin:0 auto }
  h1,h2 { color:#f0f6fc; margin:24px 0 12px }
  a { color:#58a6ff; text-decoration:none } a:hover { text-decoration:underline }
  .card { background:#161b22; border:1px solid #30363d; border-radius:8px; padding:20px; margin:16px 0 }
  .card h3 { margin:0 0 16px }
  form { display:flex; gap:12px; align-items:center; flex-wrap:wrap }
  label { color:#8b949e; font-size:0.9em }
  input[type=number] { padding:8px 12px; border-radius:6px; border:1px solid #30363d; background:#21262d; color:#c9d1d9; font-size:0.95em; width:80px }
  button { padding:8px 16px; border-radius:6px; border:1px solid #30363d; background:#21262d; color:#c9d1d9; cursor:pointer; font-weight:600 }
  button:hover { background:#30363d }
  .btn-green { border-color:#4caf50; color:#4caf50 }
  .btn-red { border-color:#ef5350; color:#ef5350 }
  .nav { display:flex; gap:16px; margin-bottom:20px }
  .nav a { padding:6px 0; border-bottom:2px solid transparent }
  .nav a.active { border-color:#58a6ff }
  .current { background:#0d1117; border:1px solid #30363d; border-radius:6px; padding:14px 18px; margin:12px 0 }
  .current .row { display:flex; justify-content:space-between; padding:6px 0 }
  .current .val { color:#f0f6fc; font-weight:600 }
  .toggle { display:flex; align-items:center; gap:10px }
  .toggle input { width:20px; height:20px; cursor:pointer }
</style>
</head>
<body>
<div class="nav">
  <a href="/">Dashboard</a>
  <a href="/subs">Manage</a>
  <a href="/config" class="active">Config</a>
  <a href="/state">State</a>
</div>
<h1>Engine Configuration</h1>

<div class="current">
  <div class="row"><span>Stop Loss</span><span class="val">{}%</span></div>
  <div class="row"><span>Take Profit</span><span class="val">{}%</span></div>
  <div class="row"><span>Reverse Mode</span><span class="val">{}</span></div>
  <div class="row"><span>Ghost Trades</span><span class="val">{}</span></div>
</div>

<div class="card">
  <h3>Set SL / TP Percentages</h3>
  <form action="/setConfig" method="get">
    <label>SL %:</label><input type="number" name="sl" step="0.1" min="0.1" value="{}">
    <label>TP %:</label><input type="number" name="tp" step="0.1" min="0.1" value="{}">
    <button type="submit" class="btn-green">Apply</button>
  </form>
</div>

<div class="card">
  <h3>Reverse Mode</h3>
  <p style="color:#8b949e;font-size:0.85em;margin-bottom:12px">
    When enabled, entry direction is inverted: a long signal becomes short and vice versa.
  </p>
  <div class="toggle">
    <form action="/setReverse" method="get">
      <input type="hidden" name="enabled" value="{}">
      <button type="submit" class="{}">{}</button>
    </form>
    <span style="color:#8b949e;font-size:0.85em">{}</span>
  </div>
</div>

<div class="card">
  <h3>Ghost Mode</h3>
  <p style="color:#8b949e;font-size:0.85em;margin-bottom:12px">
    After a real loss, the next N trades are paper-traded (ghost) to avoid revenge trading.
    Set to 0 to disable ghost mode entirely.
  </p>
  <form action="/setGhost" method="get">
    <label>Ghost trades after loss:</label><input type="number" name="val" min="0" max="50" value="{}" style="width:70px">
    <button type="submit" class="btn-green">Apply</button>
  </form>
</div>

<p><a href="/">← Back to dashboard</a></p>
</body></html>"#;

/// Whether the mode is on.
pub open spec fn switch(reversed: bool) -> Seq<char> {
    if reversed {
        "ON"@
    } else {
        "OFF"@
    }
}

/// See [`switch`].
fn switch_text(reversed: bool) -> (r: &'static str)
    ensures
        r@ == switch(reversed),
{
    if reversed {
        "ON"
    } else {
        "OFF"
    }
}

/// The mode that the button asks for.
pub open spec fn opposite(reversed: bool) -> Seq<char> {
    if reversed {
        "false"@
    } else {
        "true"@
    }
}

/// See [`opposite`].
fn opposite_text(reversed: bool) -> (r: &'static str)
    ensures
        r@ == opposite(reversed),
{
    if reversed {
        "false"
    } else {
        "true"
    }
}

/// The class of the button.
pub open spec fn button_class(reversed: bool) -> Seq<char> {
    if reversed {
        "btn-red"@
    } else {
        "btn-green"@
    }
}

/// See [`button_class`].
fn button_class_text(reversed: bool) -> (r: &'static str)
    ensures
        r@ == button_class(reversed),
{
    if reversed {
        "btn-red"
    } else {
        "btn-green"
    }
}

/// The label of the button.
pub open spec fn button_label(reversed: bool) -> Seq<char> {
    if reversed {
        "Disable Reverse"@
    } else {
        "Enable Reverse"@
    }
}

/// See [`button_label`].
fn button_label_text(reversed: bool) -> (r: &'static str)
    ensures
        r@ == button_label(reversed),
{
    if reversed {
        "Disable Reverse"
    } else {
        "Enable Reverse"
    }
}

/// What is said of the mode.
pub open spec fn mode_status(reversed: bool) -> Seq<char> {
    if reversed {
        "Reverse mode is active — entry directions are inverted."@
    } else {
        "Normal mode — standard mean-reversion logic."@
    }
}

/// See [`mode_status`].
fn mode_status_text(reversed: bool) -> (r: &'static str)
    ensures
        r@ == mode_status(reversed),
{
    if reversed {
        "Reverse mode is active — entry directions are inverted."
    } else {
        "Normal mode — standard mean-reversion logic."
    }
}

/// The fillings of [`config_page_glyphs`].
pub open spec fn config_page_slots(sl: Num, tp: Num, reversed: bool, ghosts: i32) -> Seq<Seq<Glyph>> {
    seq![
        page::figure(NumStyle::Plain, sl),
        page::figure(NumStyle::Plain, tp),
        page::plain(switch(reversed)),
        page::whole(ghosts as int),
        page::figure(NumStyle::Plain, sl),
        page::figure(NumStyle::Plain, tp),
        page::plain(opposite(reversed)),
        page::plain(button_class(reversed)),
        page::plain(button_label(reversed)),
        page::plain(mode_status(reversed)),
        page::whole(ghosts as int),
    ]
}

/// The page of the configuration.
pub open spec fn config_page_glyphs(sl: Num, tp: Num, reversed: bool, ghosts: i32) -> Seq<Glyph> {
    page::filled(CONFIG_PAGE@, config_page_slots(sl, tp, reversed, ghosts))
}

/// See [`config_page_glyphs`].
pub fn config_page(sl: Num, tp: Num, reversed: bool, ghosts: i32) -> (p: Page)
    ensures
        p@ == config_page_glyphs(sl, tp, reversed, ghosts),
{
    let slots: Vec<Page> = vec![
        Page::shortest(sl),
        Page::shortest(tp),
        Page::text(switch_text(reversed)),
        Page::integer(ghosts as i64),
        Page::shortest(sl),
        Page::shortest(tp),
        Page::text(opposite_text(reversed)),
        Page::text(button_class_text(reversed)),
        Page::text(button_label_text(reversed)),
        Page::text(mode_status_text(reversed)),
        Page::integer(ghosts as i64),
    ];
    assert(page::views(slots@) =~= config_page_slots(sl, tp, reversed, ghosts));
    page::fill(CONFIG_PAGE, &slots)
}

/// How many symbols are scored.
pub const CANDIDATES: usize = 100;

/// The least number of bars of a symbol that is scored.
pub const ENOUGH_BARS: usize = 50;

/// How many symbols are recommended.
pub const RECOMMENDED: usize = 20;

/// The first hundred of some symbols.
pub fn candidates(symbols: Vec<String>) -> (r: Vec<String>)
    ensures
        r@ == (if symbols@.len() > CANDIDATES {
            symbols@.take(CANDIDATES as int)
        } else {
            symbols@
        }),
{
    let mut r: Vec<String> = symbols;
    if r.len() > CANDIDATES {
        r.truncate(CANDIDATES);
    }
    r
}

/// By what scores are ranked; a NaN comes last.
pub open spec fn merit(n: Num) -> int {
    if n.nan() {
        -0x1_0000_0000_0000_0000
    } else {
        n.rank()
    }
}

/// A score has more merit than another exactly where it is the larger number.
pub proof fn lemma_merit(a: Num, b: Num)
    requires
        !a.nan(),
        !b.nan(),
    ensures
        merit(a) < merit(b) <==> a.below(b),
{
}

/// The positions of the best scores, the best first, at most twenty.
pub open spec fn best(scores: Seq<Num>) -> Seq<int> {
    let all = order::ranking(Seq::new(scores.len(), |i: int| merit(scores[i])));
    if all.len() > RECOMMENDED {
        all.take(RECOMMENDED as int)
    } else {
        all
    }
}

/// Twenty scores are the best, or all where there are fewer; none is smaller than one
/// after it, nor than one that is left out.
pub proof fn lemma_best(scores: Seq<Num>)
    requires
        forall|i: int| 0 <= i < scores.len() ==> !(#[trigger] scores[i]).nan(),
    ensures
        best(scores).len() == if scores.len() > RECOMMENDED {
            RECOMMENDED as nat
        } else {
            scores.len()
        },
        forall|i: int| 0 <= i < best(scores).len() ==> 0 <= #[trigger] best(scores)[i] < scores.len(),
        forall|i: int, j: int|
            0 <= i < j < best(scores).len() ==> #[trigger] best(scores)[i] != #[trigger] best(
                scores,
            )[j] && !scores[best(scores)[i]].below(scores[best(scores)[j]]),
        forall|i: int, k: int|
            0 <= i < best(scores).len() && 0 <= k < scores.len() && !best(scores).contains(k)
                ==> !(#[trigger] scores[best(scores)[i]]).below(#[trigger] scores[k]),
{
    let keys = Seq::new(scores.len(), |i: int| merit(scores[i]));
    let all = order::ranking(keys);
    order::lemma_ranking(keys);
    let chosen = best(scores);
    assert forall|i: int| 0 <= i < chosen.len() implies 0 <= #[trigger] chosen[i] < scores.len() by {
        assert(chosen[i] == all[i]);
    }
    assert forall|i: int, j: int| 0 <= i < j < chosen.len() implies #[trigger] chosen[i]
        != #[trigger] chosen[j] && !scores[chosen[i]].below(scores[chosen[j]]) by {
        assert(chosen[i] == all[i] && chosen[j] == all[j]);
        assert(keys[all[i]] >= keys[all[j]]);
        lemma_merit(scores[all[i]], scores[all[j]]);
    }
    assert forall|i: int, k: int|
        0 <= i < chosen.len() && 0 <= k < scores.len() && !chosen.contains(k) implies !(
    #[trigger] scores[chosen[i]]).below(#[trigger] scores[k]) by {
        order::lemma_ranked(keys, k);
        let j = choose|j: int| 0 <= j < all.len() && all[j] == k;
        assert(chosen[i] == all[i]);
        if j < chosen.len() {
            assert(chosen[j] == k);
        }
        assert(keys[all[i]] >= keys[all[j]]);
        lemma_merit(scores[all[i]], scores[k]);
    }
}

/// See [`best`].
pub fn rank_scores(scores: &Vec<Num>) -> (r: Vec<usize>)
    ensures
        order::as_positions(r@) == best(scores@),
        r@.len() <= RECOMMENDED,
        forall|i: int| 0 <= i < r@.len() ==> (#[trigger] r@[i]) < scores@.len(),
{
    let mut keys: Vec<i128> = Vec::new();
    let mut i: usize = 0;
    while i < scores.len()
        invariant
            i <= scores@.len(),
            keys@.len() == i,
            forall|j: int| 0 <= j < i ==> #[trigger] keys@[j] == merit(scores@[j]),
        decreases scores@.len() - i,
    {
        let n: Num = scores[i];
        let key: i128 = if n.nan() {
            -0x1_0000_0000_0000_0000
        } else if n.negative() {
            -(n.magnitude() as i128)
        } else {
            n.magnitude() as i128
        };
        keys.push(key);
        i = i + 1;
    }
    assert(order::as_ints(keys@) =~= Seq::new(scores@.len(), |i: int| merit(scores@[i])));
    let mut r: Vec<usize> = order::rank(&keys);
    let ghost all = r@;
    if r.len() > RECOMMENDED {
        r.truncate(RECOMMENDED);
    }
    assert(order::as_positions(r@) =~= best(scores@));
    assert forall|i: int| 0 <= i < r@.len() implies (#[trigger] r@[i]) < scores@.len() by {
        assert(r@[i] == all[i]);
    }
    r
}

/// A percentage between a tenth and fifty is kept, a smaller one becomes a tenth, a larger
/// one fifty.
pub proof fn lemma_bounded(n: Num)
    requires
        !n.nan(),
    ensures
        n.below(num(figures::TENTH)) ==> bounded(n) == num(figures::TENTH),
        num(figures::FIFTY).below(n) ==> bounded(n) == num(figures::FIFTY),
        !n.below(num(figures::TENTH)) && !num(figures::FIFTY).below(n) ==> bounded(n) == n,
{
    assert(!num(figures::FIFTY).below(num(figures::TENTH)));
}

/// The page of the configuration shows the stop, the target, the mode and the ghosts that
/// are set, and its button asks for the other mode.
pub proof fn lemma_config_page(sl: Num, tp: Num, ghosts: i32)
    ensures
        config_page_glyphs(sl, tp, true, ghosts) == page::filled(
            CONFIG_PAGE@,
            seq![
                seq![Glyph::Number(NumStyle::Plain, sl)],
                seq![Glyph::Number(NumStyle::Plain, tp)],
                page::plain("ON"@),
                page::plain(text::decimal(ghosts as int)),
                seq![Glyph::Number(NumStyle::Plain, sl)],
                seq![Glyph::Number(NumStyle::Plain, tp)],
                page::plain("false"@),
                page::plain("btn-red"@),
                page::plain("Disable Reverse"@),
                page::plain("Reverse mode is active — entry directions are inverted."@),
                page::plain(text::decimal(ghosts as int)),
            ],
        ),
        config_page_glyphs(sl, tp, false, ghosts) == page::filled(
            CONFIG_PAGE@,
            seq![
                seq![Glyph::Number(NumStyle::Plain, sl)],
                seq![Glyph::Number(NumStyle::Plain, tp)],
                page::plain("OFF"@),
                page::plain(text::decimal(ghosts as int)),
                seq![Glyph::Number(NumStyle::Plain, sl)],
                seq![Glyph::Number(NumStyle::Plain, tp)],
                page::plain("true"@),
                page::plain("btn-green"@),
                page::plain("Enable Reverse"@),
                page::plain("Normal mode — standard mean-reversion logic."@),
                page::plain(text::decimal(ghosts as int)),
            ],
        ),
{
}

} // verus!
