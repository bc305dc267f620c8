//! What the replies of the exchange say.
use vstd::prelude::*;
use vstd::string::*;
use crate::figures;
use crate::json;
use crate::market::KlineData;
use crate::num::{num, Num};
use crate::numeral;
use crate::stream;
use crate::table;
use crate::table::SymbolTable;
use crate::text;
use crate::time;
use crate::time::Moment;

verus! {

/// What is said of a reply that is no document.
pub const UNREADABLE: &'static str = "error decoding response body";

/// The characters of an error.
pub open spec fn outcome<T>(r: Result<T, String>) -> Result<T, Seq<char>> {
    match r {
        Ok(v) => Ok(v),
        Err(e) => Err(e@),
    }
}

/// Whether a reply reports success.
pub open spec fn accepted(v: serde_json::Value) -> bool {
    json::at(json::integers(v), "/retCode"@) == Some(0i64)
}

/// See [`accepted`].
fn is_accepted(v: &serde_json::Value) -> (b: bool)
    ensures
        b == accepted(*v),
{
    match json::integer_at(v, "/retCode") {
        Some(n) => n == 0,
        None => false,
    }
}

/// The reply to a signed request.
pub open spec fn reply_of(raw: Seq<char>) -> Result<serde_json::Value, Seq<char>> {
    match json::document(raw) {
        Ok(v) => if accepted(v) {
            Ok(v)
        } else {
            Err("API error: "@ + raw)
        },
        Err(e) => Err(e),
    }
}

/// The reply to a signed request, if it is a document that reports success.
pub fn check_reply(raw: &str) -> (r: Result<serde_json::Value, String>)
    ensures
        outcome(r) == reply_of(raw@),
{
    match json::parse(raw) {
        Ok(v) => if is_accepted(&v) {
            Ok(v)
        } else {
            Err(text::concat("API error: ", raw))
        },
        Err(e) => Err(e),
    }
}

/// The reply to a request for market data; the label stands before one that reports a
/// failure.
pub open spec fn market_reply(raw: Seq<char>, label: Seq<char>) -> Result<serde_json::Value, Seq<char>> {
    match json::document(raw) {
        Ok(v) => if accepted(v) {
            Ok(v)
        } else {
            Err(label + json::written(v))
        },
        Err(_) => Err(UNREADABLE@),
    }
}

/// See [`market_reply`].
pub fn check_market_reply(raw: &str, label: &str) -> (r: Result<serde_json::Value, String>)
    ensures
        outcome(r) == market_reply(raw@, label@),
{
    match json::parse(raw) {
        Ok(v) => if is_accepted(&v) {
            Ok(v)
        } else {
            Err(text::concat(label, json::write(&v).as_str()))
        },
        Err(_) => Err(UNREADABLE.to_owned()),
    }
}

/// The pointer of an element of the list in a reply.
pub open spec fn item_pointer(i: nat) -> Seq<char> {
    "/result/list/"@ + text::decimal(i as int)
}

/// The pointer of a member of an element of the list in a reply.
pub open spec fn member_pointer(i: nat, member: Seq<char>) -> Seq<char> {
    item_pointer(i) + "/"@ + member
}

/// The number of elements of the list in a reply, if there is a list.
pub open spec fn list_length(v: serde_json::Value) -> Option<nat> {
    json::at(json::lengths(v), "/result/list"@)
}

/// The text of a member of an element of the list in a reply.
pub open spec fn member_text(v: serde_json::Value, i: nat, member: Seq<char>) -> Option<Seq<char>> {
    match list_length(v) {
        Some(n) => if i < n {
            json::at(json::texts(v), member_pointer(i, member))
        } else {
            None
        },
        None => None,
    }
}

/// See [`item_pointer`].
fn item_pointer_text(i: usize) -> (r: String)
    ensures
        r@ == item_pointer(i as nat),
{
    let digits: String = text::digits_text(i as u64);
    text::concat("/result/list/", digits.as_str())
}

/// See [`member_text`].
fn read_member(v: &serde_json::Value, i: usize, member: &str) -> (r: Option<String>)
    ensures
        json::chars(r) == member_text(*v, i as nat, member@),
{
    match json::length_at(v, "/result/list") {
        Some(n) => if i < n {
            let pointer: String = text::concat(
                text::concat(item_pointer_text(i).as_str(), "/").as_str(),
                member,
            );
            json::text_at(v, pointer.as_str())
        } else {
            None
        },
        None => None,
    }
}

/// The number that a text writes, or what is wrong with the text.
pub open spec fn number_or_error(s: Seq<char>) -> Result<Num, Seq<char>> {
    match numeral::number_of(s) {
        Some(n) => Ok(n),
        None => if s.len() == 0 {
            Err("cannot parse float from empty string"@)
        } else {
            Err("invalid float literal"@)
        },
    }
}

/// The price that a text writes; `missing` where there is no text.
pub open spec fn price_of(o: Option<Seq<char>>, missing: Seq<char>) -> Result<Num, Seq<char>> {
    match o {
        Some(s) => number_or_error(s),
        None => Err(missing),
    }
}

/// See [`price_of`].
pub fn read_price(o: Option<String>, missing: &str) -> (r: Result<Num, String>)
    ensures
        outcome(r) == price_of(json::chars(o), missing@),
{
    match o {
        Some(s) => match numeral::parse_number(s.as_str()) {
            Some(n) => Ok(n),
            None => if s.as_str().unicode_len() == 0 {
                Err("cannot parse float from empty string".to_owned())
            } else {
                Err("invalid float literal".to_owned())
            },
        },
        None => Err(missing.to_owned()),
    }
}

/// The last price of a symbol by the reply to a request for its quotes.
pub open spec fn last_price(raw: Seq<char>) -> Result<Num, Seq<char>> {
    match market_reply(raw, "ticker error: "@) {
        Ok(v) => price_of(member_text(v, 0, "lastPrice"@), "no lastPrice"@),
        Err(e) => Err(e),
    }
}

/// See [`last_price`].
pub fn read_last_price(raw: &str) -> (r: Result<Num, String>)
    ensures
        outcome(r) == last_price(raw@),
{
    match check_market_reply(raw, "ticker error: ") {
        Ok(v) => read_price(read_member(&v, 0, "lastPrice"), "no lastPrice"),
        Err(e) => Err(e),
    }
}

/// The bid and ask that two texts write; what is wrong with the bid comes first.
pub open spec fn quote_of(bid: Option<Seq<char>>, ask: Option<Seq<char>>) -> Result<
    (Num, Num),
    Seq<char>,
> {
    match price_of(bid, "no bid1Price"@) {
        Ok(b) => match price_of(ask, "no ask1Price"@) {
            Ok(a) => Ok((b, a)),
            Err(e) => Err(e),
        },
        Err(e) => Err(e),
    }
}

/// See [`quote_of`].
pub fn make_quote(bid: Option<String>, ask: Option<String>) -> (r: Result<(Num, Num), String>)
    ensures
        outcome(r) == quote_of(json::chars(bid), json::chars(ask)),
{
    match read_price(bid, "no bid1Price") {
        Ok(b) => match read_price(ask, "no ask1Price") {
            Ok(a) => Ok((b, a)),
            Err(e) => Err(e),
        },
        Err(e) => Err(e),
    }
}

/// The bid and ask of a symbol by the reply to a request for its quotes.
pub open spec fn quote(raw: Seq<char>) -> Result<(Num, Num), Seq<char>> {
    match market_reply(raw, "ticker error: "@) {
        Ok(v) => quote_of(member_text(v, 0, "bid1Price"@), member_text(v, 0, "ask1Price"@)),
        Err(e) => Err(e),
    }
}

/// See [`quote`].
pub fn read_quote(raw: &str) -> (r: Result<(Num, Num), String>)
    ensures
        outcome(r) == quote(raw@),
{
    match check_market_reply(raw, "ticker error: ") {
        Ok(v) => make_quote(read_member(&v, 0, "bid1Price"), read_member(&v, 0, "ask1Price")),
        Err(e) => Err(e),
    }
}

/// A past bar as texts.
#[derive(Debug)]
pub struct KlineRow {
    pub ts: Option<String>,
    pub open: Option<String>,
    pub high: Option<String>,
    pub low: Option<String>,
    pub close: Option<String>,
    pub volume: Option<String>,
}

/// The contents of a [`KlineRow`].
#[verifier::ext_equal]
pub struct KlineRowView {
    pub ts: Option<Seq<char>>,
    pub open: Option<Seq<char>>,
    pub high: Option<Seq<char>>,
    pub low: Option<Seq<char>>,
    pub close: Option<Seq<char>>,
    pub volume: Option<Seq<char>>,
}

impl View for KlineRow {
    type V = KlineRowView;

    open spec fn view(&self) -> KlineRowView {
        KlineRowView {
            ts: json::chars(self.ts),
            open: json::chars(self.open),
            high: json::chars(self.high),
            low: json::chars(self.low),
            close: json::chars(self.close),
            volume: json::chars(self.volume),
        }
    }
}

/// The contents of some rows.
pub open spec fn kline_row_views(s: Seq<KlineRow>) -> Seq<KlineRowView> {
    Seq::new(s.len(), |i: int| s[i]@)
}

/// An element of the list in a reply, as such a row.
pub open spec fn kline_row_at(v: serde_json::Value, i: nat) -> KlineRowView {
    KlineRowView {
        ts: member_text(v, i, "0"@),
        open: member_text(v, i, "1"@),
        high: member_text(v, i, "2"@),
        low: member_text(v, i, "3"@),
        close: member_text(v, i, "4"@),
        volume: member_text(v, i, "5"@),
    }
}

/// The first `n` elements of the list in a reply, as such rows.
pub open spec fn kline_rows_in(v: serde_json::Value, n: nat) -> Seq<KlineRowView> {
    Seq::new(n, |i: int| kline_row_at(v, i as nat))
}

/// See [`kline_rows_in`].
fn read_kline_rows(v: &serde_json::Value, n: usize) -> (r: Vec<KlineRow>)
    ensures
        kline_row_views(r@) == kline_rows_in(*v, n as nat),
{
    let mut r: Vec<KlineRow> = Vec::new();
    let mut i: usize = 0;
    assert(kline_row_views(r@) =~= kline_rows_in(*v, 0));
    while i < n
        invariant
            i <= n,
            kline_row_views(r@) == kline_rows_in(*v, i as nat),
        decreases n - i,
    {
        let ghost before = r@;
        let row: KlineRow = read_kline_row(v, i);
        r.push(row);
        assert(kline_row_views(r@) =~= kline_row_views(before).push(row@));
        assert(kline_rows_in(*v, (i + 1) as nat) =~= kline_rows_in(*v, i as nat).push(kline_row_at(*v, i as nat)));
        i = i + 1;
    }
    r
}

/// See [`kline_row_at`].
fn read_kline_row(v: &serde_json::Value, i: usize) -> (r: KlineRow)
    ensures
        r@ == kline_row_at(*v, i as nat),
{
    KlineRow {
        ts: read_member(v, i, "0"),
        open: read_member(v, i, "1"),
        high: read_member(v, i, "2"),
        low: read_member(v, i, "3"),
        close: read_member(v, i, "4"),
        volume: read_member(v, i, "5"),
    }
}

/// The integer that a text writes, or zero.
pub open spec fn integer_or_zero(o: Option<Seq<char>>) -> int {
    match o {
        Some(s) => match text::parsed_integer(s, i64::MIN as int, i64::MAX as int) {
            Some(n) => n,
            None => 0,
        },
        None => 0,
    }
}

/// See [`integer_or_zero`].
pub fn read_integer(o: &Option<String>) -> (r: i64)
    ensures
        r == integer_or_zero(json::chars(*o)),
{
    match o {
        Some(s) => match text::parse_integer(s.as_str(), i64::MIN, i64::MAX) {
            Some(n) => n,
            None => 0,
        },
        None => 0,
    }
}

/// A past bar; what is missing or no number counts as zero.
pub open spec fn bar_in(row: KlineRowView) -> KlineData {
    let ts = integer_or_zero(row.ts);
    KlineData {
        ts: ts as i64,
        datetime: stream::time_of(ts),
        open: stream::or_zero(stream::number_in(row.open)),
        high: stream::or_zero(stream::number_in(row.high)),
        low: stream::or_zero(stream::number_in(row.low)),
        close: stream::or_zero(stream::number_in(row.close)),
        volume: stream::or_zero(stream::number_in(row.volume)),
    }
}

/// See [`bar_in`].
pub fn make_bar(row: &KlineRow) -> (k: KlineData)
    ensures
        k == bar_in(row@),
{
    let ts: i64 = read_integer(&row.ts);
    KlineData {
        ts,
        datetime: stream::bar_time(ts),
        open: stream::or_zero(stream::read_number(&row.open)),
        high: stream::or_zero(stream::read_number(&row.high)),
        low: stream::or_zero(stream::read_number(&row.low)),
        close: stream::or_zero(stream::read_number(&row.close)),
        volume: stream::or_zero(stream::read_number(&row.volume)),
    }
}

/// The bars of some rows, the last row first.
pub open spec fn bars_in(rows: Seq<KlineRowView>) -> Seq<KlineData> {
    Seq::new(rows.len(), |i: int| bar_in(rows[rows.len() - 1 - i]))
}

/// See [`bars_in`].
pub fn make_bars(rows: &Vec<KlineRow>) -> (r: Vec<KlineData>)
    ensures
        r@ == bars_in(kline_row_views(rows@)),
{
    let mut r: Vec<KlineData> = Vec::new();
    let ghost all = kline_row_views(rows@);
    let mut i: usize = rows.len();
    while i > 0
        invariant
            i <= rows@.len(),
            all == kline_row_views(rows@),
            r@.len() == rows@.len() - i,
            forall|j: int| 0 <= j < r@.len() ==> #[trigger] r@[j] == bars_in(all)[j],
        decreases i,
    {
        i = i - 1;
        let k: KlineData = make_bar(&rows[i]);
        assert(k == bar_in(all[i as int]));
        r.push(k);
    }
    assert(r@ =~= bars_in(all));
    r
}

/// Whether each of the first `n` elements of the list in a reply is itself a list.
pub open spec fn all_lists(v: serde_json::Value, n: nat) -> bool {
    forall|i: nat| i < n ==> json::lengths(v).dom().contains(#[trigger] item_pointer(i))
}

/// See [`all_lists`].
fn is_all_lists(v: &serde_json::Value, n: usize) -> (b: bool)
    ensures
        b == all_lists(*v, n as nat),
{
    let mut i: usize = 0;
    while i < n
        invariant
            i <= n,
            all_lists(*v, i as nat),
        decreases n - i,
    {
        if json::length_at(v, item_pointer_text(i).as_str()).is_none() {
            assert(!json::lengths(*v).dom().contains(item_pointer(i as nat)));
            return false;
        }
        assert forall|j: nat| j < i + 1 implies json::lengths(*v).dom().contains(
            #[trigger] item_pointer(j),
        ) by {
            if j < i {
                assert(json::lengths(*v).dom().contains(item_pointer(j)));
            }
        }
        i = i + 1;
    }
    true
}

/// The past bars of a symbol, the oldest first, by the reply to a request for them.
pub open spec fn klines(raw: Seq<char>) -> Result<Seq<KlineData>, Seq<char>> {
    match market_reply(raw, "kline error: "@) {
        Ok(v) => match list_length(v) {
            Some(n) => if all_lists(v, n) {
                Ok(bars_in(kline_rows_in(v, n)))
            } else {
                Err("kline not array"@)
            },
            None => Err("no kline list"@),
        },
        Err(e) => Err(e),
    }
}

/// See [`klines`].
pub fn read_klines(raw: &str) -> (r: Result<Vec<KlineData>, String>)
    ensures
        (match r {
            Ok(v) => Ok(v@),
            Err(e) => Err(e@),
        }) == klines(raw@),
{
    let v: serde_json::Value = match check_market_reply(raw, "kline error: ") {
        Ok(v) => v,
        Err(e) => {
            return Err(e);
        },
    };
    let n: usize = match json::length_at(&v, "/result/list") {
        Some(n) => n,
        None => {
            return Err("no kline list".to_owned());
        },
    };
    if !is_all_lists(&v, n) {
        return Err("kline not array".to_owned());
    }
    let rows: Vec<KlineRow> = read_kline_rows(&v, n);
    Ok(make_bars(&rows))
}

/// A contract as texts.
#[derive(Debug)]
pub struct ContractRow {
    pub symbol: Option<String>,
}

/// The contents of a [`ContractRow`].
#[verifier::ext_equal]
pub struct ContractRowView {
    pub symbol: Option<Seq<char>>,
}

impl View for ContractRow {
    type V = ContractRowView;

    open spec fn view(&self) -> ContractRowView {
        ContractRowView {
            symbol: json::chars(self.symbol),
        }
    }
}

/// The contents of some rows.
pub open spec fn contract_row_views(s: Seq<ContractRow>) -> Seq<ContractRowView> {
    Seq::new(s.len(), |i: int| s[i]@)
}

/// An element of the list in a reply, as such a row.
pub open spec fn contract_row_at(v: serde_json::Value, i: nat) -> ContractRowView {
    ContractRowView {
        symbol: member_text(v, i, "symbol"@),
    }
}

/// The first `n` elements of the list in a reply, as such rows.
pub open spec fn contract_rows_in(v: serde_json::Value, n: nat) -> Seq<ContractRowView> {
    Seq::new(n, |i: int| contract_row_at(v, i as nat))
}

/// See [`contract_rows_in`].
fn read_contract_rows(v: &serde_json::Value, n: usize) -> (r: Vec<ContractRow>)
    ensures
        contract_row_views(r@) == contract_rows_in(*v, n as nat),
{
    let mut r: Vec<ContractRow> = Vec::new();
    let mut i: usize = 0;
    assert(contract_row_views(r@) =~= contract_rows_in(*v, 0));
    while i < n
        invariant
            i <= n,
            contract_row_views(r@) == contract_rows_in(*v, i as nat),
        decreases n - i,
    {
        let ghost before = r@;
        let row: ContractRow = read_contract_row(v, i);
        r.push(row);
        assert(contract_row_views(r@) =~= contract_row_views(before).push(row@));
        assert(contract_rows_in(*v, (i + 1) as nat) =~= contract_rows_in(*v, i as nat).push(contract_row_at(*v, i as nat)));
        i = i + 1;
    }
    r
}

/// See [`contract_row_at`].
fn read_contract_row(v: &serde_json::Value, i: usize) -> (r: ContractRow)
    ensures
        r@ == contract_row_at(*v, i as nat),
{
    ContractRow {
        symbol: read_member(v, i, "symbol"),
    }
}

/// Whether a contract is settled in one of the two coins.
pub open spec fn settled_in_coin(symbol: Seq<char>) -> bool {
    text::ends(symbol, "USDT"@) || text::ends(symbol, "USDC"@)
}

/// The symbols of the contracts that are settled in one of the two coins.
pub open spec fn perps_in(rows: Seq<ContractRowView>) -> Seq<Seq<char>>
    decreases rows.len(),
{
    if rows.len() == 0 {
        Seq::empty()
    } else {
        let before = perps_in(rows.drop_last());
        match rows.last().symbol {
            Some(s) => if settled_in_coin(s) {
                before.push(s)
            } else {
                before
            },
            None => before,
        }
    }
}

/// See [`perps_in`].
pub fn select_perps(rows: &Vec<ContractRow>) -> (r: Vec<String>)
    ensures
        json::all_chars(r@) == perps_in(contract_row_views(rows@)),
{
    let mut r: Vec<String> = Vec::new();
    let ghost all = contract_row_views(rows@);
    let mut i: usize = 0;
    assert(json::all_chars(r@) =~= Seq::<Seq<char>>::empty());
    while i < rows.len()
        invariant
            i <= rows@.len(),
            all == contract_row_views(rows@),
            json::all_chars(r@) == perps_in(all.take(i as int)),
        decreases rows@.len() - i,
    {
        proof {
            assert(all.take(i + 1).drop_last() =~= all.take(i as int));
            assert(all.take(i + 1).last() == rows@[i as int]@);
        }
        if let Some(s) = &rows[i].symbol {
            if text::ends_with(s.as_str(), "USDT") || text::ends_with(s.as_str(), "USDC") {
                let ghost before = r@;
                r.push(s.clone());
                assert(json::all_chars(r@) =~= json::all_chars(before).push(s@));
            }
        }
        i = i + 1;
    }
    assert(all.take(i as int) =~= all);
    r
}

/// The symbols of all contracts that are settled in one of the two coins, by the reply
/// to a request for all contracts.
pub open spec fn perps(raw: Seq<char>) -> Result<Seq<Seq<char>>, Seq<char>> {
    match market_reply(raw, "tickers error: "@) {
        Ok(v) => match list_length(v) {
            Some(n) => Ok(perps_in(contract_rows_in(v, n))),
            None => Err("no list"@),
        },
        Err(e) => Err(e),
    }
}

/// See [`perps`].
pub fn read_perps(raw: &str) -> (r: Result<Vec<String>, String>)
    ensures
        (match r {
            Ok(v) => Ok(json::all_chars(v@)),
            Err(e) => Err(e@),
        }) == perps(raw@),
{
    let v: serde_json::Value = match check_market_reply(raw, "tickers error: ") {
        Ok(v) => v,
        Err(e) => {
            return Err(e);
        },
    };
    match json::length_at(&v, "/result/list") {
        Some(n) => {
            let rows: Vec<ContractRow> = read_contract_rows(&v, n);
            Ok(select_perps(&rows))
        },
        None => Err("no list".to_owned()),
    }
}

/// A step that a text writes; one thousandth where there is none.
pub open spec fn step_of(o: Option<Seq<char>>) -> Num {
    match stream::number_in(o) {
        Some(n) => n,
        None => num(figures::THOUSANDTH),
    }
}

/// See [`step_of`].
pub fn read_step(o: Option<String>) -> (r: Num)
    ensures
        r == step_of(json::chars(o)),
{
    match stream::read_number(&o) {
        Some(n) => n,
        None => num(figures::THOUSANDTH),
    }
}

/// The step of quantities by the reply to a request for the rules; one thousandth where
/// no reply came, where it is no document or reports a failure, or does not say.
pub open spec fn qty_step(raw: Option<Seq<char>>) -> Num {
    match raw {
        Some(s) => match json::document(s) {
            Ok(v) => if accepted(v) {
                step_of(member_text(v, 0, "lotSizeFilter/qtyStep"@))
            } else {
                num(figures::THOUSANDTH)
            },
            Err(_) => num(figures::THOUSANDTH),
        },
        None => num(figures::THOUSANDTH),
    }
}

/// See [`qty_step`].
pub fn read_qty_step(raw: &Option<String>) -> (r: Num)
    ensures
        r == qty_step(json::chars(*raw)),
{
    match raw {
        Some(s) => match json::parse(s.as_str()) {
            Ok(v) => if is_accepted(&v) {
                read_step(read_member(&v, 0, "lotSizeFilter/qtyStep"))
            } else {
                num(figures::THOUSANDTH)
            },
            Err(_) => num(figures::THOUSANDTH),
        },
        None => num(figures::THOUSANDTH),
    }
}

/// The step of a symbol: the one that is kept, or else the one that a reply says, which
/// is kept from then on.
pub fn get_qty_step(kept: &mut SymbolTable<Num>, symbol: &str, raw: &Option<String>) -> (r: Num)
    requires
        old(kept).wf(),
    ensures
        r == (match table::lookup(old(kept)@, symbol@) {
            Some(step) => step,
            None => qty_step(json::chars(*raw)),
        }),
        final(kept)@ == (match table::lookup(old(kept)@, symbol@) {
            Some(_) => old(kept)@,
            None => table::put(old(kept)@, symbol@, qty_step(json::chars(*raw))),
        }),
        final(kept).wf(),
{
    if let Some(step) = kept.get(symbol) {
        return *step;
    }
    let step: Num = read_qty_step(raw);
    kept.insert(symbol.to_owned(), step);
    step
}

/// A position as texts.
#[derive(Debug)]
pub struct PositionRow {
    pub size: Option<String>,
    pub side: Option<String>,
    pub symbol: Option<String>,
}

/// The contents of a [`PositionRow`].
#[verifier::ext_equal]
pub struct PositionRowView {
    pub size: Option<Seq<char>>,
    pub side: Option<Seq<char>>,
    pub symbol: Option<Seq<char>>,
}

impl View for PositionRow {
    type V = PositionRowView;

    open spec fn view(&self) -> PositionRowView {
        PositionRowView {
            size: json::chars(self.size),
            side: json::chars(self.side),
            symbol: json::chars(self.symbol),
        }
    }
}

/// The contents of some rows.
pub open spec fn position_row_views(s: Seq<PositionRow>) -> Seq<PositionRowView> {
    Seq::new(s.len(), |i: int| s[i]@)
}

/// An element of the list in a reply, as such a row.
pub open spec fn position_row_at(v: serde_json::Value, i: nat) -> PositionRowView {
    PositionRowView {
        size: member_text(v, i, "size"@),
        side: member_text(v, i, "side"@),
        symbol: member_text(v, i, "symbol"@),
    }
}

/// The first `n` elements of the list in a reply, as such rows.
pub open spec fn position_rows_in(v: serde_json::Value, n: nat) -> Seq<PositionRowView> {
    Seq::new(n, |i: int| position_row_at(v, i as nat))
}

/// See [`position_rows_in`].
fn read_position_rows(v: &serde_json::Value, n: usize) -> (r: Vec<PositionRow>)
    ensures
        position_row_views(r@) == position_rows_in(*v, n as nat),
{
    let mut r: Vec<PositionRow> = Vec::new();
    let mut i: usize = 0;
    assert(position_row_views(r@) =~= position_rows_in(*v, 0));
    while i < n
        invariant
            i <= n,
            position_row_views(r@) == position_rows_in(*v, i as nat),
        decreases n - i,
    {
        let ghost before = r@;
        let row: PositionRow = read_position_row(v, i);
        r.push(row);
        assert(position_row_views(r@) =~= position_row_views(before).push(row@));
        assert(position_rows_in(*v, (i + 1) as nat) =~= position_rows_in(*v, i as nat).push(position_row_at(*v, i as nat)));
        i = i + 1;
    }
    r
}

/// See [`position_row_at`].
fn read_position_row(v: &serde_json::Value, i: usize) -> (r: PositionRow)
    ensures
        r@ == position_row_at(*v, i as nat),
{
    PositionRow {
        size: read_member(v, i, "size"),
        side: read_member(v, i, "side"),
        symbol: read_member(v, i, "symbol"),
    }
}

/// A position to be closed.
#[derive(Debug)]
pub struct Closing {
    pub symbol: String,
    /// Whether it is a long position.
    pub long: bool,
    pub size: Num,
}

/// The contents of a [`Closing`].
#[verifier::ext_equal]
pub struct ClosingView {
    pub symbol: Seq<char>,
    pub long: bool,
    pub size: Num,
}

impl View for Closing {
    type V = ClosingView;

    open spec fn view(&self) -> ClosingView {
        ClosingView { symbol: self.symbol@, long: self.long, size: self.size }
    }
}

/// The contents of some positions to be closed.
pub open spec fn closing_views(s: Seq<Closing>) -> Seq<ClosingView> {
    Seq::new(s.len(), |i: int| s[i]@)
}

/// The position to be closed that a row tells of: one on a side, and of a size that is
/// not zero or less.
pub open spec fn closing_in(row: PositionRowView) -> Option<ClosingView> {
    let size = stream::or_zero(stream::number_in(row.size));
    let symbol = stream::or_empty(row.symbol);
    if size.at_most(num(figures::ZERO)) {
        None
    } else if row.side == Some("Buy"@) {
        Some(ClosingView { symbol, long: true, size })
    } else if row.side == Some("Sell"@) {
        Some(ClosingView { symbol, long: false, size })
    } else {
        None
    }
}

/// See [`closing_in`].
pub fn make_closing(row: &PositionRow) -> (r: Option<Closing>)
    ensures
        r is Some <==> closing_in(row@) is Some,
        r is Some ==> closing_in(row@) == Some(r->0@),
{
    let size: Num = stream::or_zero(stream::read_number(&row.size));
    if size.at_most(num(figures::ZERO)) {
        return None;
    }
    let (buy, sell): (bool, bool) = match &row.side {
        Some(s) => (text::same(s.as_str(), "Buy"), text::same(s.as_str(), "Sell")),
        None => (false, false),
    };
    let symbol: String = match &row.symbol {
        Some(s) => s.clone(),
        None => String::new(),
    };
    if buy {
        Some(Closing { symbol, long: true, size })
    } else if sell {
        Some(Closing { symbol, long: false, size })
    } else {
        None
    }
}

/// The positions to be closed of some rows.
pub open spec fn closings_in(rows: Seq<PositionRowView>) -> Seq<ClosingView>
    decreases rows.len(),
{
    if rows.len() == 0 {
        Seq::empty()
    } else {
        let before = closings_in(rows.drop_last());
        match closing_in(rows.last()) {
            Some(c) => before.push(c),
            None => before,
        }
    }
}

/// See [`closings_in`].
pub fn make_closings(rows: &Vec<PositionRow>) -> (r: Vec<Closing>)
    ensures
        closing_views(r@) == closings_in(position_row_views(rows@)),
{
    let mut r: Vec<Closing> = Vec::new();
    let ghost all = position_row_views(rows@);
    let mut i: usize = 0;
    assert(closing_views(r@) =~= Seq::<ClosingView>::empty());
    while i < rows.len()
        invariant
            i <= rows@.len(),
            all == position_row_views(rows@),
            closing_views(r@) == closings_in(all.take(i as int)),
        decreases rows@.len() - i,
    {
        proof {
            assert(all.take(i + 1).drop_last() =~= all.take(i as int));
            assert(all.take(i + 1).last() == rows@[i as int]@);
        }
        if let Some(c) = make_closing(&rows[i]) {
            let ghost before = r@;
            r.push(c);
            assert(closing_views(r@) =~= closing_views(before).push(c@));
        }
        i = i + 1;
    }
    assert(all.take(i as int) =~= all);
    r
}

/// The positions to be closed by the reply to a request for the positions.
pub open spec fn closings(raw: Seq<char>) -> Result<Seq<ClosingView>, Seq<char>> {
    match reply_of(raw) {
        Ok(v) => match list_length(v) {
            Some(n) => Ok(closings_in(position_rows_in(v, n))),
            None => Ok(Seq::empty()),
        },
        Err(e) => Err(e),
    }
}

/// See [`closings`].
pub fn read_closings(raw: &str) -> (r: Result<Vec<Closing>, String>)
    ensures
        (match r {
            Ok(v) => Ok(closing_views(v@)),
            Err(e) => Err(e@),
        }) == closings(raw@),
{
    let v: serde_json::Value = match check_reply(raw) {
        Ok(v) => v,
        Err(e) => {
            return Err(e);
        },
    };
    let n: usize = match json::length_at(&v, "/result/list") {
        Some(n) => n,
        None => 0,
    };
    let rows: Vec<PositionRow> = read_position_rows(&v, n);
    assert(position_rows_in(v, 0).len() == 0);
    Ok(make_closings(&rows))
}

/// An open order as texts.
#[derive(Debug)]
pub struct OrderRow {
    pub stop_type: Option<String>,
    pub status: Option<String>,
    pub created: Option<String>,
    pub id: Option<String>,
}

/// The contents of a [`OrderRow`].
#[verifier::ext_equal]
pub struct OrderRowView {
    pub stop_type: Option<Seq<char>>,
    pub status: Option<Seq<char>>,
    pub created: Option<Seq<char>>,
    pub id: Option<Seq<char>>,
}

impl View for OrderRow {
    type V = OrderRowView;

    open spec fn view(&self) -> OrderRowView {
        OrderRowView {
            stop_type: json::chars(self.stop_type),
            status: json::chars(self.status),
            created: json::chars(self.created),
            id: json::chars(self.id),
        }
    }
}

/// The contents of some rows.
pub open spec fn order_row_views(s: Seq<OrderRow>) -> Seq<OrderRowView> {
    Seq::new(s.len(), |i: int| s[i]@)
}

/// An element of the list in a reply, as such a row.
pub open spec fn order_row_at(v: serde_json::Value, i: nat) -> OrderRowView {
    OrderRowView {
        stop_type: member_text(v, i, "stopOrderType"@),
        status: member_text(v, i, "orderStatus"@),
        created: member_text(v, i, "createdTime"@),
        id: member_text(v, i, "orderId"@),
    }
}

/// The first `n` elements of the list in a reply, as such rows.
pub open spec fn order_rows_in(v: serde_json::Value, n: nat) -> Seq<OrderRowView> {
    Seq::new(n, |i: int| order_row_at(v, i as nat))
}

/// See [`order_rows_in`].
fn read_order_rows(v: &serde_json::Value, n: usize) -> (r: Vec<OrderRow>)
    ensures
        order_row_views(r@) == order_rows_in(*v, n as nat),
{
    let mut r: Vec<OrderRow> = Vec::new();
    let mut i: usize = 0;
    assert(order_row_views(r@) =~= order_rows_in(*v, 0));
    while i < n
        invariant
            i <= n,
            order_row_views(r@) == order_rows_in(*v, i as nat),
        decreases n - i,
    {
        let ghost before = r@;
        let row: OrderRow = read_order_row(v, i);
        r.push(row);
        assert(order_row_views(r@) =~= order_row_views(before).push(row@));
        assert(order_rows_in(*v, (i + 1) as nat) =~= order_rows_in(*v, i as nat).push(order_row_at(*v, i as nat)));
        i = i + 1;
    }
    r
}

/// See [`order_row_at`].
fn read_order_row(v: &serde_json::Value, i: usize) -> (r: OrderRow)
    ensures
        r@ == order_row_at(*v, i as nat),
{
    OrderRow {
        stop_type: read_member(v, i, "stopOrderType"),
        status: read_member(v, i, "orderStatus"),
        created: read_member(v, i, "createdTime"),
        id: read_member(v, i, "orderId"),
    }
}

/// How old an order is when it is taken back, in nanoseconds.
pub const STALE_AFTER: i128 = 180_000_000_000;

/// The moment for a number of milliseconds since the epoch; the epoch itself where there
/// is no such moment.
pub open spec fn moment_of(millis: int) -> Moment {
    if time::representable(millis / 1000, 0) {
        time::moment(millis / 1000, millis % 1000 * 1_000_000)
    } else {
        time::moment(0, 0)
    }
}

/// See [`moment_of`].
pub fn make_moment(millis: i64) -> (t: Moment)
    ensures
        t == moment_of(millis as int),
{
    let mut secs: i128 = millis as i128 / 1000;
    let mut rest: i128 = millis as i128 - secs * 1000;
    if rest < 0 {
        secs = secs - 1;
        rest = rest + 1000;
    }
    assert(secs == millis as int / 1000 && rest == millis as int % 1000);
    match Moment::at(secs as i64, (rest * 1_000_000) as u32) {
        Some(t) => t,
        None => Moment::epoch(),
    }
}

/// Whether an order waits to be filled.
pub open spec fn waiting(status: Option<Seq<char>>) -> bool {
    status == Some("New"@) || status == Some("PartiallyFilled"@) || status == Some("Untriggered"@)
}

/// See [`waiting`].
fn is_waiting(status: &Option<String>) -> (b: bool)
    ensures
        b == waiting(json::chars(*status)),
{
    match status {
        Some(s) => text::same(s.as_str(), "New") || text::same(s.as_str(), "PartiallyFilled")
            || text::same(s.as_str(), "Untriggered"),
        None => false,
    }
}

/// The number of the order to be taken back that a row tells of: one that belongs to no
/// stop or target, waits, and has done so for three minutes.
pub open spec fn stale_in(row: OrderRowView, now: Moment) -> Option<Seq<char>> {
    let id = stream::or_empty(row.id);
    if stream::or_empty(row.stop_type).len() == 0 && waiting(row.status) && moment_of(
        integer_or_zero(row.created),
    ).stamp() <= now.stamp() - STALE_AFTER && id.len() > 0 {
        Some(id)
    } else {
        None
    }
}

/// See [`stale_in`].
pub fn make_stale(row: &OrderRow, now: &Moment) -> (r: Option<String>)
    ensures
        json::chars(r) == stale_in(row@, *now),
{
    let triggered: bool = match &row.stop_type {
        Some(s) => s.as_str().unicode_len() > 0,
        None => false,
    };
    if triggered || !is_waiting(&row.status) {
        return None;
    }
    let created: Moment = make_moment(read_integer(&row.created));
    if created.nanoseconds() > now.nanoseconds() - STALE_AFTER {
        return None;
    }
    match &row.id {
        Some(s) => if s.as_str().unicode_len() > 0 {
            Some(s.clone())
        } else {
            None
        },
        None => None,
    }
}

/// The numbers of the orders to be taken back of some rows.
pub open spec fn stales_in(rows: Seq<OrderRowView>, now: Moment) -> Seq<Seq<char>>
    decreases rows.len(),
{
    if rows.len() == 0 {
        Seq::empty()
    } else {
        let before = stales_in(rows.drop_last(), now);
        match stale_in(rows.last(), now) {
            Some(id) => before.push(id),
            None => before,
        }
    }
}

/// See [`stales_in`].
pub fn make_stales(rows: &Vec<OrderRow>, now: &Moment) -> (r: Vec<String>)
    ensures
        json::all_chars(r@) == stales_in(order_row_views(rows@), *now),
{
    let mut r: Vec<String> = Vec::new();
    let ghost all = order_row_views(rows@);
    let mut i: usize = 0;
    assert(json::all_chars(r@) =~= Seq::<Seq<char>>::empty());
    while i < rows.len()
        invariant
            i <= rows@.len(),
            all == order_row_views(rows@),
            json::all_chars(r@) == stales_in(all.take(i as int), *now),
        decreases rows@.len() - i,
    {
        proof {
            assert(all.take(i + 1).drop_last() =~= all.take(i as int));
            assert(all.take(i + 1).last() == rows@[i as int]@);
        }
        if let Some(id) = make_stale(&rows[i], now) {
            let ghost before = r@;
            r.push(id);
            assert(json::all_chars(r@) =~= json::all_chars(before).push(id@));
        }
        i = i + 1;
    }
    assert(all.take(i as int) =~= all);
    r
}

/// The numbers of the orders to be taken back by the reply to a request for the open
/// orders.
pub open spec fn stale_orders(raw: Seq<char>, now: Moment) -> Result<Seq<Seq<char>>, Seq<char>> {
    match reply_of(raw) {
        Ok(v) => match list_length(v) {
            Some(n) => Ok(stales_in(order_rows_in(v, n), now)),
            None => Ok(Seq::empty()),
        },
        Err(e) => Err(e),
    }
}

/// See [`stale_orders`].
pub fn read_stale_orders(raw: &str, now: &Moment) -> (r: Result<Vec<String>, String>)
    ensures
        (match r {
            Ok(v) => Ok(json::all_chars(v@)),
            Err(e) => Err(e@),
        }) == stale_orders(raw@, *now),
{
    let v: serde_json::Value = match check_reply(raw) {
        Ok(v) => v,
        Err(e) => {
            return Err(e);
        },
    };
    let n: usize = match json::length_at(&v, "/result/list") {
        Some(n) => n,
        None => 0,
    };
    let rows: Vec<OrderRow> = read_order_rows(&v, n);
    assert(order_rows_in(v, 0).len() == 0);
    Ok(make_stales(&rows, now))
}

} // verus!
