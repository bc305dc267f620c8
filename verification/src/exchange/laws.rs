//! What is read from the replies of the exchange, by where it stands in them.
use vstd::prelude::*;
use crate::exchange::replies;
use crate::exchange::replies::ClosingView;
use crate::json;
use crate::num::Num;
use crate::numeral;
use crate::stream;
use crate::text;
use crate::time;
use crate::time::Moment;

verus! {

/// Whether a text is the reply `v`, and reports success.
pub open spec fn success(raw: Seq<char>, v: serde_json::Value) -> bool {
    &&& json::document(raw) == Ok::<serde_json::Value, Seq<char>>(v)
    &&& json::integers(v).dom().contains("/retCode"@)
    &&& json::integers(v)["/retCode"@] == 0
}

/// Whether a reply lists `n` elements.
pub open spec fn lists(v: serde_json::Value, n: nat) -> bool {
    json::lengths(v).dom().contains("/result/list"@) && json::lengths(v)["/result/list"@] == n
}

/// Where an element of the list stands in a reply.
pub open spec fn element(i: nat) -> Seq<char> {
    "/result/list/"@ + text::decimal(i as int)
}

/// The number that a reply says under a pointer; zero where it says none.
pub open spec fn number_at(v: serde_json::Value, pointer: Seq<char>) -> Num {
    match stream::said(v, pointer) {
        Some(s) => match numeral::number_of(s) {
            Some(n) => n,
            None => Num { bits: 0 },
        },
        None => Num { bits: 0 },
    }
}

/// The text of a member is what the reply says where it stands.
proof fn lemma_member(v: serde_json::Value, n: nat, i: nat, slashed: Seq<char>, member: Seq<char>)
    requires
        lists(v, n),
        i < n,
        slashed == "/"@ + member,
    ensures
        replies::member_text(v, i, member) == stream::said(v, element(i) + slashed),
{
    assert(element(i) + slashed =~= element(i) + "/"@ + member);
}

/// The names of the columns of a bar.
proof fn lemma_columns()
    ensures
        "/0"@ == "/"@ + "0"@,
        "/1"@ == "/"@ + "1"@,
        "/2"@ == "/"@ + "2"@,
        "/3"@ == "/"@ + "3"@,
        "/4"@ == "/"@ + "4"@,
        "/5"@ == "/"@ + "5"@,
{
    reveal_strlit("/");
    reveal_strlit("0");
    reveal_strlit("1");
    reveal_strlit("2");
    reveal_strlit("3");
    reveal_strlit("4");
    reveal_strlit("5");
    reveal_strlit("/0");
    reveal_strlit("/1");
    reveal_strlit("/2");
    reveal_strlit("/3");
    reveal_strlit("/4");
    reveal_strlit("/5");
    assert("/0"@ =~= "/"@ + "0"@);
    assert("/1"@ =~= "/"@ + "1"@);
    assert("/2"@ =~= "/"@ + "2"@);
    assert("/3"@ =~= "/"@ + "3"@);
    assert("/4"@ =~= "/"@ + "4"@);
    assert("/5"@ =~= "/"@ + "5"@);
}

/// A reply that lists lists is read as so many bars, the last element first: of each
/// element the columns are, from the first, the time, the open, the high, the low, the
/// close and the volume.
pub proof fn lemma_past_bars(raw: Seq<char>, v: serde_json::Value, n: nat, i: nat)
    requires
        success(raw, v),
        lists(v, n),
        forall|j: nat| j < n ==> json::lengths(v).dom().contains(#[trigger] element(j)),
        i < n,
    ensures
        replies::klines(raw) is Ok,
        replies::klines(raw)->Ok_0.len() == n,
        ({
            let k = replies::klines(raw)->Ok_0[n - 1 - i];
            &&& k.open == number_at(v, element(i) + "/1"@)
            &&& k.high == number_at(v, element(i) + "/2"@)
            &&& k.low == number_at(v, element(i) + "/3"@)
            &&& k.close == number_at(v, element(i) + "/4"@)
            &&& k.volume == number_at(v, element(i) + "/5"@)
            &&& k.datetime == stream::time_of(k.ts as int)
            &&& match stream::said(v, element(i) + "/0"@) {
                Some(s) => match text::parsed_integer(s, i64::MIN as int, i64::MAX as int) {
                    Some(t) => k.ts == t,
                    None => k.ts == 0,
                },
                None => k.ts == 0,
            }
        }),
{
    lemma_columns();
    lemma_member(v, n, i, "/0"@, "0"@);
    lemma_member(v, n, i, "/1"@, "1"@);
    lemma_member(v, n, i, "/2"@, "2"@);
    lemma_member(v, n, i, "/3"@, "3"@);
    lemma_member(v, n, i, "/4"@, "4"@);
    lemma_member(v, n, i, "/5"@, "5"@);
    assert(replies::all_lists(v, n)) by {
        assert forall|j: nat| j < n implies json::lengths(v).dom().contains(
            #[trigger] replies::item_pointer(j),
        ) by {
            assert(json::lengths(v).dom().contains(element(j)));
        }
    }
    let rows = replies::kline_rows_in(v, n);
    assert(replies::bars_in(rows)[n - 1 - i] == replies::bar_in(rows[i as int]));
}

/// The pointers of the first element.
proof fn lemma_first_element()
    ensures
        "/result/list/0/bid1Price"@ == element(0) + "/"@ + "bid1Price"@,
        "/result/list/0/ask1Price"@ == element(0) + "/"@ + "ask1Price"@,
        "/result/list/0/lastPrice"@ == element(0) + "/"@ + "lastPrice"@,
        "/result/list/0/lotSizeFilter/qtyStep"@ == element(0) + "/"@ + "lotSizeFilter/qtyStep"@,
{
    reveal_strlit("/");
    reveal_strlit("/result/list/");
    reveal_strlit("bid1Price");
    reveal_strlit("ask1Price");
    reveal_strlit("lastPrice");
    reveal_strlit("lotSizeFilter/qtyStep");
    reveal_strlit("/result/list/0/bid1Price");
    reveal_strlit("/result/list/0/ask1Price");
    reveal_strlit("/result/list/0/lastPrice");
    reveal_strlit("/result/list/0/lotSizeFilter/qtyStep");
    assert(text::decimal(0) =~= seq!['0']);
    assert("/result/list/0/bid1Price"@ =~= element(0) + "/"@ + "bid1Price"@);
    assert("/result/list/0/ask1Price"@ =~= element(0) + "/"@ + "ask1Price"@);
    assert("/result/list/0/lastPrice"@ =~= element(0) + "/"@ + "lastPrice"@);
    assert("/result/list/0/lotSizeFilter/qtyStep"@ =~= element(0) + "/"@
        + "lotSizeFilter/qtyStep"@);
}

/// The bid, the ask and the last price are what the first element of a reply says under
/// their names, where these are numbers; so is the step of quantities.
pub proof fn lemma_first_prices(raw: Seq<char>, v: serde_json::Value, n: nat, x: Num, y: Num)
    requires
        success(raw, v),
        lists(v, n),
        n > 0,
    ensures
        stream::writes(stream::said(v, "/result/list/0/bid1Price"@), x) && stream::writes(
            stream::said(v, "/result/list/0/ask1Price"@),
            y,
        ) ==> replies::quote(raw) == Ok::<(Num, Num), Seq<char>>((x, y)),
        stream::writes(stream::said(v, "/result/list/0/lastPrice"@), x) ==> replies::last_price(raw)
            == Ok::<Num, Seq<char>>(x),
        !stream::readable(stream::said(v, "/result/list/0/bid1Price"@)) ==> replies::quote(raw) is Err,
        !stream::readable(stream::said(v, "/result/list/0/ask1Price"@)) ==> replies::quote(raw) is Err,
        !stream::readable(stream::said(v, "/result/list/0/lastPrice"@)) ==> replies::last_price(raw)
            is Err,
        stream::writes(stream::said(v, "/result/list/0/lotSizeFilter/qtyStep"@), x)
            ==> replies::qty_step(Some(raw)) == x,
{
    lemma_first_element();
}

/// A reply that is no document, or does not report success, gives no price, no bars and no
/// symbols.
pub proof fn lemma_failure(raw: Seq<char>)
    requires
        forall|v: serde_json::Value| !#[trigger] success(raw, v),
    ensures
        replies::quote(raw) is Err,
        replies::last_price(raw) is Err,
        replies::klines(raw) is Err,
        replies::perps(raw) is Err,
        replies::closings(raw) is Err,
        forall|now: Moment| #[trigger] replies::stale_orders(raw, now) is Err,
{
    if let Ok(v) = json::document(raw) {
        assert(!success(raw, v));
    }
}

/// The position that an element of a reply tells of, if it is to be closed: it has a side,
/// and a size that is not zero or less.
pub open spec fn position_at(v: serde_json::Value, i: nat) -> Option<ClosingView> {
    let size = number_at(v, element(i) + "/size"@);
    let side = stream::said(v, element(i) + "/side"@);
    let symbol = match stream::said(v, element(i) + "/symbol"@) {
        Some(s) => s,
        None => Seq::empty(),
    };
    if (size.nan() || Num { bits: 0 }.below(size)) && (side == Some("Buy"@) || side == Some(
        "Sell"@,
    )) {
        Some(ClosingView { symbol, long: side == Some("Buy"@), size })
    } else {
        None
    }
}

/// Names behind a slash.
proof fn lemma_names()
    ensures
        "/size"@ == "/"@ + "size"@,
        "/side"@ == "/"@ + "side"@,
        "/symbol"@ == "/"@ + "symbol"@,
        "/stopOrderType"@ == "/"@ + "stopOrderType"@,
        "/orderStatus"@ == "/"@ + "orderStatus"@,
        "/createdTime"@ == "/"@ + "createdTime"@,
        "/orderId"@ == "/"@ + "orderId"@,
        "Buy"@ != "Sell"@,
{
    reveal_strlit("/");
    reveal_strlit("size");
    reveal_strlit("side");
    reveal_strlit("symbol");
    reveal_strlit("stopOrderType");
    reveal_strlit("orderStatus");
    reveal_strlit("createdTime");
    reveal_strlit("orderId");
    reveal_strlit("/size");
    reveal_strlit("/side");
    reveal_strlit("/symbol");
    reveal_strlit("/stopOrderType");
    reveal_strlit("/orderStatus");
    reveal_strlit("/createdTime");
    reveal_strlit("/orderId");
    reveal_strlit("Buy");
    reveal_strlit("Sell");
    assert("/size"@ =~= "/"@ + "size"@);
    assert("/side"@ =~= "/"@ + "side"@);
    assert("/symbol"@ =~= "/"@ + "symbol"@);
    assert("/stopOrderType"@ =~= "/"@ + "stopOrderType"@);
    assert("/orderStatus"@ =~= "/"@ + "orderStatus"@);
    assert("/createdTime"@ =~= "/"@ + "createdTime"@);
    assert("/orderId"@ =~= "/"@ + "orderId"@);
    assert("Buy"@.len() != "Sell"@.len());
}

/// What is selected of some elements: each that is there, in their order.
pub open spec fn selected<T>(of: spec_fn(nat) -> Option<T>, n: nat) -> Seq<T>
    decreases n,
{
    if n == 0 {
        Seq::empty()
    } else {
        let before = selected(of, (n - 1) as nat);
        match of((n - 1) as nat) {
            Some(x) => before.push(x),
            None => before,
        }
    }
}

/// The positions of a reply that are to be closed are those of its elements, in their
/// order.
pub proof fn lemma_positions(raw: Seq<char>, v: serde_json::Value, n: nat)
    requires
        success(raw, v),
        lists(v, n),
    ensures
        replies::closings(raw) == Ok::<Seq<ClosingView>, Seq<char>>(
            selected(|i: nat| position_at(v, i), n),
        ),
{
    lemma_positions_up_to(v, n, n);
}

/// The first positions of a reply.
proof fn lemma_positions_up_to(v: serde_json::Value, n: nat, m: nat)
    requires
        lists(v, n),
        m <= n,
    ensures
        replies::closings_in(replies::position_rows_in(v, m)) == selected(
            |i: nat| position_at(v, i),
            m,
        ),
    decreases m,
{
    if m > 0 {
        let i = (m - 1) as nat;
        lemma_positions_up_to(v, n, i);
        lemma_names();
        lemma_member(v, n, i, "/size"@, "size"@);
        lemma_member(v, n, i, "/side"@, "side"@);
        lemma_member(v, n, i, "/symbol"@, "symbol"@);
        let rows = replies::position_rows_in(v, m);
        assert(rows.drop_last() =~= replies::position_rows_in(v, i));
        assert(replies::closing_in(rows.last()) == position_at(v, i));
    }
}

/// The symbol that an element of a reply names, if it is settled in one of the two coins.
pub open spec fn contract_at(v: serde_json::Value, i: nat) -> Option<Seq<char>> {
    match stream::said(v, element(i) + "/symbol"@) {
        Some(s) => if s.len() >= 4 && (s.skip(s.len() - 4) == "USDT"@ || s.skip(s.len() - 4)
            == "USDC"@) {
            Some(s)
        } else {
            None
        },
        None => None,
    }
}

/// The contracts of a reply are those of its elements that are settled in one of the two
/// coins, in their order.
pub proof fn lemma_contracts(raw: Seq<char>, v: serde_json::Value, n: nat)
    requires
        success(raw, v),
        lists(v, n),
    ensures
        replies::perps(raw) == Ok::<Seq<Seq<char>>, Seq<char>>(
            selected(|i: nat| contract_at(v, i), n),
        ),
{
    lemma_contracts_up_to(v, n, n);
}

/// The first contracts of a reply.
proof fn lemma_contracts_up_to(v: serde_json::Value, n: nat, m: nat)
    requires
        lists(v, n),
        m <= n,
    ensures
        replies::perps_in(replies::contract_rows_in(v, m)) == selected(
            |i: nat| contract_at(v, i),
            m,
        ),
    decreases m,
{
    if m > 0 {
        let i = (m - 1) as nat;
        lemma_contracts_up_to(v, n, i);
        lemma_names();
        lemma_member(v, n, i, "/symbol"@, "symbol"@);
        let rows = replies::contract_rows_in(v, m);
        assert(rows.drop_last() =~= replies::contract_rows_in(v, i));
        reveal_strlit("USDT");
        reveal_strlit("USDC");
        if let Some(s) = stream::said(v, element(i) + "/symbol"@) {
            if s.len() >= 4 {
                assert(s.skip(s.len() - 4) =~= s.subrange(s.len() - 4, s.len() as int));
            }
        }
    }
}

/// The number of the order that an element of a reply tells of, if it is to be taken
/// back: it belongs to no stop or target, waits to be filled, is named, and was placed
/// three minutes ago or before.
pub open spec fn order_at(v: serde_json::Value, i: nat, now: Moment) -> Option<Seq<char>> {
    let stop = stream::said(v, element(i) + "/stopOrderType"@);
    let status = stream::said(v, element(i) + "/orderStatus"@);
    let id = stream::said(v, element(i) + "/orderId"@);
    let created = match stream::said(v, element(i) + "/createdTime"@) {
        Some(s) => match text::parsed_integer(s, i64::MIN as int, i64::MAX as int) {
            Some(t) => t,
            None => 0,
        },
        None => 0,
    };
    if (stop is None || stop->0.len() == 0) && (status == Some("New"@) || status == Some(
        "PartiallyFilled"@,
    ) || status == Some("Untriggered"@)) && id is Some && id->0.len() > 0 && replies::moment_of(
        created,
    ).stamp() + 180_000_000_000 <= now.stamp() {
        id
    } else {
        None
    }
}

/// The orders of a reply that are to be taken back are those of its elements, in their
/// order.
pub proof fn lemma_old_orders(raw: Seq<char>, v: serde_json::Value, n: nat, now: Moment)
    requires
        success(raw, v),
        lists(v, n),
    ensures
        replies::stale_orders(raw, now) == Ok::<Seq<Seq<char>>, Seq<char>>(
            selected(|i: nat| order_at(v, i, now), n),
        ),
{
    lemma_old_orders_up_to(v, n, n, now);
}

/// The first orders of a reply.
proof fn lemma_old_orders_up_to(v: serde_json::Value, n: nat, m: nat, now: Moment)
    requires
        lists(v, n),
        m <= n,
    ensures
        replies::stales_in(replies::order_rows_in(v, m), now) == selected(
            |i: nat| order_at(v, i, now),
            m,
        ),
    decreases m,
{
    if m > 0 {
        let i = (m - 1) as nat;
        lemma_old_orders_up_to(v, n, i, now);
        lemma_names();
        lemma_member(v, n, i, "/stopOrderType"@, "stopOrderType"@);
        lemma_member(v, n, i, "/orderStatus"@, "orderStatus"@);
        lemma_member(v, n, i, "/createdTime"@, "createdTime"@);
        lemma_member(v, n, i, "/orderId"@, "orderId"@);
        let rows = replies::order_rows_in(v, m);
        assert(rows.drop_last() =~= replies::order_rows_in(v, i));
        assert(replies::stale_in(rows.last(), now) == order_at(v, i, now));
    }
}

/// The moment of some milliseconds.
pub proof fn lemma_moment_of(millis: int)
    requires
        0 <= millis <= 8_210_266_876_799_999,
    ensures
        replies::moment_of(millis).stamp() == millis * 1_000_000,
{
    assert(time::representable(millis / 1000, millis % 1000 * 1_000_000));
    time::lemma_moment(millis / 1000, millis % 1000 * 1_000_000);
    assert(millis == millis / 1000 * 1000 + millis % 1000);
}

} // verus!
