//! Names of instruments.
use vstd::prelude::*;
use vstd::string::*;
use crate::text;

verus! {

/// A name without blanks around it, in capitals.
pub open spec fn cleaned(s: Seq<char>) -> Seq<char> {
    text::uppercase(text::trimmed(s))
}

/// See [`cleaned`].
pub fn clean(s: &str) -> (r: String)
    ensures
        r@ == cleaned(s@),
{
    text::to_uppercase(text::trim(s).as_str())
}

/// Whether a text contains a character.
pub open spec fn has_char(s: Seq<char>, c: char) -> bool {
    text::first_from(s, 0, c) < s.len()
}

/// See [`has_char`].
pub fn contains_char(s: &str, c: char) -> (b: bool)
    ensures
        b == has_char(s@, c),
{
    let v: Vec<char> = text::chars_of(s);
    text::find_from(&v, 0, c) < v.len()
}

/// Whether a name is a base asset followed by a quote asset.
pub open spec fn quoted_in(s: Seq<char>, quote: Seq<char>) -> bool {
    text::ends(s, quote) && s.len() > quote.len()
}

/// See [`quoted_in`].
pub fn is_quoted_in(s: &str, quote: &str) -> (b: bool)
    ensures
        b == quoted_in(s@, quote@),
{
    text::ends_with(s, quote) && s.unicode_len() > quote.unicode_len()
}

/// The name that the exchange uses: a pair loses its quote asset in USDT or USDC, a
/// name that is quoted in either stays, and any other is quoted in USDT.
pub open spec fn exchange_name(s: Seq<char>) -> Seq<char> {
    if has_char(s, '/') {
        text::erased(
            text::erased(text::erased(text::erased(s, "/USDT:USDT"@), "/USDT"@), "/USDC:USDC"@),
            "/USDC"@,
        )
    } else if quoted_in(s, "USDT"@) || quoted_in(s, "USDC"@) {
        s
    } else {
        s + "USDT"@
    }
}

/// See [`exchange_name`].
pub fn make_exchange_name(s: String) -> (r: String)
    ensures
        r@ == exchange_name(s@),
{
    proof {
        reveal_strlit("/USDT:USDT");
        reveal_strlit("/USDT");
        reveal_strlit("/USDC:USDC");
        reveal_strlit("/USDC");
    }
    if contains_char(s.as_str(), '/') {
        let a: String = text::erase(s.as_str(), "/USDT:USDT");
        let b: String = text::erase(a.as_str(), "/USDT");
        let c: String = text::erase(b.as_str(), "/USDC:USDC");
        text::erase(c.as_str(), "/USDC")
    } else if is_quoted_in(s.as_str(), "USDT") || is_quoted_in(s.as_str(), "USDC") {
        s
    } else {
        text::concat(s.as_str(), "USDT")
    }
}

/// The name that the exchange uses for a name as it was given.
pub open spec fn resolved(sym: Seq<char>) -> Seq<char> {
    exchange_name(cleaned(sym))
}

/// See [`resolved`].
pub fn resolve(sym: &str) -> (r: String)
    ensures
        r@ == resolved(sym@),
{
    make_exchange_name(clean(sym))
}

/// The name that the exchange uses, where everything is quoted in USDT.
pub open spec fn exchange_name_usdt(s: Seq<char>) -> Seq<char> {
    if has_char(s, '/') {
        text::erased(text::erased(s, "/USDT:USDT"@), "/USDT"@)
    } else if quoted_in(s, "USDT"@) {
        s
    } else {
        s + "USDT"@
    }
}

/// See [`exchange_name_usdt`].
pub fn make_exchange_name_usdt(s: String) -> (r: String)
    ensures
        r@ == exchange_name_usdt(s@),
{
    proof {
        reveal_strlit("/USDT:USDT");
        reveal_strlit("/USDT");
    }
    if contains_char(s.as_str(), '/') {
        let a: String = text::erase(s.as_str(), "/USDT:USDT");
        text::erase(a.as_str(), "/USDT")
    } else if is_quoted_in(s.as_str(), "USDT") {
        s
    } else {
        text::concat(s.as_str(), "USDT")
    }
}

/// The name that the exchange uses for a name as it was given, where everything is
/// quoted in USDT.
pub open spec fn resolved_usdt(sym: Seq<char>) -> Seq<char> {
    exchange_name_usdt(cleaned(sym))
}

/// See [`resolved_usdt`].
pub fn resolve_usdt(sym: &str) -> (r: String)
    ensures
        r@ == resolved_usdt(sym@),
{
    make_exchange_name_usdt(clean(sym))
}

/// A name that is not a pair is resolved to one quoted in USDT or USDC.
pub proof fn lemma_resolved_is_quoted(sym: Seq<char>)
    requires
        !has_char(cleaned(sym), '/'),
    ensures
        quoted_in(resolved(sym), "USDT"@) || quoted_in(resolved(sym), "USDC"@) || cleaned(sym).len()
            == 0,
        quoted_in(resolved_usdt(sym), "USDT"@) || cleaned(sym).len() == 0,
{
    let s = cleaned(sym);
    let q = "USDT"@;
    let joined = s + q;
    assert(joined.subrange(s.len() as int, joined.len() as int) =~= q);
}

/// A text contains a character where the character stands somewhere in it.
proof fn lemma_has_char(s: Seq<char>, i: int, c: char)
    requires
        0 <= i <= s.len(),
    ensures
        i <= text::first_from(s, i, c) <= s.len(),
        text::first_from(s, i, c) < s.len() <==> exists|j: int| i <= j < s.len() && s[j] == c,
    decreases s.len() - i,
{
    if i < s.len() && s[i] != c {
        lemma_has_char(s, i + 1, c);
    }
}

/// The name of a resolved symbol is its own, unless it is a pair.
pub proof fn lemma_resolved_stays(s: Seq<char>)
    requires
        s.len() > 0,
        !has_char(s, '/'),
    ensures
        exchange_name(exchange_name(s)) == exchange_name(s),
        exchange_name_usdt(exchange_name_usdt(s)) == exchange_name_usdt(s),
{
    let q = "USDT"@;
    let joined = s + q;
    reveal_strlit("USDT");
    lemma_has_char(s, 0, '/');
    lemma_has_char(joined, 0, '/');
    assert forall|j: int| 0 <= j < joined.len() implies joined[j] != '/' by {
        if j < s.len() {
            assert(joined[j] == s[j]);
        } else {
            assert(joined[j] == q[j - s.len()]);
        }
    }
    assert(joined.subrange(s.len() as int, joined.len() as int) =~= q);
}

} // verus!
