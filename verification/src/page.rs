//! Pages: text in which numbers stand by value and are written out last.
//!
//! The templates of this library mark a place to fill by an empty pair of braces.
use vstd::prelude::*;
use vstd::string::*;
use crate::num::Num;
use crate::text;

verus! {

/// How a number is written out.
#[derive(Clone, Copy, Debug, PartialEq, Eq, Structural)]
pub enum NumStyle {
    /// The shortest text that reads back as the number.
    Plain,
    /// A fixed number of decimals.
    Fixed(usize),
    /// A fixed number of decimals, always with a sign.
    Signed(usize),
}

/// One element of a page: a character, given by its code point, or a number that
/// is still to be written.
pub enum Glyph {
    Char(int),
    Number(NumStyle, Num),
}

/// A run of characters, or a number.
#[derive(Debug)]
pub enum Piece {
    Text(String),
    Number(NumStyle, Num),
}

/// A page.
#[derive(Debug)]
pub struct Page {
    pub pieces: Vec<Piece>,
}

/// A text as page elements.
pub open spec fn plain(s: Seq<char>) -> Seq<Glyph>
    decreases s.len(),
{
    if s.len() == 0 {
        Seq::empty()
    } else {
        plain(s.drop_last()).push(Glyph::Char(s.last() as int))
    }
}

/// A single number as page elements.
pub open spec fn figure(style: NumStyle, n: Num) -> Seq<Glyph> {
    seq![Glyph::Number(style, n)]
}

/// An integer as page elements.
pub open spec fn whole(n: int) -> Seq<Glyph> {
    plain(text::decimal(n))
}

/// The elements of a piece.
pub open spec fn glyphs_of(p: Piece) -> Seq<Glyph> {
    match p {
        Piece::Text(s) => plain(s@),
        Piece::Number(style, n) => figure(style, n),
    }
}

/// The elements of a list of pieces.
pub open spec fn flat(pieces: Seq<Piece>) -> Seq<Glyph>
    decreases pieces.len(),
{
    if pieces.len() == 0 {
        Seq::empty()
    } else {
        flat(pieces.drop_last()) + glyphs_of(pieces.last())
    }
}

impl View for Page {
    type V = Seq<Glyph>;

    open spec fn view(&self) -> Seq<Glyph> {
        flat(self.pieces@)
    }
}

/// The views of a list of pages.
pub open spec fn views(pages: Seq<Page>) -> Seq<Seq<Glyph>> {
    pages.map_values(|p: Page| p@)
}

/// Whether a place to fill stands at the start of a template.
pub open spec fn opens_slot(template: Seq<char>) -> bool {
    template.len() >= 2 && template[0] == '{' && template[1] == '}'
}

/// A template with its places filled from the left; a place without a filling
/// stays empty.
pub open spec fn filled(template: Seq<char>, slots: Seq<Seq<Glyph>>) -> Seq<Glyph>
    decreases template.len(),
{
    if template.len() == 0 {
        Seq::empty()
    } else if opens_slot(template) {
        if slots.len() == 0 {
            filled(template.skip(2), slots)
        } else {
            slots[0] + filled(template.skip(2), slots.skip(1))
        }
    } else {
        seq![Glyph::Char(template[0] as int)] + filled(template.skip(1), slots)
    }
}

/// Page elements with a separator between each two.
pub open spec fn joined(parts: Seq<Seq<Glyph>>, separator: Seq<char>) -> Seq<Glyph>
    decreases parts.len(),
{
    if parts.len() == 0 {
        Seq::empty()
    } else if parts.len() == 1 {
        parts[0]
    } else {
        joined(parts.drop_last(), separator) + plain(separator) + parts.last()
    }
}

/// The elements of two lists of pieces.
proof fn lemma_flat_push(pieces: Seq<Piece>, p: Piece)
    ensures
        flat(pieces.push(p)) == flat(pieces) + glyphs_of(p),
{
    assert(pieces.push(p).drop_last() =~= pieces);
}

/// The empty text has no elements, and a longer text has one more.
pub proof fn lemma_plain(s: Seq<char>, c: char)
    ensures
        plain(Seq::<char>::empty()) == Seq::<Glyph>::empty(),
        plain(s.push(c)) == plain(s) + seq![Glyph::Char(c as int)],
{
    assert(s.push(c).drop_last() =~= s);
    assert(plain(s).push(Glyph::Char(c as int)) =~= plain(s) + seq![Glyph::Char(c as int)]);
}

impl Clone for Piece {
    fn clone(&self) -> (r: Piece)
        ensures
            r == *self,
    {
        match self {
            Piece::Text(s) => Piece::Text(s.clone()),
            Piece::Number(style, n) => Piece::Number(*style, *n),
        }
    }
}

impl Page {
    /// A page with nothing on it.
    pub fn new() -> (p: Page)
        ensures
            p@ == Seq::<Glyph>::empty(),
    {
        Page { pieces: Vec::new() }
    }

    /// Adds a text.
    pub fn push_text(&mut self, s: &str)
        ensures
            final(self)@ == old(self)@ + plain(s@),
    {
        let t: String = s.to_owned();
        proof {
            lemma_flat_push(self.pieces@, Piece::Text(t));
        }
        self.pieces.push(Piece::Text(t));
    }

    /// Adds a number.
    pub fn push_number(&mut self, style: NumStyle, n: Num)
        ensures
            final(self)@ == old(self)@ + figure(style, n),
    {
        proof {
            lemma_flat_push(self.pieces@, Piece::Number(style, n));
        }
        self.pieces.push(Piece::Number(style, n));
    }

    /// Adds another page.
    pub fn append(&mut self, other: &Page)
        ensures
            final(self)@ == old(self)@ + other@,
    {
        let ghost start = self@;
        let mut i: usize = 0;
        assert(flat(other.pieces@.take(0)) =~= Seq::<Glyph>::empty());
        assert(start + flat(other.pieces@.take(0)) =~= start);
        while i < other.pieces.len()
            invariant
                i <= other.pieces@.len(),
                self@ == start + flat(other.pieces@.take(i as int)),
            decreases other.pieces@.len() - i,
        {
            let p: Piece = other.pieces[i].clone();
            proof {
                lemma_flat_push(self.pieces@, p);
                assert(other.pieces@.take(i + 1).drop_last() =~= other.pieces@.take(i as int));
                assert((start + flat(other.pieces@.take(i as int))) + glyphs_of(p) =~= start + (flat(
                    other.pieces@.take(i as int),
                ) + glyphs_of(p)));
            }
            self.pieces.push(p);
            i = i + 1;
        }
        assert(other.pieces@.take(i as int) =~= other.pieces@);
    }

    /// A page with one text.
    pub fn text(s: &str) -> (p: Page)
        ensures
            p@ == plain(s@),
    {
        let mut p: Page = Page::new();
        p.push_text(s);
        assert(p@ =~= plain(s@));
        p
    }

    /// A page with one number.
    pub fn number(style: NumStyle, n: Num) -> (p: Page)
        ensures
            p@ == figure(style, n),
    {
        let mut p: Page = Page::new();
        p.push_number(style, n);
        assert(p@ =~= figure(style, n));
        p
    }

    /// A page with one number as it is.
    pub fn shortest(n: Num) -> (p: Page)
        ensures
            p@ == figure(NumStyle::Plain, n),
    {
        Page::number(NumStyle::Plain, n)
    }

    /// A page with one number to a fixed number of decimals.
    pub fn fixed(decimals: usize, n: Num) -> (p: Page)
        ensures
            p@ == figure(NumStyle::Fixed(decimals), n),
    {
        Page::number(NumStyle::Fixed(decimals), n)
    }

    /// A page with one number to a fixed number of decimals and with its sign.
    pub fn signed(decimals: usize, n: Num) -> (p: Page)
        ensures
            p@ == figure(NumStyle::Signed(decimals), n),
    {
        Page::number(NumStyle::Signed(decimals), n)
    }

    /// A page with one integer.
    pub fn integer(n: i64) -> (p: Page)
        ensures
            p@ == whole(n as int),
    {
        Page::text(text::decimal_text(n).as_str())
    }

    /// A page with one number of things.
    pub fn total(n: u64) -> (p: Page)
        ensures
            p@ == whole(n as int),
    {
        Page::text(text::digits_text(n).as_str())
    }

    /// A page with one count.
    pub fn count(n: usize) -> (p: Page)
        ensures
            p@ == whole(n as int),
    {
        Page::text(text::digits_text(n as u64).as_str())
    }
}

/// See [`filled`].
pub fn fill(template: &str, slots: &Vec<Page>) -> (page: Page)
    ensures
        page@ == filled(template@, views(slots@)),
{
    let t: Vec<char> = text::chars_of(template);
    let mut page: Page = Page::new();
    let mut run: String = String::new();
    let mut i: usize = 0;
    let mut used: usize = 0;
    let ghost all = views(slots@);
    proof {
        assert(t@.skip(0) =~= t@);
        assert(all.skip(0) =~= all);
        assert(page@ + plain(run@) + filled(t@, all) =~= filled(t@, all));
    }
    while i < t.len()
        invariant
            i <= t@.len(),
            used <= slots@.len(),
            all == views(slots@),
            page@ + plain(run@) + filled(t@.skip(i as int), all.skip(used as int)) == filled(t@, all),
        decreases t@.len() - i,
    {
        let ghost rest = t@.skip(i as int);
        let ghost left = all.skip(used as int);
        let ghost before = page@;
        let ghost ran = plain(run@);
        if t[i] == '{' && i + 1 < t.len() && t[i + 1] == '}' {
            assert(rest.skip(2) =~= t@.skip(i + 2));
            page.push_text(run.as_str());
            if used < slots.len() {
                page.append(&slots[used]);
                assert(left.skip(1) =~= all.skip(used + 1));
                assert(before + ran + (left[0] + filled(rest.skip(2), left.skip(1))) =~= (before + ran
                    + left[0]) + plain(Seq::empty()) + filled(rest.skip(2), left.skip(1)));
                used = used + 1;
            } else {
                assert(left.len() == 0);
                assert(before + ran + filled(rest.skip(2), left) =~= (before + ran) + plain(
                    Seq::empty(),
                ) + filled(rest.skip(2), left));
            }
            run = String::new();
            i = i + 2;
        } else {
            assert(rest.skip(1) =~= t@.skip(i + 1));
            let ghost one = seq![Glyph::Char(rest[0] as int)];
            let ghost tail = filled(rest.skip(1), left);
            proof {
                lemma_plain(run@, rest[0]);
                assert(plain(run@.push(rest[0])) == ran + one);
                assert(before + ran + (one + tail) =~= before + (ran + one) + tail);
            }
            run.push(t[i]);
            i = i + 1;
        }
    }
    page.push_text(run.as_str());
    assert(t@.skip(i as int) =~= Seq::<char>::empty());
    assert(page@ + Seq::<Glyph>::empty() =~= page@);
    page
}

/// See [`joined`].
pub fn join(parts: &Vec<Page>, separator: &str) -> (page: Page)
    ensures
        page@ == joined(views(parts@), separator@),
{
    let mut page: Page = Page::new();
    let mut i: usize = 0;
    let ghost all = views(parts@);
    while i < parts.len()
        invariant
            i <= parts@.len(),
            all == views(parts@),
            page@ == joined(all.take(i as int), separator@),
        decreases parts@.len() - i,
    {
        assert(all.take(i + 1).drop_last() =~= all.take(i as int));
        assert(all.take(i + 1).last() == parts@[i as int]@);
        if i > 0 {
            page.push_text(separator);
        }
        page.append(&parts[i]);
        proof {
            if i == 0 {
                assert(Seq::<Glyph>::empty() + all[0] =~= all[0]);
            }
        }
        i = i + 1;
    }
    assert(all.take(i as int) =~= all);
    page
}

} // verus!
