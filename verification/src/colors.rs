//! Text decoration with ANSI escape sequences.
//!
//! Every decoration has the same shape: a Select Graphic Rendition sequence
//! that switches an attribute on, the text untouched, and the sequence that
//! resets all attributes. The text is opaque: it may be empty, and it may
//! already hold escape sequences, which are kept as they are.

use vstd::prelude::*;

verus! {

/// The attribute that a decoration switches on.
#[derive(Clone, Copy, Debug, PartialEq, Eq, Structural)]
pub enum Color {
    Red,
    Green,
    Blue,
    Bold,
    Reset,
}

impl Color {
    /// The decimal digits of the attribute's Select Graphic Rendition code.
    pub open spec fn code(self) -> Seq<char> {
        match self {
            Color::Red => seq!['3', '1'],
            Color::Green => seq!['3', '2'],
            Color::Blue => seq!['3', '4'],
            Color::Bold => seq!['1'],
            Color::Reset => seq!['0'],
        }
    }
}

/// The escape sequence that selects `code`: ESC, `[`, the code, `m`.
pub open spec fn sgr(code: Seq<char>) -> Seq<char> {
    seq!['\x1b', '['] + code + seq!['m']
}

/// `text` between the sequence that selects `color` and the one that resets.
pub open spec fn decorated(color: Color, text: Seq<char>) -> Seq<char> {
    sgr(color.code()) + text + sgr(Color::Reset.code())
}

/// The five escape sequences, as the literals that the functions emit.
pub proof fn lemma_sgr_literals()
    ensures
        sgr(Color::Red.code()) == "\x1b[31m"@,
        sgr(Color::Green.code()) == "\x1b[32m"@,
        sgr(Color::Blue.code()) == "\x1b[34m"@,
        sgr(Color::Bold.code()) == "\x1b[1m"@,
        sgr(Color::Reset.code()) == "\x1b[0m"@,
{
    reveal_strlit("\x1b[31m");
    reveal_strlit("\x1b[32m");
    reveal_strlit("\x1b[34m");
    reveal_strlit("\x1b[1m");
    reveal_strlit("\x1b[0m");
    assert(sgr(Color::Red.code()) =~= "\x1b[31m"@);
    assert(sgr(Color::Green.code()) =~= "\x1b[32m"@);
    assert(sgr(Color::Blue.code()) =~= "\x1b[34m"@);
    assert(sgr(Color::Bold.code()) =~= "\x1b[1m"@);
    assert(sgr(Color::Reset.code()) =~= "\x1b[0m"@);
}

/// Joins an opening sequence, the text and the closing reset sequence.
fn wrap(open: &str, s: &str) -> (r: String)
    ensures
        r@ == open@ + s@ + "\x1b[0m"@,
{
    let mut r = String::from_str(open);
    r.append(s);
    r.append("\x1b[0m");
    r
}

/// `s` in red: `ESC[31m`, `s`, `ESC[0m`.
pub fn red(s: &str) -> (r: String)
    ensures
        r@ == "\x1b[31m"@ + s@ + "\x1b[0m"@,
        r@ == decorated(Color::Red, s@),
{
    proof {
        lemma_sgr_literals();
    }
    wrap("\x1b[31m", s)
}

/// `s` in green: `ESC[32m`, `s`, `ESC[0m`.
pub fn green(s: &str) -> (r: String)
    ensures
        r@ == "\x1b[32m"@ + s@ + "\x1b[0m"@,
        r@ == decorated(Color::Green, s@),
{
    proof {
        lemma_sgr_literals();
    }
    wrap("\x1b[32m", s)
}

/// `s` in blue: `ESC[34m`, `s`, `ESC[0m`.
pub fn blue(s: &str) -> (r: String)
    ensures
        r@ == "\x1b[34m"@ + s@ + "\x1b[0m"@,
        r@ == decorated(Color::Blue, s@),
{
    proof {
        lemma_sgr_literals();
    }
    wrap("\x1b[34m", s)
}

/// `s` in bold: `ESC[1m`, `s`, `ESC[0m`.
pub fn bold(s: &str) -> (r: String)
    ensures
        r@ == "\x1b[1m"@ + s@ + "\x1b[0m"@,
        r@ == decorated(Color::Bold, s@),
{
    proof {
        lemma_sgr_literals();
    }
    wrap("\x1b[1m", s)
}

/// `s` with all attributes off: the reset sequence stands on both sides,
/// `ESC[0m`, `s`, `ESC[0m`.
pub fn reset(s: &str) -> (r: String)
    ensures
        r@ == "\x1b[0m"@ + s@ + "\x1b[0m"@,
        r@ == decorated(Color::Reset, s@),
{
    proof {
        lemma_sgr_literals();
    }
    wrap("\x1b[0m", s)
}

/// A text that remembers its attribute and its last decoration.
///
/// `colorized` is derived from the other two fields and follows them only
/// when `paint` or `reset` is called.
#[derive(Debug)]
pub struct ColorString {
    pub color: Color,
    pub string: String,
    pub colorized: String,
}

impl ColorString {
    /// Whether `colorized` is the decoration of `string` in `color`.
    pub open spec fn is_painted(&self) -> bool {
        self.colorized@ == decorated(self.color, self.string@)
    }

    /// Whether `colorized` is `string` between two reset sequences.
    pub open spec fn is_reset(&self) -> bool {
        self.colorized@ == decorated(Color::Reset, self.string@)
    }

    /// A text with its attribute and no decoration yet.
    pub fn new(color: Color, string: String) -> (r: Self)
        ensures
            r.color == color,
            r.string == string,
            r.colorized@ == Seq::<char>::empty(),
    {
        ColorString { color, string, colorized: String::new() }
    }

    /// Sets `colorized` to `string` decorated in `color`.
    pub fn paint(&mut self)
        ensures
            final(self).color == old(self).color,
            final(self).string == old(self).string,
            final(self).colorized@ == decorated(old(self).color, old(self).string@),
            final(self).is_painted(),
    {
        match self.color {
            Color::Red => {
                self.colorized = red(self.string.as_str());
            },
            Color::Green => {
                self.colorized = green(self.string.as_str());
            },
            Color::Blue => {
                self.colorized = blue(self.string.as_str());
            },
            Color::Bold => {
                self.colorized = bold(self.string.as_str());
            },
            Color::Reset => {
                self.colorized = reset(self.string.as_str());
            },
        }
    }

    /// Sets `colorized` to `string` between two reset sequences, whatever
    /// `color` is.
    pub fn reset(&mut self)
        ensures
            final(self).color == old(self).color,
            final(self).string == old(self).string,
            final(self).colorized@ == decorated(Color::Reset, old(self).string@),
            final(self).is_reset(),
    {
        self.colorized = reset(self.string.as_str());
    }
}

/// A decoration is longer than its text by the two sequences around it, and
/// holds the text unchanged between them.
pub proof fn lemma_decorated_holds_text(color: Color, text: Seq<char>)
    ensures
        decorated(color, text).len() == text.len() + color.code().len() + 7,
        decorated(color, text).subrange(
            sgr(color.code()).len() as int,
            (sgr(color.code()).len() + text.len()) as int,
        ) == text,
{
    let open = sgr(color.code());
    assert(decorated(color, text).subrange(
        open.len() as int,
        (open.len() + text.len()) as int,
    ) =~= text);
}

/// Decorating twice nests the sequences: the result carries the opening
/// sequence twice and the reset twice, and is never the single decoration.
pub proof fn lemma_decorated_twice(color: Color, text: Seq<char>)
    ensures
        decorated(color, decorated(color, text)) == sgr(color.code()) + sgr(color.code()) + text
            + sgr(Color::Reset.code()) + sgr(Color::Reset.code()),
        decorated(color, decorated(color, text)) != decorated(color, text),
{
    let open = sgr(color.code());
    let close = sgr(Color::Reset.code());
    assert(decorated(color, decorated(color, text)) =~= open + open + text + close + close);
    lemma_decorated_holds_text(color, text);
    lemma_decorated_holds_text(color, decorated(color, text));
}

/// The decoration of a text depends on that text alone: in one colour, two
/// decorations are equal only if their texts are.
pub proof fn lemma_decorated_injective(color: Color, a: Seq<char>, b: Seq<char>)
    requires
        decorated(color, a) == decorated(color, b),
    ensures
        a == b,
{
    lemma_decorated_holds_text(color, a);
    lemma_decorated_holds_text(color, b);
}

} // verus!
