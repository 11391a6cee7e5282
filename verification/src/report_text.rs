//! Text helpers shared by the summary reports: banners, padded columns,
//! lists gathered from entries, and status colours.
use colored::Colorize;
use vstd::prelude::*;

use crate::text::{decimal, push_decimal, push_str};
use crate::utils::spaces;

verus! {

/// A section banner: the title between two rules of `=`.
pub open spec fn banner(title: Seq<char>) -> Seq<char> {
    "================\n"@ + title + "\n================\n"@
}

/// Appends a section banner.
pub fn push_banner(out: &mut String, title: &str)
    ensures
        final(out)@ == old(out)@ + banner(title@),
{
    push_str(out, "================\n");
    push_str(out, title);
    push_str(out, "\n================\n");
    proof {
        assert(final(out)@ =~= old(out)@ + banner(title@));
    }
}

/// A text padded with spaces on the right to `width` characters, as
/// `{:<width}` pads it.
pub open spec fn pad_right(s: Seq<char>, width: nat) -> Seq<char> {
    if s.len() < width { s + spaces((width - s.len()) as nat) } else { s }
}

/// A text padded with spaces on the left to `width` characters, as
/// `{:>width}` pads it.
pub open spec fn pad_left(s: Seq<char>, width: nat) -> Seq<char> {
    if s.len() < width { spaces((width - s.len()) as nat) + s } else { s }
}

fn push_spaces(out: &mut String, n: usize)
    ensures
        final(out)@ == old(out)@ + spaces(n as nat),
{
    let ghost base = out@;
    let mut k: usize = 0;
    while k < n
        invariant
            k <= n,
            out@ == base + spaces(k as nat),
        decreases n - k,
    {
        crate::text::push_char(out, ' ');
        proof {
            assert(base + spaces((k + 1) as nat) =~= (base + spaces(k as nat)).push(' '));
        }
        k = k + 1;
    }
}

/// Appends a text padded on the right.
pub fn push_padded_right(out: &mut String, s: &str, width: usize)
    ensures
        final(out)@ == old(out)@ + pad_right(s@, width as nat),
{
    let v = crate::text::chars_of(s);
    push_str(out, s);
    if v.len() < width {
        push_spaces(out, width - v.len());
    }
    proof {
        assert(final(out)@ =~= old(out)@ + pad_right(s@, width as nat));
    }
}

/// Appends a number padded on the left.
pub fn push_number_padded_left(out: &mut String, n: usize, width: usize)
    ensures
        final(out)@ == old(out)@ + pad_left(decimal(n as nat), width as nat),
{
    let mut digits = String::new();
    push_decimal(&mut digits, n as u64);
    let v = crate::text::chars_of(digits.as_str());
    if v.len() < width {
        push_spaces(out, width - v.len());
    }
    push_str(out, digits.as_str());
    proof {
        assert(digits@ =~= decimal(n as nat));
        assert(final(out)@ =~= old(out)@ + pad_left(decimal(n as nat), width as nat));
    }
}

/// The lines of the items that `keep` selects, in order, each as `line`
/// writes it.
pub open spec fn gather<A>(items: Seq<A>, keep: spec_fn(A) -> bool, line: spec_fn(A) -> Seq<char>) -> Seq<char>
    decreases items.len(),
{
    if items.len() == 0 {
        Seq::empty()
    } else {
        gather(items.drop_last(), keep, line) + if keep(items.last()) { line(items.last()) } else { Seq::empty() }
    }
}

/// The number of items that `keep` selects.
pub open spec fn tally<A>(items: Seq<A>, keep: spec_fn(A) -> bool) -> nat
    decreases items.len(),
{
    if items.len() == 0 {
        0
    } else {
        tally(items.drop_last(), keep) + if keep(items.last()) { 1nat } else { 0nat }
    }
}

/// No more items are selected than there are.
pub proof fn lemma_tally_le<A>(items: Seq<A>, keep: spec_fn(A) -> bool)
    ensures
        tally(items, keep) <= items.len(),
    decreases items.len(),
{
    if items.len() > 0 {
        lemma_tally_le(items.drop_last(), keep);
    }
}

/// A colour of the console summary.
#[derive(Debug, Clone, Copy, PartialEq, Eq, Structural)]
pub enum Paint {
    Green,
    Yellow,
    Red,
    Dimmed,
    Magenta,
    Cyan,
    Blue,
    RedBold,
}

/// The SGR parameters of a colour.
pub open spec fn sgr(p: Paint) -> Seq<char> {
    match p {
        Paint::Green => "32"@,
        Paint::Yellow => "33"@,
        Paint::Red => "31"@,
        Paint::Dimmed => "2"@,
        Paint::Magenta => "35"@,
        Paint::Cyan => "36"@,
        Paint::Blue => "34"@,
        Paint::RedBold => "1;31"@,
    }
}

/// A text wrapped in the escape sequences of a colour.
pub open spec fn painted(p: Paint, t: Seq<char>) -> Seq<char> {
    seq!['\x1B', '['] + sgr(p) + seq!['m'] + t + seq!['\x1B', '[', '0', 'm']
}

/// Colours a text for the terminal with the `colored` crate (`green`,
/// `yellow`, `red`, `dimmed`, `magenta`, `cyan`, `blue`, `red().bold()`,
/// then `to_string`). Whether `colored` colours at all depends on the
/// environment and on its global override, so the contract claims only
/// that the result is the text itself or the text wrapped in the colour's
/// escape sequence and a reset (the text holds no escape sequence that
/// `colored` would rewrite).
#[verifier::external_body]
pub(crate) fn paint(text: &str, p: Paint) -> (r: String)
    requires
        !text@.contains('\x1B'),
    ensures
        r@ == text@ || r@ == painted(p, text@),
{
    match p {
        Paint::Green => text.green().to_string(),
        Paint::Yellow => text.yellow().to_string(),
        Paint::Red => text.red().to_string(),
        Paint::Dimmed => text.dimmed().to_string(),
        Paint::Magenta => text.magenta().to_string(),
        Paint::Cyan => text.cyan().to_string(),
        Paint::Blue => text.blue().to_string(),
        Paint::RedBold => text.red().bold().to_string(),
    }
}

} // verus!
