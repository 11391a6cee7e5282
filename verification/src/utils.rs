//! Path, width and size helpers for the reports.
use vstd::prelude::*;

use crate::text::{chars_of, decimal, lowercase, push_char, push_decimal, push_str, str_equal, string_from, to_lowercase};
use unicode_width::UnicodeWidthChar;
use encoding_rs::SHIFT_JIS;

verus! {

/// A path segment that `Path::components` keeps: non-empty and not `.`.
pub open spec fn kept_segment(seg: Seq<char>) -> bool {
    seg.len() > 0 && seg != seq!['.']
}

/// Left-to-right scan of a path: the components completed so far and the
/// segment being read.
pub open spec fn scan_path(p: Seq<char>) -> (Seq<Seq<char>>, Seq<char>)
    decreases p.len(),
{
    if p.len() == 0 {
        (Seq::empty(), Seq::empty())
    } else {
        let (done, cur) = scan_path(p.drop_last());
        if p.last() == '/' {
            (if kept_segment(cur) { done.push(cur) } else { done }, Seq::empty())
        } else {
            (done, cur.push(p.last()))
        }
    }
}

/// The components of a `/`-separated relative path: its non-empty segments
/// other than `.`.
pub open spec fn path_components(p: Seq<char>) -> Seq<Seq<char>> {
    let (done, cur) = scan_path(p);
    if kept_segment(cur) { done.push(cur) } else { done }
}

/// Splits a relative path into its components.
pub fn components(path: &str) -> (r: Vec<String>)
    ensures
        r@.map_values(|s: String| s@) == path_components(path@),
{
    let v = chars_of(path);
    let mut done: Vec<String> = Vec::new();
    let mut cur = String::new();
    let mut i: usize = 0;
    while i < v.len()
        invariant
            i <= v@.len(),
            v@ == path@,
            (done@.map_values(|s: String| s@), cur@) == scan_path(path@.take(i as int)),
        decreases v@.len() - i,
    {
        let c = v[i];
        proof {
            assert(path@.take(i + 1).drop_last() =~= path@.take(i as int));
            assert(path@.take(i + 1).last() == c);
        }
        if c == '/' {
            let keep = !str_equal(cur.as_str(), "") && !str_equal(cur.as_str(), ".");
            proof {
                reveal_strlit(".");
                reveal_strlit("");
                assert("."@ =~= seq!['.']);
                assert(""@ =~= Seq::<char>::empty());
            }
            if keep {
                let ghost before = done@;
                done.push(cur);
                proof {
                    assert(done@.map_values(|s: String| s@) =~= before.map_values(|s: String| s@).push(
                        done@.last()@,
                    ));
                }
            }
            cur = String::new();
        } else {
            push_char(&mut cur, c);
        }
        i = i + 1;
    }
    proof {
        assert(path@.take(i as int) =~= path@);
    }
    let keep = !str_equal(cur.as_str(), "") && !str_equal(cur.as_str(), ".");
    proof {
        reveal_strlit(".");
        reveal_strlit("");
        assert("."@ =~= seq!['.']);
        assert(""@ =~= Seq::<char>::empty());
    }
    if keep {
        let ghost before = done@;
        done.push(cur);
        proof {
            assert(done@.map_values(|s: String| s@) =~= before.map_values(|s: String| s@).push(done@.last()@));
        }
    }
    done
}

/// The file name of a path: its last component, unless that is `..`.
pub open spec fn file_name_of(p: Seq<char>) -> Option<Seq<char>> {
    let c = path_components(p);
    if c.len() == 0 || c.last() == seq!['.', '.'] { None } else { Some(c.last()) }
}

/// The position of the last `.` of a name that is not its first character,
/// or -1 when there is none.
pub open spec fn last_inner_dot(name: Seq<char>) -> int
    decreases name.len(),
{
    if name.len() == 0 {
        -1
    } else if name.last() == '.' && name.len() > 1 {
        name.len() - 1
    } else {
        last_inner_dot(name.drop_last())
    }
}

/// The extension of a file name as `Path::extension` gives it: the text
/// after the last `.`, unless the name has no `.` or its only `.` leads.
pub open spec fn extension_of(name: Seq<char>) -> Option<Seq<char>> {
    let d = last_inner_dot(name);
    if d > 0 { Some(name.skip(d + 1)) } else { None }
}

/// The extensions of script and executable files.
pub open spec fn script_extension(e: Seq<char>) -> bool {
    e == "sh"@ || e == "bash"@ || e == "zsh"@ || e == "ksh"@ || e == "fish"@ || e == "pl"@ || e == "pm"@
        || e == "py"@ || e == "pyw"@ || e == "rb"@ || e == "js"@ || e == "mjs"@ || e == "ts"@ || e == "php"@
        || e == "lua"@ || e == "ps1"@ || e == "psm1"@ || e == "bat"@ || e == "cmd"@ || e == "exe"@
        || e == "com"@
}

/// A path names a script: its file name has an extension that, lowercased,
/// is a script extension.
pub open spec fn script_path(p: Seq<char>) -> bool {
    match file_name_of(p) {
        Some(name) => match extension_of(name) {
            Some(e) => script_extension(lowercase(e)),
            None => false,
        },
        None => false,
    }
}

/// The file name of a path, if it has one.
pub fn file_name(path: &str) -> (r: Option<String>)
    ensures
        match r {
            Some(n) => file_name_of(path@) == Some(n@),
            None => file_name_of(path@) is None,
        },
{
    let c = components(path);
    proof {
        reveal_strlit("..");
        assert(".."@ =~= seq!['.', '.']);
    }
    if c.len() == 0 {
        return None;
    }
    let last = c[c.len() - 1].clone();
    proof {
        assert(last@ == path_components(path@).last());
    }
    if str_equal(last.as_str(), "..") {
        None
    } else {
        Some(last)
    }
}

/// The extension of a file name, if it has one.
pub fn extension(name: &str) -> (r: Option<String>)
    ensures
        match r {
            Some(e) => extension_of(name@) == Some(e@),
            None => extension_of(name@) is None,
        },
{
    let v = chars_of(name);
    let mut dot: usize = 0;
    let mut i: usize = 0;
    while i < v.len()
        invariant
            i <= v@.len(),
            v@ == name@,
            dot as int == (if last_inner_dot(name@.take(i as int)) > 0 { last_inner_dot(name@.take(i as int)) } else { 0 }),
            dot < i || dot == 0,
            last_inner_dot(name@.take(i as int)) < i,
        decreases v@.len() - i,
    {
        proof {
            assert(name@.take(i + 1).drop_last() =~= name@.take(i as int));
        }
        if v[i] == '.' && i > 0 {
            dot = i;
        }
        i = i + 1;
    }
    proof {
        assert(name@.take(i as int) =~= name@);
    }
    if dot > 0 {
        Some(string_from(&v, dot + 1))
    } else {
        None
    }
}

/// Whether a path names a script or executable, by its extension.
pub fn is_script_file(path: &str) -> (r: bool)
    ensures
        r == script_path(path@),
{
    let name = match file_name(path) {
        Some(n) => n,
        None => return false,
    };
    let ext = match extension(name.as_str()) {
        Some(e) => e,
        None => return false,
    };
    let lowered = to_lowercase(ext.as_str());
    let e = lowered.as_str();
    str_equal(e, "sh") || str_equal(e, "bash") || str_equal(e, "zsh") || str_equal(e, "ksh")
        || str_equal(e, "fish") || str_equal(e, "pl") || str_equal(e, "pm") || str_equal(e, "py")
        || str_equal(e, "pyw") || str_equal(e, "rb") || str_equal(e, "js") || str_equal(e, "mjs")
        || str_equal(e, "ts") || str_equal(e, "php") || str_equal(e, "lua") || str_equal(e, "ps1")
        || str_equal(e, "psm1") || str_equal(e, "bat") || str_equal(e, "cmd") || str_equal(e, "exe")
        || str_equal(e, "com")
}


/// What `UnicodeWidthChar::width` gives for a character: its UAX #11 width,
/// or nothing for a control character.
pub uninterp spec fn unicode_width_of(c: char) -> Option<usize>;

/// The terminal width of one character (`UnicodeWidthChar::width` of the
/// `unicode-width` crate). The contract names the result, and states what
/// the crate's source shows plainly: control characters below U+0020 and
/// from U+007F to U+009F have no width, the other ASCII characters have
/// width 1, and no character is wider than 3.
#[verifier::external_body]
fn unicode_char_width(c: char) -> (r: Option<usize>)
    ensures
        r == unicode_width_of(c),
        c < '\u{20}' ==> r is None,
        '\u{20}' <= c < '\u{7F}' ==> r == Some(1usize),
        '\u{7F}' <= c < '\u{A0}' ==> r is None,
        r matches Some(w) ==> w <= 3,
{
    UnicodeWidthChar::width(c)
}

/// The width of one character on a terminal: box-drawing characters
/// (U+2500 to U+257F) take two columns, as CJK terminals draw them; other
/// characters take their Unicode width, control characters none.
pub open spec fn char_display_width(c: char) -> nat {
    if '\u{2500}' <= c <= '\u{257F}' {
        2
    } else {
        match unicode_width_of(c) {
            Some(w) => w as nat,
            None => 0,
        }
    }
}

/// The width of a text on a terminal: the sum of its characters' widths.
pub open spec fn text_width(s: Seq<char>) -> nat
    decreases s.len(),
{
    if s.len() == 0 { 0 } else { text_width(s.drop_last()) + char_display_width(s.last()) }
}

/// The width of a text, capped at the largest `usize`.
pub open spec fn capped_width(s: Seq<char>) -> usize {
    if text_width(s) > usize::MAX { usize::MAX } else { text_width(s) as usize }
}

/// Whether every character of a text is printable ASCII (U+0020 to U+007E).
pub open spec fn printable_ascii(s: Seq<char>) -> bool {
    forall|i: int| 0 <= i < s.len() ==> '\u{20}' <= #[trigger] s[i] && s[i] < '\u{7F}'
}

/// The display width of a string, counting CJK characters and box-drawing
/// characters as two columns; a printable ASCII text is as wide as it is
/// long.
pub fn display_width(s: &str) -> (r: usize)
    ensures
        r == capped_width(s@),
        printable_ascii(s@) ==> r == s@.len(),
{
    let v = chars_of(s);
    let mut width: usize = 0;
    let mut i: usize = 0;
    while i < v.len()
        invariant
            i <= v@.len(),
            v@ == s@,
            width == capped_width(s@.take(i as int)),
            printable_ascii(s@.take(i as int)) ==> width == i,
        decreases v@.len() - i,
    {
        let c = v[i];
        let w: usize = if '\u{2500}' <= c && c <= '\u{257F}' {
            2
        } else {
            match unicode_char_width(c) {
                Some(w) => w,
                None => 0,
            }
        };
        proof {
            assert(s@.take(i + 1).drop_last() =~= s@.take(i as int));
            assert(s@.take(i + 1).last() == c);
            assert(w == char_display_width(c));
            if printable_ascii(s@.take(i + 1)) {
                assert forall|j: int| 0 <= j < i implies '\u{20}' <= #[trigger] s@.take(i as int)[j] && s@.take(i as int)[j] < '\u{7F}' by {
                    assert(s@.take(i as int)[j] == s@.take(i + 1)[j]);
                }
                assert(s@.take(i + 1)[i as int] == c);
                assert(w == 1);
            }
        }
        width = width.saturating_add(w);
        i = i + 1;
    }
    proof {
        assert(s@.take(i as int) =~= s@);
    }
    width
}

/// `n` spaces.
pub open spec fn spaces(n: nat) -> Seq<char> {
    Seq::new(n, |i: int| ' ')
}

/// Pads a string with spaces on the right up to a display width; a string
/// that is already as wide is returned as it is.
pub fn pad_to_width(s: &str, width: usize) -> (r: String)
    ensures
        r@ == (if capped_width(s@) >= width { s@ } else { s@ + spaces((width - capped_width(s@)) as nat) }),
        printable_ascii(s@) ==> r@ == (if s@.len() >= width { s@ } else { s@ + spaces((width - s@.len()) as nat) }),
{
    let current = display_width(s);
    let mut out = s.to_owned();
    if current >= width {
        return out;
    }
    let padding = width - current;
    let mut k: usize = 0;
    while k < padding
        invariant
            k <= padding,
            out@ == s@ + spaces(k as nat),
        decreases padding - k,
    {
        push_char(&mut out, ' ');
        proof {
            assert(s@ + spaces((k + 1) as nat) =~= (s@ + spaces(k as nat)).push(' '));
        }
        k = k + 1;
    }
    out
}

/// Whether the output is piped or redirected, given whether standard output
/// is a terminal.
pub fn is_piped(terminal: bool) -> (r: bool)
    ensures
        r == !terminal,
{
    !terminal
}


/// The halving that brings an integer below 2^53, the precision of `f64`:
/// starting from `(b, 1, 0)`, `q` is halved and `p` doubled until `q` fits,
/// while `r` collects the bits shifted out, so that `q * p + r == b`.
pub open spec fn f64_halving(q: nat, p: nat, r: nat) -> (nat, nat, nat)
    decreases q,
{
    if q < 0x20_0000_0000_0000 {
        (q, p, r)
    } else {
        f64_halving(q / 2, p * 2, if q % 2 == 1 { r + p } else { r })
    }
}

/// The value of `b as f64`: `b` itself when it has at most 53 significant
/// bits, else `b` rounded to the nearest multiple of the dropped unit, ties
/// to an even multiple.
pub open spec fn f64_value(b: nat) -> nat {
    let (q, p, r) = f64_halving(b, 1, 0);
    if r * 2 > p || (r * 2 == p && q % 2 == 1) { (q + 1) * p } else { q * p }
}

/// `a / d` rounded to the nearest integer, ties to even, as `{:.1}` rounds
/// the digit it drops.
pub open spec fn round_half_even(a: nat, d: nat) -> nat {
    if (a % d) * 2 > d || ((a % d) * 2 == d && (a / d) % 2 == 1) { a / d + 1 } else { a / d }
}

/// The human-readable size: bytes below 1 KiB as they are, else the size in
/// the largest of GB, MB or KB (powers of 1024) that fits, with one decimal,
/// as `format!("{:.1}", bytes as f64 / unit as f64)` writes it.
pub open spec fn size_text(bytes: u64) -> Seq<char> {
    if bytes < 1024 {
        decimal(bytes as nat) + " B"@
    } else {
        let d: nat = if bytes >= 0x4000_0000 { 0x4000_0000 } else if bytes >= 0x10_0000 { 0x10_0000 } else { 1024 };
        let unit = if bytes >= 0x4000_0000 { " GB"@ } else if bytes >= 0x10_0000 { " MB"@ } else { " KB"@ };
        let n = round_half_even(f64_value(bytes as nat) * 10, d);
        decimal(n / 10) + "."@ + decimal(n % 10) + unit
    }
}

fn to_f64_value(b: u64) -> (r: u128)
    ensures
        r == f64_value(b as nat),
        r <= 0x1_0000_0000_0000_1000,
{
    let mut q: u128 = b as u128;
    let mut p: u128 = 1;
    let mut r: u128 = 0;
    while q >= 0x20_0000_0000_0000
        invariant
            f64_halving(q as nat, p as nat, r as nat) == f64_halving(b as nat, 1, 0),
            q * p + r == b,
            r < p,
            1 <= p <= 0x1000,
        decreases q,
    {
        assert(p < 0x800) by (nonlinear_arith)
            requires
                q >= 0x20_0000_0000_0000,
                q * p + r == b,
                b <= 0xffff_ffff_ffff_ffff,
                1 <= p,
        ;
        let odd = q % 2 == 1;
        let nr = if odd { r + p } else { r };
        assert(q / 2 * (p * 2) + nr == q * p + r) by (nonlinear_arith)
            requires
                nr == (if q % 2 == 1 { r + p } else { r as int }),
        ;
        r = nr;
        q = q / 2;
        p = p * 2;
    }
    let up = r * 2 > p || (r * 2 == p && q % 2 == 1);
    if up {
        assert((q + 1) * p <= 0x1_0000_0000_0000_1000) by (nonlinear_arith)
            requires
                q * p + r == b,
                b <= 0xffff_ffff_ffff_ffff,
                p <= 0x1000,
                r < p,
        ;
        (q + 1) * p
    } else {
        assert(q * p <= b) by (nonlinear_arith)
            requires
                q * p + r == b,
        ;
        q * p
    }
}

/// Formats a size in bytes for people to read (`0 B`, `1.5 KB`, `2.0 GB`).
pub fn format_size(bytes: u64) -> (r: String)
    ensures
        r@ == size_text(bytes),
{
    if bytes < 1024 {
        let mut out = String::new();
        push_decimal(&mut out, bytes);
        push_str(&mut out, " B");
        return out;
    }
    let d: u128 = if bytes >= 0x4000_0000 { 0x4000_0000 } else if bytes >= 0x10_0000 { 0x10_0000 } else { 1024 };
    let value = to_f64_value(bytes);
    let num: u128 = value * 10;
    let q: u128 = num / d;
    let rem: u128 = num % d;
    let n: u128 = if rem * 2 > d || (rem * 2 == d && q % 2 == 1) { q + 1 } else { q };
    assert(n <= 0x1000_0000_0000_0000) by (nonlinear_arith)
        requires
            num <= 0xA_0000_0000_0000_A000,
            d >= 1024,
            q == num / d,
            n <= q + 1,
    ;
    let n64: u64 = n as u64;
    let mut out = String::new();
    push_decimal(&mut out, n64 / 10);
    push_str(&mut out, ".");
    push_decimal(&mut out, n64 % 10);
    if bytes >= 0x4000_0000 {
        push_str(&mut out, " GB");
    } else if bytes >= 0x10_0000 {
        push_str(&mut out, " MB");
    } else {
        push_str(&mut out, " KB");
    }
    proof {
        assert(n == round_half_even(f64_value(bytes as nat) * 10, d as nat));
    }
    out
}


/// Left-to-right scan of a path split on `/`: the non-empty segments
/// completed so far and the segment being read.
pub open spec fn scan_segments(p: Seq<char>) -> (Seq<Seq<char>>, Seq<char>)
    decreases p.len(),
{
    if p.len() == 0 {
        (Seq::empty(), Seq::empty())
    } else {
        let (done, cur) = scan_segments(p.drop_last());
        if p.last() == '/' {
            (if cur.len() > 0 { done.push(cur) } else { done }, Seq::empty())
        } else {
            (done, cur.push(p.last()))
        }
    }
}

/// The non-empty pieces of a path split on `/`.
pub open spec fn slash_segments(p: Seq<char>) -> Seq<Seq<char>> {
    let (done, cur) = scan_segments(p);
    if cur.len() > 0 { done.push(cur) } else { done }
}

/// Splits a path on `/`, dropping empty pieces.
pub fn split_segments(path: &str) -> (r: Vec<String>)
    ensures
        r@.map_values(|s: String| s@) == slash_segments(path@),
{
    let v = chars_of(path);
    let mut done: Vec<String> = Vec::new();
    let mut cur = String::new();
    let mut i: usize = 0;
    while i < v.len()
        invariant
            i <= v@.len(),
            v@ == path@,
            (done@.map_values(|s: String| s@), cur@) == scan_segments(path@.take(i as int)),
        decreases v@.len() - i,
    {
        let c = v[i];
        proof {
            assert(path@.take(i + 1).drop_last() =~= path@.take(i as int));
            assert(path@.take(i + 1).last() == c);
        }
        if c == '/' {
            let keep = !str_equal(cur.as_str(), "");
            proof {
                reveal_strlit("");
                assert(""@ =~= Seq::<char>::empty());
            }
            if keep {
                let ghost before = done@;
                done.push(cur);
                proof {
                    assert(done@.map_values(|s: String| s@) =~= before.map_values(|s: String| s@).push(done@.last()@));
                }
            }
            cur = String::new();
        } else {
            push_char(&mut cur, c);
        }
        i = i + 1;
    }
    proof {
        assert(path@.take(i as int) =~= path@);
    }
    let keep = !str_equal(cur.as_str(), "");
    proof {
        reveal_strlit("");
        assert(""@ =~= Seq::<char>::empty());
    }
    if keep {
        let ghost before = done@;
        done.push(cur);
        proof {
            assert(done@.map_values(|s: String| s@) =~= before.map_values(|s: String| s@).push(done@.last()@));
        }
    }
    done
}

/// The CP932 ruled-line bytes of the box-drawing characters the tree uses.
pub open spec fn keisen(c: char) -> Option<(u8, u8)> {
    if c == '─' {
        Some((0x84u8, 0x9Fu8))
    } else if c == '│' {
        Some((0x84u8, 0xA0u8))
    } else if c == '┌' {
        Some((0x84u8, 0xA1u8))
    } else if c == '┐' {
        Some((0x84u8, 0xA2u8))
    } else if c == '└' {
        Some((0x84u8, 0xA4u8))
    } else if c == '┘' {
        Some((0x84u8, 0xA3u8))
    } else if c == '├' {
        Some((0x84u8, 0xA5u8))
    } else if c == '┤' {
        Some((0x84u8, 0xA7u8))
    } else if c == '┬' {
        Some((0x84u8, 0xA6u8))
    } else if c == '┴' {
        Some((0x84u8, 0xA8u8))
    } else if c == '┼' {
        Some((0x84u8, 0xA9u8))
    } else {
        None
    }
}

/// The CP932 bytes of a box-drawing character, if it is one the tree uses.
pub fn cp932_box_bytes(c: char) -> (r: Option<(u8, u8)>)
    ensures
        r == keisen(c),
{
    if c == '─' {
        Some((0x84, 0x9F))
    } else if c == '│' {
        Some((0x84, 0xA0))
    } else if c == '┌' {
        Some((0x84, 0xA1))
    } else if c == '┐' {
        Some((0x84, 0xA2))
    } else if c == '└' {
        Some((0x84, 0xA4))
    } else if c == '┘' {
        Some((0x84, 0xA3))
    } else if c == '├' {
        Some((0x84, 0xA5))
    } else if c == '┤' {
        Some((0x84, 0xA7))
    } else if c == '┬' {
        Some((0x84, 0xA6))
    } else if c == '┴' {
        Some((0x84, 0xA8))
    } else if c == '┼' {
        Some((0x84, 0xA9))
    } else {
        None
    }
}

/// What `SHIFT_JIS.encode` of the `encoding_rs` crate gives for a text: its
/// Shift_JIS bytes, with characters it cannot encode written as numeric
/// character references.
pub uninterp spec fn shift_jis_bytes(s: Seq<char>) -> Seq<u8>;

/// Encodes a text in Shift_JIS (`encoding_rs::SHIFT_JIS.encode`). The
/// contract names the result: `shift_jis_bytes` of the text.
#[verifier::external_body]
fn encode_shift_jis(s: &str) -> (r: Vec<u8>)
    ensures
        r@ == shift_jis_bytes(s@),
{
    let (encoded, _, _) = SHIFT_JIS.encode(s);
    encoded.into_owned()
}

/// The bytes of a pending run of ordinary characters: nothing for an empty
/// run.
pub open spec fn flushed(run: Seq<char>) -> Seq<u8> {
    if run.len() > 0 { shift_jis_bytes(run) } else { Seq::empty() }
}

/// Left-to-right conversion to CP932: the bytes so far and the run of
/// ordinary characters not yet encoded; a box-drawing character flushes the
/// run and adds its ruled-line bytes.
pub open spec fn cp932_scan(s: Seq<char>) -> (Seq<u8>, Seq<char>)
    decreases s.len(),
{
    if s.len() == 0 {
        (Seq::empty(), Seq::empty())
    } else {
        let (out, run) = cp932_scan(s.drop_last());
        match keisen(s.last()) {
            Some((a, b)) => (out + flushed(run) + seq![a, b], Seq::empty()),
            None => (out, run.push(s.last())),
        }
    }
}

/// The CP932 bytes of a text for the Windows console.
pub open spec fn cp932_bytes(s: Seq<char>) -> Seq<u8> {
    let (out, run) = cp932_scan(s);
    out + flushed(run)
}

fn append_bytes(out: &mut Vec<u8>, more: &Vec<u8>)
    ensures
        final(out)@ == old(out)@ + more@,
{
    let mut i: usize = 0;
    let ghost base = out@;
    while i < more.len()
        invariant
            i <= more@.len(),
            out@ == base + more@.take(i as int),
        decreases more@.len() - i,
    {
        out.push(more[i]);
        proof {
            assert(more@.take(i + 1) =~= more@.take(i as int).push(more@[i as int]));
        }
        i = i + 1;
    }
    proof {
        assert(more@.take(i as int) =~= more@);
    }
}

fn flush_run(out: &mut Vec<u8>, run: &mut String)
    ensures
        final(out)@ == old(out)@ + flushed(old(run)@),
        final(run)@ == Seq::<char>::empty(),
{
    if !run.as_str().is_empty() {
        let enc = encode_shift_jis(run.as_str());
        append_bytes(out, &enc);
    } else {
        proof {
            assert(out@ =~= out@ + flushed(run@));
        }
    }
    *run = String::new();
}

/// Converts a text to CP932 for the Windows console: box-drawing characters
/// become their ruled-line bytes, everything else is encoded as Shift_JIS.
pub fn to_cp932(s: &str) -> (r: Vec<u8>)
    ensures
        r@ == cp932_bytes(s@),
{
    let v = chars_of(s);
    let mut out: Vec<u8> = Vec::new();
    let mut run = String::new();
    let mut i: usize = 0;
    while i < v.len()
        invariant
            i <= v@.len(),
            v@ == s@,
            (out@, run@) == cp932_scan(s@.take(i as int)),
        decreases v@.len() - i,
    {
        let c = v[i];
        proof {
            assert(s@.take(i + 1).drop_last() =~= s@.take(i as int));
            assert(s@.take(i + 1).last() == c);
        }
        match cp932_box_bytes(c) {
            Some((a, b)) => {
                flush_run(&mut out, &mut run);
                out.push(a);
                out.push(b);
                proof {
                    let (o0, r0) = cp932_scan(s@.take(i as int));
                    assert(out@ =~= o0 + flushed(r0) + seq![a, b]);
                }
            },
            None => {
                push_char(&mut run, c);
            },
        }
        i = i + 1;
    }
    proof {
        assert(s@.take(i as int) =~= s@);
    }
    flush_run(&mut out, &mut run);
    out
}

/// The BLAKE3 hash of a byte sequence in lowercase hexadecimal, as
/// `blake3::Hasher` (fed the bytes, then `finalize().to_hex()`) gives it.
pub uninterp spec fn blake3_hex(data: Seq<u8>) -> Seq<char>;

/// A lowercase hexadecimal text of 64 digits.
pub open spec fn lower_hex_64(s: Seq<char>) -> bool {
    s.len() == 64 && forall|i: int| 0 <= i < 64 ==> ('0' <= #[trigger] s[i] <= '9' || 'a' <= s[i] <= 'f')
}

/// Hashes bytes with `blake3::Hasher` (`new`, `update`, `finalize`, then
/// `to_hex`). The contract names the result (`blake3_hex` of the bytes) and
/// states what `Hash::to_hex` shows plainly: 64 lowercase hexadecimal
/// digits, two per byte of the 32-byte hash.
#[verifier::external_body]
fn blake3_of(data: &[u8]) -> (r: String)
    ensures
        r@ == blake3_hex(data@),
        lower_hex_64(r@),
{
    let mut hasher = blake3::Hasher::new();
    hasher.update(data);
    hasher.finalize().to_hex().to_string()
}

/// The BLAKE3 hash of a file's contents, as read, in lowercase hexadecimal.
pub fn hash_file(contents: &[u8]) -> (r: String)
    ensures
        r@ == blake3_hex(contents@),
        lower_hex_64(r@),
{
    blake3_of(contents)
}

/// The hash of a file from the outcome of reading it: its contents' hash,
/// or nothing when the read failed.
pub fn hash_read(read: &Result<Vec<u8>, String>) -> (r: Option<String>)
    ensures
        match read {
            Ok(bytes) => r matches Some(h) && h@ == blake3_hex(bytes@) && lower_hex_64(h@),
            Err(_) => r is None,
        },
{
    match read {
        Ok(bytes) => Some(hash_file(bytes.as_slice())),
        Err(_) => None,
    }
}
} // verus!
