//! Character-sequence helpers shared by the report and configuration code.
use vstd::prelude::*;

verus! {

/// Compares two string slices for equality (`<str as PartialEq>::eq`).
/// The contract claims that the result is true exactly when both slices
/// hold the same characters.
#[verifier::external_body]
pub(crate) fn str_equal(a: &str, b: &str) -> (r: bool)
    ensures
        r == (a@ == b@),
{
    a == b
}

/// Appends one character to a string (`String::push`).
/// The contract claims that the new contents are the old ones followed by `c`.
#[verifier::external_body]
pub(crate) fn push_char(s: &mut String, c: char)
    ensures
        final(s)@ == old(s)@.push(c),
{
    s.push(c)
}

/// The decimal digit character for a value below ten.
pub open spec fn digit_char(d: nat) -> char {
    if d == 0 { '0' } else if d == 1 { '1' } else if d == 2 { '2' } else if d == 3 { '3' }
    else if d == 4 { '4' } else if d == 5 { '5' } else if d == 6 { '6' } else if d == 7 { '7' }
    else if d == 8 { '8' } else { '9' }
}

/// The decimal representation of a natural number, without leading zeros.
pub open spec fn decimal(n: nat) -> Seq<char>
    decreases n,
{
    if n < 10 {
        seq![digit_char(n)]
    } else {
        decimal(n / 10).push(digit_char(n % 10))
    }
}

fn digit(d: u64) -> (c: char)
    requires
        d < 10,
    ensures
        c == digit_char(d as nat),
{
    if d == 0 { '0' } else if d == 1 { '1' } else if d == 2 { '2' } else if d == 3 { '3' }
    else if d == 4 { '4' } else if d == 5 { '5' } else if d == 6 { '6' } else if d == 7 { '7' }
    else if d == 8 { '8' } else { '9' }
}

/// Appends the decimal representation of `n` to `out`.
pub fn push_decimal(out: &mut String, n: u64)
    ensures
        final(out)@ == old(out)@ + decimal(n as nat),
    decreases n,
{
    if n >= 10 {
        push_decimal(out, n / 10);
    }
    push_char(out, digit(n % 10));
    proof {
        assert(old(out)@ + decimal(n as nat) =~= out@) by {
            if n >= 10 {
                assert(decimal(n as nat) == decimal((n / 10) as nat).push(digit_char((n % 10) as nat)));
            }
        }
    }
}

/// The characters of a string slice, in order.
pub fn chars_of(s: &str) -> (v: Vec<char>)
    ensures
        v@ == s@,
{
    let mut v: Vec<char> = Vec::new();
    for c in it: s.chars()
        invariant
            v@ == it.seq().take(it.index() as int),
            it.seq() == s@,
    {
        v.push(c);
    }
    v
}

/// What `str::to_lowercase` returns for the given characters: their Unicode
/// lowercase mapping (character by character, except that a capital sigma
/// at the end of a word becomes a final sigma).
pub uninterp spec fn lowercase(s: Seq<char>) -> Seq<char>;

/// Lowercases a string slice (`str::to_lowercase`).
/// The contract names the result: it is `lowercase` of the input characters,
/// a function of the input alone.
#[verifier::external_body]
pub(crate) fn to_lowercase(s: &str) -> (r: String)
    ensures
        r@ == lowercase(s@),
{
    s.to_lowercase()
}

/// Strict lexicographic order on character sequences, comparing code points.
/// For strings this is the order of `str`'s `Ord`, since UTF-8 keeps the
/// order of code points.
pub open spec fn lex_lt(a: Seq<char>, b: Seq<char>) -> bool
    decreases a.len(),
{
    if a.len() == 0 {
        b.len() > 0
    } else if b.len() == 0 {
        false
    } else if a[0] != b[0] {
        (a[0] as int) < (b[0] as int)
    } else {
        lex_lt(a.drop_first(), b.drop_first())
    }
}

/// `lex_lt` is irreflexive.
pub proof fn lemma_lex_lt_irreflexive(a: Seq<char>)
    ensures
        !lex_lt(a, a),
    decreases a.len(),
{
    if a.len() > 0 {
        lemma_lex_lt_irreflexive(a.drop_first());
    }
}

/// `lex_lt` is a total order on distinct sequences.
pub proof fn lemma_lex_lt_total(a: Seq<char>, b: Seq<char>)
    ensures
        a == b || lex_lt(a, b) || lex_lt(b, a),
    decreases a.len(),
{
    if a.len() > 0 && b.len() > 0 && a[0] == b[0] {
        lemma_lex_lt_total(a.drop_first(), b.drop_first());
        if a.drop_first() == b.drop_first() {
            assert(a =~= seq![a[0]] + a.drop_first());
            assert(b =~= seq![b[0]] + b.drop_first());
        }
    } else if a.len() == 0 && b.len() == 0 {
        assert(a =~= b);
    } else if a.len() > 0 && b.len() > 0 {
    }
}

/// `lex_lt` is transitive.
pub proof fn lemma_lex_lt_transitive(a: Seq<char>, b: Seq<char>, c: Seq<char>)
    requires
        lex_lt(a, b),
        lex_lt(b, c),
    ensures
        lex_lt(a, c),
    decreases a.len(),
{
    if a.len() > 0 && b.len() > 0 && c.len() > 0 && a[0] == b[0] && b[0] == c[0] {
        lemma_lex_lt_transitive(a.drop_first(), b.drop_first(), c.drop_first());
    }
}

/// `lex_lt` is asymmetric.
pub proof fn lemma_lex_lt_asymmetric(a: Seq<char>, b: Seq<char>)
    requires
        lex_lt(a, b),
    ensures
        !lex_lt(b, a),
{
    if lex_lt(b, a) {
        lemma_lex_lt_transitive(a, b, a);
        lemma_lex_lt_irreflexive(a);
    }
}

/// Decides `lex_lt` on two character vectors from position `i` on.
fn lex_less_from(a: &Vec<char>, b: &Vec<char>, i: usize) -> (r: bool)
    requires
        i <= a@.len(),
        i <= b@.len(),
    ensures
        r == lex_lt(a@.skip(i as int), b@.skip(i as int)),
    decreases a@.len() - i,
{
    if i == a.len() {
        proof {
            assert(a@.skip(i as int).len() == 0);
        }
        i < b.len()
    } else if i == b.len() {
        false
    } else if a[i] != b[i] {
        a[i] < b[i]
    } else {
        let r = lex_less_from(a, b, i + 1);
        proof {
            assert(a@.skip(i as int).drop_first() =~= a@.skip(i + 1));
            assert(b@.skip(i as int).drop_first() =~= b@.skip(i + 1));
        }
        r
    }
}

/// Decides whether `a` comes strictly before `b` in lexicographic order.
pub fn lex_less(a: &str, b: &str) -> (r: bool)
    ensures
        r == lex_lt(a@, b@),
{
    let va = chars_of(a);
    let vb = chars_of(b);
    let r = lex_less_from(&va, &vb, 0);
    proof {
        assert(va@.skip(0) =~= va@);
        assert(vb@.skip(0) =~= vb@);
    }
    r
}

/// The string made of the characters of `v` from position `from` on.
pub fn string_from(v: &Vec<char>, from: usize) -> (r: String)
    requires
        from <= v@.len(),
    ensures
        r@ == v@.skip(from as int),
{
    let mut out = String::new();
    let mut i = from;
    while i < v.len()
        invariant
            from <= i <= v@.len(),
            out@ == v@.subrange(from as int, i as int),
        decreases v@.len() - i,
    {
        push_char(&mut out, v[i]);
        proof {
            assert(v@.subrange(from as int, i + 1) =~= v@.subrange(from as int, i as int).push(v@[i as int]));
        }
        i = i + 1;
    }
    proof {
        assert(v@.subrange(from as int, i as int) =~= v@.skip(from as int));
    }
    out
}

/// Appends a string slice to a string.
pub fn push_str(out: &mut String, s: &str)
    ensures
        final(out)@ == old(out)@ + s@,
{
    out.append(s);
}

/// The parts joined with the separator between consecutive parts.
pub open spec fn join(parts: Seq<Seq<char>>, sep: Seq<char>) -> Seq<char>
    decreases parts.len(),
{
    if parts.len() == 0 {
        Seq::empty()
    } else if parts.len() == 1 {
        parts[0]
    } else {
        join(parts.drop_last(), sep) + sep + parts.last()
    }
}

/// Joins strings with a separator.
pub fn join_strings(parts: &Vec<String>, sep: &str) -> (r: String)
    ensures
        r@ == join(parts@.map_values(|s: String| s@), sep@),
{
    let ghost views = parts@.map_values(|s: String| s@);
    let mut out = String::new();
    let mut i: usize = 0;
    while i < parts.len()
        invariant
            i <= parts@.len(),
            views == parts@.map_values(|s: String| s@),
            out@ == join(views.take(i as int), sep@),
        decreases parts@.len() - i,
    {
        if i > 0 {
            push_str(&mut out, sep);
        }
        push_str(&mut out, parts[i].as_str());
        proof {
            assert(views.take(i + 1).drop_last() =~= views.take(i as int));
            assert(views.take(i + 1).last() == parts@[i as int]@);
            if i == 0 {
                assert(out@ =~= join(views.take(1), sep@));
            }
        }
        i = i + 1;
    }
    proof {
        assert(views.take(i as int) =~= views);
    }
    out
}

/// Two pieces of text, one after the other.
pub fn cat2(a: &str, b: &str) -> (r: String)
    ensures
        r@ == a@ + b@,
{
    let mut r = a.to_owned();
    push_str(&mut r, b);
    r
}

/// Three pieces of text, one after the other.
pub fn cat3(a: &str, b: &str, c: &str) -> (r: String)
    ensures
        r@ == a@ + b@ + c@,
{
    let mut r = a.to_owned();
    push_str(&mut r, b);
    push_str(&mut r, c);
    r
}

/// `true` or `false`.
pub open spec fn bool_text(b: bool) -> Seq<char> {
    if b { "true"@ } else { "false"@ }
}

/// The text of a flag.
pub fn bool_str(b: bool) -> (r: &'static str)
    ensures
        r@ == bool_text(b),
{
    if b { "true" } else { "false" }
}

/// The decimal text of a number.
pub fn decimal_string(n: u64) -> (r: String)
    ensures
        r@ == decimal(n as nat),
{
    let mut r = String::new();
    push_decimal(&mut r, n);
    proof {
        assert(r@ =~= decimal(n as nat));
    }
    r
}

/// How `{:?}` writes one character inside a quoted string: quotes,
/// backslashes, and the tab, carriage-return, newline and NUL characters are
/// escaped.
pub open spec fn debug_char(c: char) -> Seq<char> {
    if c == '"' {
        seq!['\\', '"']
    } else if c == '\\' {
        seq!['\\', '\\']
    } else if c == '\n' {
        seq!['\\', 'n']
    } else if c == '\r' {
        seq!['\\', 'r']
    } else if c == '\t' {
        seq!['\\', 't']
    } else if c == '\0' {
        seq!['\\', '0']
    } else {
        seq![c]
    }
}

/// The escaped characters of a string as `{:?}` writes them between quotes.
pub open spec fn debug_escape(s: Seq<char>) -> Seq<char>
    decreases s.len(),
{
    if s.len() == 0 {
        Seq::empty()
    } else {
        debug_escape(s.drop_last()) + debug_char(s.last())
    }
}

/// A string in quotes, escaped as `{:?}` writes it.
pub fn debug_quoted(s: &str) -> (r: String)
    ensures
        r@ == seq!['"'] + debug_escape(s@) + seq!['"'],
{
    let v = chars_of(s);
    let mut out = String::new();
    push_char(&mut out, '"');
    let mut i: usize = 0;
    while i < v.len()
        invariant
            i <= v@.len(),
            v@ == s@,
            out@ == seq!['"'] + debug_escape(s@.take(i as int)),
        decreases v@.len() - i,
    {
        let c = v[i];
        if c == '"' {
            push_char(&mut out, '\\');
            push_char(&mut out, '"');
        } else if c == '\\' {
            push_char(&mut out, '\\');
            push_char(&mut out, '\\');
        } else if c == '\n' {
            push_char(&mut out, '\\');
            push_char(&mut out, 'n');
        } else if c == '\r' {
            push_char(&mut out, '\\');
            push_char(&mut out, 'r');
        } else if c == '\t' {
            push_char(&mut out, '\\');
            push_char(&mut out, 't');
        } else if c == '\0' {
            push_char(&mut out, '\\');
            push_char(&mut out, '0');
        } else {
            push_char(&mut out, c);
        }
        proof {
            assert(s@.take(i + 1).drop_last() =~= s@.take(i as int));
            assert(out@ =~= seq!['"'] + debug_escape(s@.take(i + 1)));
        }
        i = i + 1;
    }
    push_char(&mut out, '"');
    proof {
        assert(s@.take(i as int) =~= s@);
    }
    out
}


/// The texts held by a vector of strings.
pub open spec fn texts(v: Seq<String>) -> Seq<Seq<char>> {
    v.map_values(|s: String| s@)
}

/// Whether a vector of strings holds the given text.
pub fn contains_text(v: &Vec<String>, s: &str) -> (r: bool)
    ensures
        r == texts(v@).contains(s@),
{
    let mut i: usize = 0;
    while i < v.len()
        invariant
            i <= v@.len(),
            forall|j: int| 0 <= j < i ==> v@[j]@ != s@,
        decreases v@.len() - i,
    {
        if str_equal(v[i].as_str(), s) {
            proof {
                assert(texts(v@)[i as int] == s@);
            }
            return true;
        }
        i = i + 1;
    }
    proof {
        let t = texts(v@);
        assert forall|j: int| 0 <= j < t.len() implies #[trigger] t[j] != s@ by {
            assert(t[j] == v@[j]@);
        }
    }
    false
}

/// The first `n` strings of a vector, copied.
pub fn prefix_of(v: &Vec<String>, n: usize) -> (r: Vec<String>)
    requires
        n <= v@.len(),
    ensures
        texts(r@) == texts(v@).take(n as int),
{
    let mut r: Vec<String> = Vec::new();
    let mut i: usize = 0;
    while i < n
        invariant
            i <= n <= v@.len(),
            texts(r@) == texts(v@).take(i as int),
        decreases n - i,
    {
        let ghost before = r@;
        let item = v[i].clone();
        r.push(item);
        proof {
            assert(texts(r@) =~= texts(before).push(v@[i as int]@));
            assert(texts(v@).take(i + 1) =~= texts(v@).take(i as int).push(v@[i as int]@));
        }
        i = i + 1;
    }
    r
}

/// Whether two vectors of strings agree on their first `n` texts.
pub fn same_prefix(a: &Vec<String>, b: &Vec<String>, n: usize) -> (r: bool)
    requires
        n <= a@.len(),
        n <= b@.len(),
    ensures
        r == (texts(a@).take(n as int) == texts(b@).take(n as int)),
{
    let mut i: usize = 0;
    while i < n
        invariant
            i <= n <= a@.len(),
            n <= b@.len(),
            forall|j: int| 0 <= j < i ==> a@[j]@ == b@[j]@,
        decreases n - i,
    {
        if !str_equal(a[i].as_str(), b[i].as_str()) {
            proof {
                assert(texts(a@).take(n as int)[i as int] != texts(b@).take(n as int)[i as int]);
            }
            return false;
        }
        i = i + 1;
    }
    proof {
        assert(texts(a@).take(n as int) =~= texts(b@).take(n as int));
    }
    true
}

} // verus!
