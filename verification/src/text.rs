//! Text helpers: code points of a string, and the lexicographic order on names.

use vstd::prelude::*;
use vstd::string::{StrSliceExecFns, StringExecFns};

verus! {

/// Strict lexicographic order on sequences of code points: the order in
/// which names are kept in a dependency set.
pub open spec fn text_before(a: Seq<char>, b: Seq<char>) -> bool
    decreases a.len(),
{
    if b.len() == 0 {
        false
    } else if a.len() == 0 {
        true
    } else if a[0] != b[0] {
        a[0] < b[0]
    } else {
        text_before(a.drop_first(), b.drop_first())
    }
}

/// The code points of `s`, in order.
pub fn chars_of(s: &str) -> (r: Vec<char>)
    ensures
        r@ == s@,
{
    let mut out: Vec<char> = Vec::new();
    for c in it: s.chars()
        invariant
            out@ == it.seq().take(it.index() as int),
    {
        out.push(c);
    }
    out
}

/// Whether `a` stands before `b` in the order of names.
pub fn precedes(a: &str, b: &str) -> (r: bool)
    ensures
        r == text_before(a@, b@),
{
    let x = chars_of(a);
    let y = chars_of(b);
    let mut i: usize = 0;
    assert(x@.skip(0) == x@ && y@.skip(0) == y@);
    while i < x.len() && i < y.len()
        invariant
            i <= x.len(),
            i <= y.len(),
            x@ == a@,
            y@ == b@,
            text_before(a@, b@) == text_before(x@.skip(i as int), y@.skip(i as int)),
        decreases x.len() - i,
    {
        let c: char = x[i];
        let d: char = y[i];
        proof {
            assert(x@.skip(i as int)[0] == c);
            assert(y@.skip(i as int)[0] == d);
            assert(x@.skip(i as int).drop_first() == x@.skip(i as int + 1));
            assert(y@.skip(i as int).drop_first() == y@.skip(i as int + 1));
        }
        if c != d {
            return c < d;
        }
        i += 1;
    }
    i < y.len()
}

/// Whether two strings hold the same code points.
pub fn text_eq(a: &str, b: &str) -> (r: bool)
    ensures
        r == (a@ == b@),
{
    let x = chars_of(a);
    let y = chars_of(b);
    if x.len() != y.len() {
        return false;
    }
    let mut i: usize = 0;
    while i < x.len()
        invariant
            i <= x.len(),
            x.len() == y.len(),
            x@ == a@,
            y@ == b@,
            forall|k: int| 0 <= k < i ==> x@[k] == y@[k],
        decreases x.len() - i,
    {
        if x[i] != y[i] {
            return false;
        }
        i += 1;
    }
    assert(x@ =~= y@);
    true
}

/// Whether two optional strings are both absent or hold the same code points.
pub fn opt_text_eq(a: &Option<String>, b: &Option<String>) -> (r: bool)
    ensures
        r == (opt_text(*a) == opt_text(*b)),
{
    match (a, b) {
        (None, None) => true,
        (Some(x), Some(y)) => text_eq(x.as_str(), y.as_str()),
        _ => false,
    }
}

/// The code points of an optional string.
pub open spec fn opt_text(s: Option<String>) -> Option<Seq<char>> {
    match s {
        Some(t) => Some(t@),
        None => None,
    }
}

/// The code points of each string of a list.
pub open spec fn texts(v: Seq<String>) -> Seq<Seq<char>> {
    Seq::new(v.len(), |i: int| v[i]@)
}

/// A copy of an optional string.
pub fn copy_opt_text(s: &Option<String>) -> (r: Option<String>)
    ensures
        opt_text(r) == opt_text(*s),
{
    match s {
        Some(t) => Some(t.clone()),
        None => None,
    }
}

/// A copy of a list of strings.
pub fn copy_texts(v: &Vec<String>) -> (r: Vec<String>)
    ensures
        texts(r@) == texts(v@),
{
    let mut out: Vec<String> = Vec::new();
    let mut i: usize = 0;
    while i < v.len()
        invariant
            i <= v.len(),
            out@.len() == i,
            forall|k: int| 0 <= k < i ==> out@[k]@ == v@[k]@,
        decreases v.len() - i,
    {
        out.push(v[i].clone());
        i += 1;
    }
    assert(texts(out@) =~= texts(v@));
    out
}

/// No name stands before itself.
pub proof fn lemma_before_irreflexive(a: Seq<char>)
    ensures
        !text_before(a, a),
    decreases a.len(),
{
    if a.len() > 0 {
        lemma_before_irreflexive(a.drop_first());
    }
}

/// The order of names is transitive.
pub proof fn lemma_before_transitive(a: Seq<char>, b: Seq<char>, c: Seq<char>)
    requires
        text_before(a, b),
        text_before(b, c),
    ensures
        text_before(a, c),
    decreases a.len(),
{
    if a.len() > 0 && a[0] == b[0] && b[0] == c[0] {
        lemma_before_transitive(a.drop_first(), b.drop_first(), c.drop_first());
    }
}

/// Of two different names one stands before the other.
pub proof fn lemma_before_total(a: Seq<char>, b: Seq<char>)
    ensures
        a == b || text_before(a, b) || text_before(b, a),
    decreases a.len(),
{
    if a.len() > 0 && b.len() > 0 && a[0] == b[0] {
        lemma_before_total(a.drop_first(), b.drop_first());
        if a.drop_first() == b.drop_first() {
            assert(a =~= seq![a[0]] + a.drop_first());
            assert(b =~= seq![b[0]] + b.drop_first());
        }
    } else if a.len() == 0 && b.len() == 0 {
        assert(a =~= b);
    }
}

/// A character that stands for itself between double quotes: no control
/// character, no double quote and no backslash.
pub open spec fn plain_char(c: char) -> bool {
    c >= ' ' && c != '"' && c != '\\'
}

/// Whether `s` can be written between double quotes as it is.
pub open spec fn plain_text(s: Seq<char>) -> bool {
    forall|i: int| 0 <= i < s.len() ==> plain_char(#[trigger] s[i])
}

/// A character of a key that needs no quotes: an ASCII letter or digit,
/// an underscore or a hyphen.
pub open spec fn key_char(c: char) -> bool {
    ('a' <= c && c <= 'z') || ('A' <= c && c <= 'Z') || ('0' <= c && c <= '9') || c == '_' || c
        == '-'
}

/// Whether `s` can stand as a key without quotes.
pub open spec fn bare_key(s: Seq<char>) -> bool {
    s.len() > 0 && forall|i: int| 0 <= i < s.len() ==> key_char(#[trigger] s[i])
}

/// Whether `s` can be written between double quotes as it is.
pub fn is_plain_text(s: &str) -> (r: bool)
    ensures
        r == plain_text(s@),
{
    let x = chars_of(s);
    let mut i: usize = 0;
    while i < x.len()
        invariant
            i <= x.len(),
            x@ == s@,
            forall|k: int| 0 <= k < i ==> plain_char(#[trigger] x@[k]),
        decreases x.len() - i,
    {
        let c: char = x[i];
        if !(c >= ' ' && c != '"' && c != '\\') {
            return false;
        }
        i += 1;
    }
    true
}

/// Whether `s` can stand as a key without quotes.
pub fn is_bare_key(s: &str) -> (r: bool)
    ensures
        r == bare_key(s@),
{
    let x = chars_of(s);
    if x.len() == 0 {
        return false;
    }
    let mut i: usize = 0;
    while i < x.len()
        invariant
            i <= x.len(),
            x@ == s@,
            forall|k: int| 0 <= k < i ==> key_char(#[trigger] x@[k]),
        decreases x.len() - i,
    {
        let c: char = x[i];
        let ok = ('a' <= c && c <= 'z') || ('A' <= c && c <= 'Z') || ('0' <= c && c <= '9') || c
            == '_' || c == '-';
        if !ok {
            return false;
        }
        i += 1;
    }
    true
}

/// `a`, `b` and `c` in one string.
pub fn glue(a: &str, b: &str, c: &str) -> (r: String)
    ensures
        r@ == a@ + b@ + c@,
{
    let mut out = String::new();
    out.append(a);
    out.append(b);
    out.append(c);
    assert(out@ =~= a@ + b@ + c@);
    out
}

/// The items of `items` with `sep` between each two of them.
pub open spec fn joined(items: Seq<Seq<char>>, sep: Seq<char>) -> Seq<char>
    decreases items.len(),
{
    if items.len() == 0 {
        Seq::empty()
    } else if items.len() == 1 {
        items[0]
    } else {
        joined(items.drop_last(), sep) + sep + items.last()
    }
}

/// The items of `items` with `sep` between each two of them.
pub fn join(items: &Vec<String>, sep: &str) -> (r: String)
    ensures
        r@ == joined(texts(items@), sep@),
{
    let ghost all = texts(items@);
    let mut out = String::new();
    let mut i: usize = 0;
    assert(all.take(0) =~= Seq::<Seq<char>>::empty());
    while i < items.len()
        invariant
            i <= items.len(),
            all == texts(items@),
            out@ == joined(all.take(i as int), sep@),
        decreases items.len() - i,
    {
        proof {
            assert(all.take(i as int + 1).drop_last() =~= all.take(i as int));
            assert(all.take(i as int + 1).last() == items@[i as int]@);
            if i == 0 {
                assert(all.take(1)[0] == items@[0]@);
                assert(Seq::<char>::empty() + items@[0]@ =~= items@[0]@);
            }
        }
        if i > 0 {
            out.append(sep);
        }
        out.append(items[i].as_str());
        i += 1;
    }
    assert(all.take(items@.len() as int) =~= all);
    out
}

/// Whether a line break stands at position `i` of `s`: a line feed, or
/// a carriage return with a line feed behind it.
pub open spec fn line_break_at(s: Seq<char>, i: int) -> bool {
    s[i] == '\n' || (s[i] == '\r' && i + 1 < s.len() && s[i + 1] == '\n')
}

/// Whether the character at position `i` of `s` can stand in a text
/// between three apostrophes: a tab, a line break, or no control
/// character.
pub open spec fn block_char_at(s: Seq<char>, i: int) -> bool {
    s[i] == '\t' || s[i] >= ' ' || line_break_at(s, i)
}

/// Whether `s` can be written between three apostrophes on either side
/// as it is: it holds block characters only, no three apostrophes in a
/// row, and does not end in an apostrophe.
pub open spec fn block_text(s: Seq<char>) -> bool {
    &&& forall|i: int| 0 <= i < s.len() ==> #[trigger] block_char_at(s, i)
    &&& forall|i: int|
        0 <= i && i + 2 < s.len() ==> !(#[trigger] s[i] == '\'' && s[i + 1] == '\'' && s[i + 2]
            == '\'')
    &&& (s.len() > 0 ==> s[s.len() - 1] != '\'')
}

/// Whether the character at position `i` of `s` can stand in a text
/// between three double quotes as it is: a line break, or no control
/// character and no backslash.
pub open spec fn quote_block_char_at(s: Seq<char>, i: int) -> bool {
    (s[i] >= ' ' && s[i] != '\\') || line_break_at(s, i)
}

/// Whether `s` can be written between three double quotes on either side
/// as it is: it holds such characters only, no three double quotes in a
/// row, and does not end in a double quote.
pub open spec fn quote_block_text(s: Seq<char>) -> bool {
    &&& forall|i: int| 0 <= i < s.len() ==> #[trigger] quote_block_char_at(s, i)
    &&& forall|i: int|
        0 <= i && i + 2 < s.len() ==> !(#[trigger] s[i] == '"' && s[i + 1] == '"' && s[i + 2]
            == '"')
    &&& (s.len() > 0 ==> s[s.len() - 1] != '"')
}

/// Whether `s` can be written as a string of a manifest as it is: between
/// double quotes, between three apostrophes, or between three double
/// quotes.
pub open spec fn writable(s: Seq<char>) -> bool {
    plain_text(s) || block_text(s) || quote_block_text(s)
}

/// Whether a line break stands at position `i` of `x`.
fn is_line_break_at(x: &Vec<char>, i: usize) -> (r: bool)
    requires
        i < x@.len(),
    ensures
        r == line_break_at(x@, i as int),
{
    x[i] == '\n' || (x[i] == '\r' && i < x.len() - 1 && x[i + 1] == '\n')
}

/// Whether `s` can be written between three apostrophes as it is.
pub fn is_block_text(s: &str) -> (r: bool)
    ensures
        r == block_text(s@),
{
    let x = chars_of(s);
    let n = x.len();
    if n > 0 && x[n - 1] == '\'' {
        return false;
    }
    let mut i: usize = 0;
    while i < n
        invariant
            i <= n,
            n == x@.len(),
            x@ == s@,
            forall|k: int| 0 <= k < i ==> #[trigger] block_char_at(x@, k),
            forall|k: int|
                0 <= k && k + 2 < i ==> !(#[trigger] x@[k] == '\'' && x@[k + 1] == '\'' && x@[k
                    + 2] == '\''),
        decreases n - i,
    {
        let c: char = x[i];
        if !(c == '\t' || c >= ' ' || is_line_break_at(&x, i)) {
            assert(!block_char_at(x@, i as int));
            return false;
        }
        if i >= 2 && c == '\'' && x[i - 1] == '\'' && x[i - 2] == '\'' {
            assert(x@[i - 2] == '\'' && x@[i - 2 + 1] == '\'' && x@[i - 2 + 2] == '\'');
            return false;
        }
        i += 1;
    }
    true
}

/// Whether `s` can be written between three double quotes as it is.
pub fn is_quote_block_text(s: &str) -> (r: bool)
    ensures
        r == quote_block_text(s@),
{
    let x = chars_of(s);
    let n = x.len();
    if n > 0 && x[n - 1] == '"' {
        return false;
    }
    let mut i: usize = 0;
    while i < n
        invariant
            i <= n,
            n == x@.len(),
            x@ == s@,
            forall|k: int| 0 <= k < i ==> #[trigger] quote_block_char_at(x@, k),
            forall|k: int|
                0 <= k && k + 2 < i ==> !(#[trigger] x@[k] == '"' && x@[k + 1] == '"' && x@[k + 2]
                    == '"'),
        decreases n - i,
    {
        let c: char = x[i];
        if !((c >= ' ' && c != '\\') || is_line_break_at(&x, i)) {
            assert(!quote_block_char_at(x@, i as int));
            return false;
        }
        if i >= 2 && c == '"' && x[i - 1] == '"' && x[i - 2] == '"' {
            assert(x@[i - 2] == '"' && x@[i - 2 + 1] == '"' && x@[i - 2 + 2] == '"');
            return false;
        }
        i += 1;
    }
    true
}

/// Whether `s` can be written as a string of a manifest as it is.
pub fn is_writable(s: &str) -> (r: bool)
    ensures
        r == writable(s@),
{
    is_plain_text(s) || is_block_text(s) || is_quote_block_text(s)
}

/// The hexadecimal digit `d`, in upper case.
pub open spec fn hex_digit(d: int) -> char {
    if d == 0 {
        '0'
    } else if d == 1 {
        '1'
    } else if d == 2 {
        '2'
    } else if d == 3 {
        '3'
    } else if d == 4 {
        '4'
    } else if d == 5 {
        '5'
    } else if d == 6 {
        '6'
    } else if d == 7 {
        '7'
    } else if d == 8 {
        '8'
    } else if d == 9 {
        '9'
    } else if d == 10 {
        'A'
    } else if d == 11 {
        'B'
    } else if d == 12 {
        'C'
    } else if d == 13 {
        'D'
    } else if d == 14 {
        'E'
    } else {
        'F'
    }
}

/// The hexadecimal digit `d` as a string.
fn hex_text(d: u32) -> (r: &'static str)
    requires
        d < 16,
    ensures
        r@ == seq![hex_digit(d as int)],
{
    proof {
        reveal_strlit("0");
        reveal_strlit("1");
        reveal_strlit("2");
        reveal_strlit("3");
        reveal_strlit("4");
        reveal_strlit("5");
        reveal_strlit("6");
        reveal_strlit("7");
        reveal_strlit("8");
        reveal_strlit("9");
        reveal_strlit("A");
        reveal_strlit("B");
        reveal_strlit("C");
        reveal_strlit("D");
        reveal_strlit("E");
        reveal_strlit("F");
    }
    let r = if d == 0 {
        "0"
    } else if d == 1 {
        "1"
    } else if d == 2 {
        "2"
    } else if d == 3 {
        "3"
    } else if d == 4 {
        "4"
    } else if d == 5 {
        "5"
    } else if d == 6 {
        "6"
    } else if d == 7 {
        "7"
    } else if d == 8 {
        "8"
    } else if d == 9 {
        "9"
    } else if d == 10 {
        "A"
    } else if d == 11 {
        "B"
    } else if d == 12 {
        "C"
    } else if d == 13 {
        "D"
    } else if d == 14 {
        "E"
    } else {
        "F"
    };
    assert(r@ =~= seq![hex_digit(d as int)]);
    r
}

/// Whether `c` is a control character.
pub open spec fn control_char(c: char) -> bool {
    c < ' ' || c == '\u{7f}'
}

/// How `c` is written between double quotes: a double quote and a
/// backslash behind a backslash, a line feed, a tab and a carriage return
/// by their letters, another control character by its number, and any
/// other character as it is.
pub open spec fn escaped_char(c: char) -> Seq<char> {
    if c == '"' {
        "\\\""@
    } else if c == '\\' {
        "\\\\"@
    } else if c == '\n' {
        "\\n"@
    } else if c == '\t' {
        "\\t"@
    } else if c == '\r' {
        "\\r"@
    } else if control_char(c) {
        "\\u00"@ + seq![hex_digit((c as u32) as int / 16), hex_digit((c as u32) as int % 16)]
    } else {
        seq![c]
    }
}

/// How `s` is written between double quotes, character by character.
pub open spec fn escaped(s: Seq<char>) -> Seq<char>
    decreases s.len(),
{
    if s.len() == 0 {
        Seq::empty()
    } else {
        escaped(s.drop_last()) + escaped_char(s.last())
    }
}

/// The number of a control character.
fn control_code(c: char) -> (r: u32)
    requires
        control_char(c),
    ensures
        r == c as u32,
        r < 128,
{
    c as u32
}

/// How `s` is written between double quotes.
pub fn escape(s: &str) -> (r: String)
    ensures
        r@ == escaped(s@),
{
    let x = chars_of(s);
    let mut out = String::new();
    let mut i: usize = 0;
    assert(s@.take(0) =~= Seq::<char>::empty());
    while i < x.len()
        invariant
            i <= x.len(),
            x@ == s@,
            out@ == escaped(s@.take(i as int)),
        decreases x.len() - i,
    {
        let c: char = x[i];
        let ghost before = out@;
        proof {
            assert(s@.take(i as int + 1).drop_last() =~= s@.take(i as int));
            assert(s@.take(i as int + 1).last() == c);
        }
        if c == '"' {
            out.append("\\\"");
        } else if c == '\\' {
            out.append("\\\\");
        } else if c == '\n' {
            out.append("\\n");
        } else if c == '\t' {
            out.append("\\t");
        } else if c == '\r' {
            out.append("\\r");
        } else if c < ' ' || c == '\u{7f}' {
            let code: u32 = control_code(c);
            out.append("\\u00");
            out.append(hex_text(code / 16));
            out.append(hex_text(code % 16));
            assert(out@ =~= before + escaped_char(c));
        } else {
            out.append(s.substring_char(i, i + 1));
            assert(s@.subrange(i as int, i as int + 1) =~= seq![c]);
        }
        i += 1;
    }
    assert(s@.take(x@.len() as int) =~= s@);
    out
}

} // verus!
