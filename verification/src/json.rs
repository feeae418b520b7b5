use vstd::prelude::*;

verus! {

/// Lower-case hexadecimal digit for a value below sixteen.
pub open spec fn hex_digit(d: nat) -> char {
    if d < 10 {
        (('0' as nat) + d) as char
    } else {
        (('a' as nat) + (d - 10)) as char
    }
}

/// The JSON text that stands for one character inside a string literal.
pub open spec fn escape_char(c: char) -> Seq<char> {
    if c == '"' {
        seq!['\\', '"']
    } else if c == '\\' {
        seq!['\\', '\\']
    } else if c == '\n' {
        seq!['\\', 'n']
    } else if c == '\r' {
        seq!['\\', 'r']
    } else if c == '\t' {
        seq!['\\', 't']
    } else if (c as u32) < 0x20 {
        seq!['\\', 'u', '0', '0', hex_digit(((c as u32) / 16) as nat), hex_digit(((c as u32) % 16) as nat)]
    } else {
        seq![c]
    }
}

/// A character sequence with every character escaped for a JSON string.
pub open spec fn json_escaped(s: Seq<char>) -> Seq<char>
    decreases s.len(),
{
    if s.len() == 0 {
        Seq::empty()
    } else {
        json_escaped(s.drop_last()) + escape_char(s.last())
    }
}

/// `String::push`: appends the character `c` at the end of `s`; the
/// contract claims exactly that the new text is the old one followed by `c`.
#[verifier::external_body]
pub(crate) fn push_char(s: &mut String, c: char)
    ensures
        final(s)@ == old(s)@.push(c),
{
    s.push(c)
}

fn hex_char(d: u32) -> (c: char)
    requires
        d < 16,
    ensures
        c == hex_digit(d as nat),
{
    match d {
        0 => '0',
        1 => '1',
        2 => '2',
        3 => '3',
        4 => '4',
        5 => '5',
        6 => '6',
        7 => '7',
        8 => '8',
        9 => '9',
        10 => 'a',
        11 => 'b',
        12 => 'c',
        13 => 'd',
        14 => 'e',
        _ => 'f',
    }
}

/// Escapes `s` so that it can stand between the quotes of a JSON string:
/// closed by a quote, the result decodes back to `s`, and text with nothing
/// to escape is left as it is.
pub fn json_escape(s: &str) -> (o: String)
    ensures
        o@ == json_escaped(s@),
        string_body(o@ + seq!['"']) == Some((s@, Seq::<char>::empty())),
        (forall|i: int| 0 <= i < s@.len() ==> #[trigger] s@[i] != '"' && s@[i] != '\\' && (s@[i] as u32) >= 0x20)
            ==> o@ == s@,
{
    proof {
        lemma_escape_decodes(s@, Seq::<char>::empty());
        assert(json_escaped(s@) + seq!['"'] + Seq::<char>::empty() =~= json_escaped(s@) + seq!['"']);
        if forall|i: int| 0 <= i < s@.len() ==> #[trigger] s@[i] != '"' && s@[i] != '\\' && (s@[i] as u32) >= 0x20 {
            lemma_escape_plain(s@);
        }
    }
    let mut o = String::new();
    for c in it: s.chars()
        invariant
            it.seq() == s@,
            o@ == json_escaped(s@.take(it.index())),
    {
        let ghost before = o@;
        assert(s@.take(it.index() + 1).drop_last() == s@.take(it.index()));
        assert(s@.take(it.index() + 1).last() == c);
        if c == '"' {
            push_char(&mut o, '\\');
            push_char(&mut o, '"');
        } else if c == '\\' {
            push_char(&mut o, '\\');
            push_char(&mut o, '\\');
        } else if c == '\n' {
            push_char(&mut o, '\\');
            push_char(&mut o, 'n');
        } else if c == '\r' {
            push_char(&mut o, '\\');
            push_char(&mut o, 'r');
        } else if c == '\t' {
            push_char(&mut o, '\\');
            push_char(&mut o, 't');
        } else if (c as u32) < 0x20 {
            let v = c as u32;
            push_char(&mut o, '\\');
            push_char(&mut o, 'u');
            push_char(&mut o, '0');
            push_char(&mut o, '0');
            push_char(&mut o, hex_char(v / 16));
            push_char(&mut o, hex_char(v % 16));
            assert(o@ =~= before + escape_char(c));
        } else {
            push_char(&mut o, c);
            assert(o@ =~= before + escape_char(c));
        }
        assert(o@ == before + escape_char(c));
    }
    assert(s@.take(s@.len() as int) == s@);
    o
}

/// Decimal digits of a natural number, most significant first, no leading zeros.
pub open spec fn decimal(n: nat) -> Seq<char>
    decreases n,
{
    if n < 10 {
        seq![hex_digit(n)]
    } else {
        decimal(n / 10).push(hex_digit(n % 10))
    }
}

/// Appends the decimal text of `n` to `o`.
pub fn push_decimal(o: &mut String, n: u128)
    ensures
        final(o)@ == old(o)@ + decimal(n as nat),
    decreases n,
{
    if n >= 10 {
        push_decimal(o, n / 10);
    }
    push_char(o, hex_char((n % 10) as u32));
    assert(o@ =~= old(o)@ + decimal(n as nat));
}

/// Escaping works character by character: the escape of a concatenation is
/// the concatenation of the escapes.
pub proof fn lemma_escape_concat(a: Seq<char>, b: Seq<char>)
    ensures
        json_escaped(a + b) == json_escaped(a) + json_escaped(b),
    decreases b.len(),
{
    if b.len() == 0 {
        assert(a + b =~= a);
    } else {
        lemma_escape_concat(a, b.drop_last());
        assert((a + b).drop_last() =~= a + b.drop_last());
        assert((a + b).last() == b.last());
    }
}

/// Escaped text can sit inside JSON quotes: it holds no control character,
/// and every double quote in it comes right after a backslash.
pub proof fn lemma_escape_safe(s: Seq<char>)
    ensures
        forall|q: int| 0 <= q < json_escaped(s).len() ==> (#[trigger] json_escaped(s)[q]) as u32 >= 0x20,
        forall|q: int| 0 <= q < json_escaped(s).len() && #[trigger] json_escaped(s)[q] == '"'
            ==> q >= 1 && json_escaped(s)[q - 1] == '\\',
    decreases s.len(),
{
    if s.len() > 0 {
        lemma_escape_safe(s.drop_last());
        let t = json_escaped(s.drop_last());
        let c = s.last();
        let e = escape_char(c);
        let r = json_escaped(s);
        assert(r == t + e);
        assert(e.len() >= 1);
        assert(e[0] != '"');
        assert forall|q: int| 0 <= q < e.len() implies (#[trigger] e[q]) as u32 >= 0x20 by {
            if (c as u32) < 0x20 && c != '\n' && c != '\r' && c != '\t' {
                assert(((c as u32) / 16) < 2);
                assert(((c as u32) % 16) < 16);
            }
        }
        assert forall|q: int| 1 <= q < e.len() && #[trigger] e[q] == '"' implies e[q - 1] == '\\' by {
            if (c as u32) < 0x20 && c != '\n' && c != '\r' && c != '\t' {
                assert(((c as u32) / 16) < 2);
            }
        }
        assert forall|q: int| 0 <= q < r.len() implies (#[trigger] r[q]) as u32 >= 0x20 by {
            if q < t.len() {
                assert(r[q] == t[q]);
            } else {
                assert(r[q] == e[q - t.len()]);
            }
        }
        assert forall|q: int| 0 <= q < r.len() && #[trigger] r[q] == '"' implies q >= 1 && r[q - 1] == '\\' by {
            if q < t.len() {
                assert(r[q] == t[q]);
                assert(r[q - 1] == t[q - 1]);
            } else {
                assert(r[q] == e[q - t.len()]);
                assert(r[q - 1] == e[q - 1 - t.len()]);
            }
        }
    }
}

/// Text with no double quote, no backslash and no control character is
/// left unchanged by escaping.
pub proof fn lemma_escape_plain(s: Seq<char>)
    requires
        forall|i: int| 0 <= i < s.len() ==> #[trigger] s[i] != '"' && s[i] != '\\' && (s[i] as u32) >= 0x20,
    ensures
        json_escaped(s) == s,
    decreases s.len(),
{
    if s.len() > 0 {
        lemma_escape_plain(s.drop_last());
        assert(s[s.len() - 1] == s.last());
        assert(s.drop_last().push(s.last()) =~= s);
    }
}

/// Value of a hexadecimal digit (either case), if `c` is one.
pub open spec fn hex_value(c: char) -> Option<nat> {
    if '0' <= c && c <= '9' {
        Some((c as nat - '0' as nat) as nat)
    } else if 'a' <= c && c <= 'f' {
        Some((c as nat - 'a' as nat + 10) as nat)
    } else if 'A' <= c && c <= 'F' {
        Some((c as nat - 'A' as nat + 10) as nat)
    } else {
        None
    }
}

/// The character a JSON backslash escape at the start of `t` stands for, and
/// the number of characters the escape takes (`\uXXXX` outside the
/// surrogate range included; surrogate pairs are not decoded).
pub open spec fn unescape(t: Seq<char>) -> Option<(char, nat)> {
    if t.len() < 2 || t[0] != '\\' {
        None
    } else if t[1] == '"' {
        Some(('"', 2))
    } else if t[1] == '\\' {
        Some(('\\', 2))
    } else if t[1] == '/' {
        Some(('/', 2))
    } else if t[1] == 'b' {
        Some(('\u{8}', 2))
    } else if t[1] == 'f' {
        Some(('\u{c}', 2))
    } else if t[1] == 'n' {
        Some(('\n', 2))
    } else if t[1] == 'r' {
        Some(('\r', 2))
    } else if t[1] == 't' {
        Some(('\t', 2))
    } else if t[1] == 'u' && t.len() >= 6 {
        match (hex_value(t[2]), hex_value(t[3]), hex_value(t[4]), hex_value(t[5])) {
            (Some(a), Some(b), Some(c), Some(d)) => {
                let v = 4096 * a + 256 * b + 16 * c + d;
                if 0xD800 <= v && v <= 0xDFFF {
                    None
                } else {
                    Some((v as char, 6))
                }
            },
            _ => None,
        }
    } else {
        None
    }
}

/// Reads the contents of a JSON string literal whose opening quote has been
/// consumed: the decoded text and what follows the closing quote, or `None`
/// when `t` is not a well-formed string body.
pub open spec fn string_body(t: Seq<char>) -> Option<(Seq<char>, Seq<char>)>
    decreases t.len(),
{
    if t.len() == 0 {
        None
    } else if t[0] == '"' {
        Some((Seq::empty(), t.drop_first()))
    } else if t[0] == '\\' {
        match unescape(t) {
            Some((c, k)) => if 2 <= k <= t.len() {
                match string_body(t.skip(k as int)) {
                    Some((b, r)) => Some((seq![c] + b, r)),
                    None => None,
                }
            } else {
                None
            },
            None => None,
        }
    } else if (t[0] as u32) < 0x20 {
        None
    } else {
        match string_body(t.drop_first()) {
            Some((b, r)) => Some((seq![t[0]] + b, r)),
            None => None,
        }
    }
}

proof fn lemma_hex_roundtrip(d: nat)
    requires
        d < 16,
    ensures
        hex_value(hex_digit(d)) == Some(d),
{
}

/// How each character is written inside a JSON string: quote and backslash
/// get a backslash, line feed, carriage return and tab their short escapes,
/// every other control character `\u00XX` with two lower-case hex digits
/// of its code, and every other character stands for itself.
pub proof fn lemma_escape_forms(c: char)
    ensures
        escape_char('"') == seq!['\\', '"'],
        escape_char('\\') == seq!['\\', '\\'],
        escape_char('\n') == seq!['\\', 'n'],
        escape_char('\r') == seq!['\\', 'r'],
        escape_char('\t') == seq!['\\', 't'],
        (c as u32) >= 0x20 && c != '"' && c != '\\' ==> escape_char(c) == seq![c],
        (c as u32) < 0x20 && c != '\n' && c != '\r' && c != '\t' ==> {
            let e = escape_char(c);
            &&& e.len() == 6
            &&& e[0] == '\\' && e[1] == 'u' && e[2] == '0' && e[3] == '0'
            &&& hex_value(e[4]) == Some(((c as u32) / 16) as nat)
            &&& hex_value(e[5]) == Some(((c as u32) % 16) as nat)
            &&& !('A' <= e[4] && e[4] <= 'F') && !('A' <= e[5] && e[5] <= 'F')
        },
{
    if (c as u32) < 0x20 {
        lemma_hex_roundtrip(((c as u32) / 16) as nat);
        lemma_hex_roundtrip(((c as u32) % 16) as nat);
    }
}

proof fn lemma_escape_first(c: char, s: Seq<char>)
    ensures
        json_escaped(seq![c] + s) == escape_char(c) + json_escaped(s),
{
    lemma_escape_concat(seq![c], s);
    let one = seq![c];
    assert(one.drop_last() =~= Seq::<char>::empty());
    assert(one.last() == c);
    assert(json_escaped(Seq::<char>::empty()) == Seq::<char>::empty());
    assert(json_escaped(one) == json_escaped(one.drop_last()) + escape_char(one.last()));
    assert(json_escaped(one) =~= escape_char(c));
}

/// Reading the escape of one character yields that character.
proof fn lemma_decode_one(c: char, x: Seq<char>)
    ensures
        string_body(escape_char(c) + x) == match string_body(x) {
            Some((b, r)) => Some((seq![c] + b, r)),
            None => None,
        },
{
    let e = escape_char(c);
    let t = e + x;
    if e.len() == 1 {
        assert(e == seq![c]);
        assert(t[0] == c);
        assert(t.drop_first() =~= x);
    } else if e.len() == 2 {
        assert(t[0] == '\\');
        assert(t[1] == e[1]);
        assert(t.skip(2) =~= x);
    } else {
        let v = c as u32;
        assert(v < 0x20);
        lemma_hex_roundtrip((v / 16) as nat);
        lemma_hex_roundtrip((v % 16) as nat);
        assert(t[0] == '\\' && t[1] == 'u');
        assert(t[2] == '0' && t[3] == '0');
        assert(t[4] == hex_digit((v / 16) as nat) && t[5] == hex_digit((v % 16) as nat));
        assert(t.skip(6) =~= x);
        assert(4096 * 0 + 256 * 0 + 16 * ((v / 16) as nat) + ((v % 16) as nat) == v as nat);
        assert(((v as nat) as char) == c);
    }
}

/// Escaping is undone by JSON string decoding: the escaped text followed by
/// a closing quote reads back as exactly the text that was escaped, and reading
/// stops right after that quote.
pub proof fn lemma_escape_decodes(s: Seq<char>, rest: Seq<char>)
    ensures
        string_body(json_escaped(s) + seq!['"'] + rest) == Some((s, rest)),
    decreases s.len(),
{
    if s.len() == 0 {
        assert(json_escaped(s) + seq!['"'] + rest =~= seq!['"'] + rest);
        assert((seq!['"'] + rest).drop_first() =~= rest);
    } else {
        let c = s[0];
        let tail = s.drop_first();
        assert(s =~= seq![c] + tail);
        lemma_escape_first(c, tail);
        lemma_escape_decodes(tail, rest);
        let x = json_escaped(tail) + seq!['"'] + rest;
        assert(json_escaped(s) + seq!['"'] + rest =~= escape_char(c) + x);
        lemma_decode_one(c, x);
    }
}

/// JSON insignificant whitespace.
pub open spec fn is_json_ws(c: char) -> bool {
    c == ' ' || c == '\n' || c == '\t' || c == '\r'
}

/// `t` without its leading JSON whitespace.
pub open spec fn skip_ws(t: Seq<char>) -> Seq<char>
    decreases t.len(),
{
    if t.len() > 0 && is_json_ws(t[0]) {
        skip_ws(t.drop_first())
    } else {
        t
    }
}

/// What follows the character `c` at the start of `t`, if `t` starts with it.
pub open spec fn after(t: Seq<char>, c: char) -> Option<Seq<char>> {
    if t.len() > 0 && t[0] == c {
        Some(t.drop_first())
    } else {
        None
    }
}

/// What follows the punctuation `c`, after optional whitespace.
#[verifier::opaque]
pub open spec fn then(t: Seq<char>, c: char) -> Option<Seq<char>> {
    after(skip_ws(t), c)
}

/// Reads a JSON string literal at the start of `t`: its decoded text and
/// what follows the closing quote.
pub open spec fn read_string(t: Seq<char>) -> Option<(Seq<char>, Seq<char>)> {
    if t.len() > 0 && t[0] == '"' {
        string_body(t.drop_first())
    } else {
        None
    }
}

/// A decimal digit.
pub open spec fn is_digit(c: char) -> bool {
    '0' <= c && c <= '9'
}

/// Length of the run of digits that starts `t`.
pub open spec fn digit_run(t: Seq<char>) -> nat
    decreases t.len(),
{
    if t.len() > 0 && is_digit(t[0]) {
        1 + digit_run(t.drop_first())
    } else {
        0
    }
}

/// The number a sequence of decimal digits denotes.
pub open spec fn digits_value(d: Seq<char>) -> nat
    decreases d.len(),
{
    if d.len() == 0 {
        0
    } else {
        digits_value(d.drop_last()) * 10 + (d.last() as nat - '0' as nat) as nat
    }
}

/// Reads a non-negative JSON integer at the start of `t`: its value and what
/// follows its last digit.
pub open spec fn read_number(t: Seq<char>) -> Option<(nat, Seq<char>)> {
    let k = digit_run(t);
    if k == 0 {
        None
    } else {
        Some((digits_value(t.take(k as int)), t.skip(k as int)))
    }
}

/// `s` as a JSON string literal: escaped and between double quotes.
pub open spec fn quoted(s: Seq<char>) -> Seq<char> {
    seq!['"'] + (json_escaped(s) + seq!['"'])
}

/// Every character of `w` is JSON whitespace.
pub open spec fn all_ws(w: Seq<char>) -> bool {
    forall|i: int| 0 <= i < w.len() ==> is_json_ws(#[trigger] w[i])
}

/// Leading whitespace is skipped, and skipping stops at the first other
/// character.
pub proof fn lemma_skip_ws(w: Seq<char>, r: Seq<char>)
    requires
        all_ws(w),
        r.len() == 0 || !is_json_ws(r[0]),
    ensures
        skip_ws(w + r) == r,
    decreases w.len(),
{
    if w.len() == 0 {
        assert(w + r =~= r);
    } else {
        assert((w + r).drop_first() =~= w.drop_first() + r);
        assert(all_ws(w.drop_first())) by {
            assert forall|i: int| 0 <= i < w.drop_first().len() implies is_json_ws(#[trigger] w.drop_first()[i]) by {
                assert(w.drop_first()[i] == w[i + 1]);
            }
        }
        assert(is_json_ws(w[0]));
        lemma_skip_ws(w.drop_first(), r);
    }
}

/// Punctuation `c` after whitespace `w` is read, leaving what follows it.
pub proof fn lemma_then(w: Seq<char>, c: char, r: Seq<char>)
    requires
        all_ws(w),
        !is_json_ws(c),
    ensures
        then(w + (seq![c] + r), c) == Some(r),
{
    reveal(then);
    lemma_skip_ws(w, seq![c] + r);
    assert((seq![c] + r).drop_first() =~= r);
}

/// A quoted string reads back as the text it quotes.
pub proof fn lemma_read_string(s: Seq<char>, r: Seq<char>)
    ensures
        read_string(quoted(s) + r) == Some((s, r)),
{
    lemma_escape_decodes(s, r);
    assert((quoted(s) + r).drop_first() =~= json_escaped(s) + seq!['"'] + r);
}

/// The decimal numeral of `n` is a non-empty run of digits whose value is `n`.
pub proof fn lemma_decimal_digits(n: nat)
    ensures
        decimal(n).len() >= 1,
        forall|i: int| 0 <= i < decimal(n).len() ==> is_digit(#[trigger] decimal(n)[i]),
        digits_value(decimal(n)) == n,
    decreases n,
{
    if n < 10 {
        let d = decimal(n);
        assert(d == seq![hex_digit(n)]);
        assert(d.drop_last() =~= Seq::<char>::empty());
        assert(digits_value(Seq::<char>::empty()) == 0);
        assert(hex_digit(n) as nat == '0' as nat + n);
    } else {
        lemma_decimal_digits(n / 10);
        let d = decimal(n);
        assert(d.drop_last() =~= decimal(n / 10));
        assert(d.last() == hex_digit(n % 10));
        assert(hex_digit(n % 10) as nat == '0' as nat + n % 10);
        assert(forall|i: int| 0 <= i < decimal(n / 10).len() ==> d[i] == decimal(n / 10)[i]);
        assert(digits_value(d) == digits_value(decimal(n / 10)) * 10 + n % 10);
    }
}

proof fn lemma_digit_run(d: Seq<char>, r: Seq<char>)
    requires
        forall|i: int| 0 <= i < d.len() ==> is_digit(#[trigger] d[i]),
        r.len() == 0 || !is_digit(r[0]),
    ensures
        digit_run(d + r) == d.len(),
    decreases d.len(),
{
    if d.len() == 0 {
        assert(d + r =~= r);
    } else {
        assert((d + r).drop_first() =~= d.drop_first() + r);
        assert(is_digit(d[0]));
        assert forall|i: int| 0 <= i < d.drop_first().len() implies is_digit(#[trigger] d.drop_first()[i]) by {
            assert(d.drop_first()[i] == d[i + 1]);
        }
        lemma_digit_run(d.drop_first(), r);
    }
}

/// A decimal numeral reads back as its number when no digit follows it.
pub proof fn lemma_read_number(n: nat, r: Seq<char>)
    requires
        r.len() == 0 || !is_digit(r[0]),
    ensures
        read_number(decimal(n) + r) == Some((n, r)),
{
    lemma_decimal_digits(n);
    lemma_digit_run(decimal(n), r);
    assert((decimal(n) + r).take(decimal(n).len() as int) =~= decimal(n));
    assert((decimal(n) + r).skip(decimal(n).len() as int) =~= r);
}

} // verus!
