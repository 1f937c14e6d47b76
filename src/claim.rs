//! Session claims and the payload text they travel in inside a token.
//!
//! A payload is the compact JSON object
//! `{"aud":"<audience>","exp":<expiration>,"sub":"<subject>"}`, with its keys
//! in this order and the expiration in canonical decimal. In the two strings a
//! quote and a backslash are escaped with a backslash, control characters as
//! `\u00XX` with lower-case hex digits, and every other character stands as it
//! is. Only that exact form is read back.

use vstd::prelude::*;
use vstd::string::StrSliceExecFns;

verus! {

/// The lower-case hex digit for `d < 16`.
pub open spec fn hex_char(d: nat) -> char {
    if d < 10 {
        ((d + 48) as u8) as char
    } else {
        ((d + 87) as u8) as char
    }
}

/// A lower-case hex digit.
pub open spec fn is_hex(c: char) -> bool {
    ('0' <= c && c <= '9') || ('a' <= c && c <= 'f')
}

/// The value of a lower-case hex digit.
pub open spec fn hex_value(c: char) -> int {
    if c <= '9' {
        (c as u32) - 48
    } else {
        (c as u32) - 87
    }
}

/// The control character that `\u00<hi><lo>` stands for.
pub open spec fn control_char(hi: char, lo: char) -> char {
    ((digit_value(hi) * 16 + hex_value(lo)) as u8) as char
}

/// How a character is written inside a JSON string.
pub open spec fn escape_char(c: char) -> Seq<char> {
    if c == '"' {
        seq!['\\', '"']
    } else if c == '\\' {
        seq!['\\', '\\']
    } else if (c as u32) < 32 {
        seq![
            '\\',
            'u',
            '0',
            '0',
            hex_char((c as u32 / 16) as nat),
            hex_char((c as u32 % 16) as nat),
        ]
    } else {
        seq![c]
    }
}

/// How a string is written inside a JSON string.
pub open spec fn escaped(s: Seq<char>) -> Seq<char>
    decreases s.len(),
{
    if s.len() == 0 {
        Seq::empty()
    } else {
        escaped(s.drop_last()) + escape_char(s.last())
    }
}

/// Reads the inside of a JSON string written as [`escaped`] does, up to the
/// closing quote: the characters, and how many were read before the quote.
pub open spec fn unescape(t: Seq<char>) -> Option<(Seq<char>, int)>
    decreases t.len(),
{
    if t.len() == 0 {
        None
    } else if t[0] == '"' {
        Some((Seq::empty(), 0))
    } else if t[0] == '\\' {
        if t.len() >= 2 && (t[1] == '"' || t[1] == '\\') {
            match unescape(t.skip(2)) {
                Some(r) => Some((seq![t[1]] + r.0, r.1 + 2)),
                None => None,
            }
        } else if t.len() >= 6 && t[1] == 'u' && t[2] == '0' && t[3] == '0' && (t[4] == '0' || t[4]
            == '1') && is_hex(t[5]) {
            match unescape(t.skip(6)) {
                Some(r) => Some((seq![control_char(t[4], t[5])] + r.0, r.1 + 6)),
                None => None,
            }
        } else {
            None
        }
    } else if (t[0] as u32) < 32 {
        None
    } else {
        match unescape(t.skip(1)) {
            Some(r) => Some((seq![t[0]] + r.0, r.1 + 1)),
            None => None,
        }
    }
}

/// What reading `more` after `done` characters (taking `used` positions)
/// gives in all.
pub open spec fn after(done: Seq<char>, used: int, more: Option<(Seq<char>, int)>) -> Option<
    (Seq<char>, int),
> {
    match more {
        Some(r) => Some((done + r.0, r.1 + used)),
        None => None,
    }
}

/// An ASCII decimal digit.
pub open spec fn is_digit(c: char) -> bool {
    '0' <= c && c <= '9'
}

/// The digit character for `d < 10`.
pub open spec fn digit_char(d: nat) -> char {
    ((d + 48) as u8) as char
}

/// The value of a digit character.
pub open spec fn digit_value(c: char) -> int {
    (c as u32) - 48
}

/// The canonical decimal text of `n`: no sign, no leading zeros.
pub open spec fn decimal(n: nat) -> Seq<char>
    decreases n,
{
    if n < 10 {
        seq![digit_char(n)]
    } else {
        decimal(n / 10).push(digit_char(n % 10))
    }
}

/// The number that a string of digits denotes.
pub open spec fn digits_value(s: Seq<char>) -> int
    decreases s.len(),
{
    if s.len() == 0 {
        0
    } else {
        digits_value(s.drop_last()) * 10 + digit_value(s.last())
    }
}

/// `{"aud":"`
pub open spec fn aud_key() -> Seq<char> {
    seq!['{', '"', 'a', 'u', 'd', '"', ':', '"']
}

/// `","exp":`
pub open spec fn exp_key() -> Seq<char> {
    seq!['"', ',', '"', 'e', 'x', 'p', '"', ':']
}

/// `,"sub":"`
pub open spec fn sub_key() -> Seq<char> {
    seq![',', '"', 's', 'u', 'b', '"', ':', '"']
}

/// `"}`
pub open spec fn payload_end() -> Seq<char> {
    seq!['"', '}']
}

/// The payload text of a claim under an audience.
pub open spec fn claim_payload(aud: Seq<char>, exp: nat, sub: Seq<char>) -> Seq<char> {
    aud_key() + escaped(aud) + exp_key() + decimal(exp) + sub_key() + escaped(sub) + payload_end()
}

/// `text` is the payload of the claim `(sub, exp)` under audience `aud`.
pub open spec fn is_claim_payload(text: Seq<char>, aud: Seq<char>, exp: nat, sub: Seq<char>) -> bool {
    text == claim_payload(aud, exp, sub)
}

/// Some claim whose expiration fits a `usize` has `text` as its payload.
pub open spec fn is_some_payload(text: Seq<char>) -> bool {
    exists|aud: Seq<char>, exp: nat, sub: Seq<char>|
        exp <= usize::MAX && #[trigger] is_claim_payload(text, aud, exp, sub)
}

proof fn lemma_digit(d: nat)
    requires
        d < 10,
    ensures
        is_digit(digit_char(d)),
        digit_value(digit_char(d)) == d,
{
}

/// Canonical decimal text is a non-empty run of digits that denotes `n`.
proof fn lemma_decimal(n: nat)
    ensures
        decimal(n).len() >= 1,
        forall|i: int| 0 <= i < decimal(n).len() ==> is_digit(#[trigger] decimal(n)[i]),
        digits_value(decimal(n)) == n,
    decreases n,
{
    if n < 10 {
        lemma_digit(n);
        assert(decimal(n).drop_last() =~= Seq::<char>::empty());
        assert(digits_value(decimal(n)) == digits_value(Seq::<char>::empty()) * 10 + digit_value(
            digit_char(n),
        ));
    } else {
        lemma_decimal(n / 10);
        lemma_digit(n % 10);
        assert(decimal(n).drop_last() =~= decimal(n / 10));
        assert(digits_value(decimal(n)) == digits_value(decimal(n / 10)) * 10 + digit_value(
            digit_char(n % 10),
        ));
        assert((n / 10) * 10 + n % 10 == n);
    }
}

proof fn lemma_hex(d: nat)
    requires
        d < 16,
    ensures
        is_hex(hex_char(d)),
        hex_value(hex_char(d)) == d,
{
}

/// Reading starts with the character that `escape_char` wrote.
proof fn lemma_unescape_char(c: char, rest: Seq<char>)
    ensures
        unescape(escape_char(c) + rest) == after(seq![c], escape_char(c).len() as int, unescape(rest)),
{
    let t = escape_char(c) + rest;
    if c == '"' || c == '\\' {
        assert(t.skip(2) =~= rest);
    } else if (c as u32) < 32 {
        let v = c as u32;
        lemma_hex((v / 16) as nat);
        lemma_hex((v % 16) as nat);
        assert(t[4] == hex_char((v / 16) as nat));
        assert(t[5] == hex_char((v % 16) as nat));
        assert(digit_value(t[4]) == v / 16);
        assert(control_char(t[4], t[5]) == c);
        assert(t.skip(6) =~= rest);
    } else {
        assert(t.skip(1) =~= rest);
    }
}

proof fn lemma_escaped_concat(a: Seq<char>, b: Seq<char>)
    ensures
        escaped(a + b) == escaped(a) + escaped(b),
    decreases b.len(),
{
    if b.len() == 0 {
        assert(a + b =~= a);
        assert(escaped(a) + escaped(b) =~= escaped(a));
    } else {
        lemma_escaped_concat(a, b.drop_last());
        assert((a + b).drop_last() =~= a + b.drop_last());
        assert((a + b).last() == b.last());
        assert(escaped(a + b) =~= escaped(a) + escaped(b));
    }
}

/// Reading an escaped string followed by a quote gives the string back, and
/// stops at that quote.
proof fn lemma_unescape_escaped(s: Seq<char>, rest: Seq<char>)
    ensures
        unescape(escaped(s) + seq!['"'] + rest) == Some((s, escaped(s).len() as int)),
    decreases s.len(),
{
    if s.len() == 0 {
        assert(escaped(s) + seq!['"'] + rest =~= seq!['"'] + rest);
        assert(s =~= Seq::<char>::empty());
    } else {
        let tail = s.skip(1);
        assert(s =~= seq![s[0]] + tail);
        lemma_escaped_concat(seq![s[0]], tail);
        let one = seq![s[0]];
        assert(one.drop_last() =~= Seq::<char>::empty());
        assert(one.last() == s[0]);
        assert(escaped(one) == escaped(one.drop_last()) + escape_char(one.last()));
        assert(escaped(one) =~= escape_char(s[0]));
        lemma_unescape_escaped(tail, rest);
        lemma_unescape_char(s[0], escaped(tail) + seq!['"'] + rest);
        assert(escaped(s) + seq!['"'] + rest =~= escape_char(s[0]) + (escaped(tail) + seq!['"']
            + rest));
        assert(seq![s[0]] + tail =~= s);
    }
}

/// The characters of a text, in order.
pub(crate) fn chars_of(text: &str) -> (r: Vec<char>)
    ensures
        r@ == text@,
{
    let n = text.unicode_len();
    let mut out: Vec<char> = Vec::new();
    let mut i: usize = 0;
    while i < n
        invariant
            n == text@.len(),
            i <= n,
            out@ == text@.take(i as int),
        decreases n - i,
    {
        out.push(text.get_char(i));
        assert(out@ =~= text@.take(i + 1));
        i = i + 1;
    }
    assert(text@.take(n as int) =~= text@);
    out
}

/// Relies on `Iterator::collect` into a `String`: the text of the characters, in order.
#[verifier::external_body]
pub(crate) fn string_of(chars: &Vec<char>) -> (r: String)
    ensures
        r@ == chars@,
{
    chars.iter().collect()
}

/// Appends the canonical decimal text of `n`.
pub fn push_decimal(out: &mut Vec<char>, n: usize)
    ensures
        final(out)@ == old(out)@ + decimal(n as nat),
    decreases n,
{
    if n >= 10 {
        push_decimal(out, n / 10);
    }
    let d: usize = n % 10;
    out.push(((d + 48) as u8) as char);
    assert(final(out)@ =~= old(out)@ + decimal(n as nat));
}

/// Appends `s` as it is written inside a JSON string.
pub fn push_escaped(out: &mut Vec<char>, s: &Vec<char>)
    ensures
        final(out)@ == old(out)@ + escaped(s@),
{
    let mut i: usize = 0;
    assert(s@.take(0) =~= Seq::<char>::empty());
    while i < s.len()
        invariant
            i <= s@.len(),
            out@ == old(out)@ + escaped(s@.take(i as int)),
        decreases s@.len() - i,
    {
        let c = s[i];
        if c == '"' {
            out.push('\\');
            out.push('"');
        } else if c == '\\' {
            out.push('\\');
            out.push('\\');
        } else if (c as u32) < 32 {
            let v = c as u32;
            assert(v < 32);
            out.push('\\');
            out.push('u');
            out.push('0');
            out.push('0');
            out.push(hex_digit(v / 16));
            out.push(hex_digit(v % 16));
        } else {
            out.push(c);
        }
        assert(s@.take(i + 1).drop_last() =~= s@.take(i as int));
        assert(out@ =~= old(out)@ + escaped(s@.take(i + 1)));
        i = i + 1;
    }
    assert(s@.take(s@.len() as int) =~= s@);
}

/// The lower-case hex digit for `d`.
fn hex_digit(d: u32) -> (r: char)
    requires
        d < 16,
    ensures
        r == hex_char(d as nat),
{
    if d < 10 {
        ((d + 48) as u8) as char
    } else {
        ((d + 87) as u8) as char
    }
}

/// Builds the payload text of the claim `(sub, exp)` under audience `aud`.
pub fn render_payload(aud: &Vec<char>, exp: usize, sub: &Vec<char>) -> (r: Vec<char>)
    ensures
        r@ == claim_payload(aud@, exp as nat, sub@),
{
    let mut out: Vec<char> = vec!['{', '"', 'a', 'u', 'd', '"', ':', '"'];
    push_escaped(&mut out, aud);
    out.extend_from_slice(&['"', ',', '"', 'e', 'x', 'p', '"', ':']);
    push_decimal(&mut out, exp);
    out.extend_from_slice(&[',', '"', 's', 'u', 'b', '"', ':', '"']);
    push_escaped(&mut out, sub);
    out.extend_from_slice(&['"', '}']);
    assert(out@ =~= claim_payload(aud@, exp as nat, sub@));
    out
}

/// The facts a reader of a payload relies on, laid out by position.
proof fn lemma_payload_layout(text: Seq<char>, aud: Seq<char>, exp: nat, sub: Seq<char>)
    requires
        is_claim_payload(text, aud, exp, sub),
    ensures
        ({
            let aud_end: int = 8 + escaped(aud).len() as int;
            let digits_start: int = aud_end + 8;
            let digits_end: int = digits_start + decimal(exp).len() as int;
            let sub_start: int = digits_end + 8;
            let sub_end: int = sub_start + escaped(sub).len() as int;
            &&& text.len() == sub_end + 2
            &&& unescape(text.subrange(8, text.len() as int)) == Some(
                (aud, escaped(aud).len() as int),
            )
            &&& forall|i: int| digits_start <= i < digits_end ==> is_digit(#[trigger] text[i])
            &&& !is_digit(text[digits_end])
            &&& digits_value(text.subrange(digits_start, digits_end)) == exp
            &&& unescape(text.subrange(sub_start, text.len() as int)) == Some(
                (sub, escaped(sub).len() as int),
            )
        }),
{
    let d = decimal(exp);
    lemma_decimal(exp);
    let ea = escaped(aud);
    let es = escaped(sub);
    let aud_end: int = 8 + ea.len() as int;
    let digits_start: int = aud_end + 8;
    let digits_end: int = digits_start + d.len() as int;
    let sub_start: int = digits_end + 8;
    let n = text.len() as int;
    let after_aud = text.subrange(aud_end + 1, n);
    assert(text.subrange(8, n) =~= ea + seq!['"'] + after_aud);
    lemma_unescape_escaped(aud, after_aud);
    assert(text.subrange(digits_start, digits_end) =~= d);
    assert forall|i: int| digits_start <= i < digits_end implies is_digit(#[trigger] text[i]) by {
        assert(text[i] == d[i - digits_start]);
    }
    assert(text[digits_end] == sub_key()[0]);
    assert(text.subrange(sub_start, n) =~= es + seq!['"'] + seq!['}']);
    lemma_unescape_escaped(sub, seq!['}']);
}

/// Reads the inside of a JSON string that starts at `from`; on success, the
/// characters and the position of the closing quote.
fn read_escaped(text: &Vec<char>, from: usize) -> (r: Option<(Vec<char>, usize)>)
    requires
        from <= text@.len(),
    ensures
        r matches Some(p) ==> from <= p.1 < text@.len() && unescape(
            text@.subrange(from as int, text@.len() as int),
        ) == Some((p.0@, p.1 - from)),
        r is None ==> unescape(text@.subrange(from as int, text@.len() as int)) is None,
{
    let n = text.len();
    let mut out: Vec<char> = Vec::new();
    let mut i = from;
    assert(after(Seq::<char>::empty(), 0, unescape(text@.subrange(i as int, n as int)))
        =~= unescape(text@.subrange(i as int, n as int)));
    while i < n
        invariant
            n == text@.len(),
            from <= i <= n,
            unescape(text@.subrange(from as int, n as int)) == after(
                out@,
                i - from,
                unescape(text@.subrange(i as int, n as int)),
            ),
        decreases n - i,
    {
        let ghost t = text@.subrange(i as int, n as int);
        let ghost prev = out@;
        let c = text[i];
        assert(t[0] == c);
        if c == '"' {
            assert(out@ + Seq::<char>::empty() =~= out@);
            return Some((out, i));
        }
        let step: usize;
        if c == '\\' {
            if n - i >= 2 && (text[i + 1] == '"' || text[i + 1] == '\\') {
                out.push(text[i + 1]);
                step = 2;
            } else if n - i >= 6 && text[i + 1] == 'u' && text[i + 2] == '0' && text[i + 3] == '0'
                && (text[i + 4] == '0' || text[i + 4] == '1') && (('0' <= text[i + 5] && text[i
                + 5] <= '9') || ('a' <= text[i + 5] && text[i + 5] <= 'f')) {
                let hi = text[i + 4] as u32 - 48;
                let lo_c = text[i + 5];
                let lo = if lo_c <= '9' {
                    lo_c as u32 - 48
                } else {
                    lo_c as u32 - 87
                };
                out.push(((hi * 16 + lo) as u8) as char);
                assert(t[4] == text@[i + 4]);
                assert(t[5] == text@[i + 5]);
                step = 6;
            } else {
                return None;
            }
        } else if (c as u32) < 32 {
            return None;
        } else {
            out.push(c);
            step = 1;
        }
        assert(t.skip(step as int) =~= text@.subrange(i + step, n as int));
        proof {
            let more = unescape(text@.subrange(i + step, n as int));
            assert(out@ == prev.push(out@.last()));
            assert(unescape(t) == after(seq![out@.last()], step as int, more));
            if more is Some {
                let r = more->Some_0;
                assert(prev + (seq![out@.last()] + r.0) =~= out@ + r.0);
            }
        }
        i = i + step;
    }
    None
}

/// The end of the run of digits that starts at `from`, and its value when
/// that fits a `usize`.
fn read_digits(text: &Vec<char>, from: usize) -> (r: (usize, Option<usize>))
    requires
        from <= text@.len(),
    ensures
        from <= r.0 <= text@.len(),
        forall|i: int| from <= i < r.0 ==> is_digit(#[trigger] text@[i]),
        r.0 < text@.len() ==> !is_digit(text@[r.0 as int]),
        r.1 matches Some(v) ==> v == digits_value(text@.subrange(from as int, r.0 as int)),
        r.1 is None ==> digits_value(text@.subrange(from as int, r.0 as int)) > usize::MAX,
{
    let mut i = from;
    let mut value: Option<usize> = Some(0);
    assert(text@.subrange(from as int, from as int) =~= Seq::<char>::empty());
    while i < text.len() && '0' <= text[i] && text[i] <= '9'
        invariant
            from <= i <= text@.len(),
            forall|j: int| from <= j < i ==> is_digit(#[trigger] text@[j]),
            value matches Some(v) ==> v == digits_value(text@.subrange(from as int, i as int)),
            value is None ==> digits_value(text@.subrange(from as int, i as int)) > usize::MAX,
        decreases text@.len() - i,
    {
        let ghost before = text@.subrange(from as int, i as int);
        let ghost after = text@.subrange(from as int, i + 1);
        assert(after.drop_last() =~= before);
        assert(digits_value(after) == digits_value(before) * 10 + digit_value(text@[i as int]));
        let d = (text[i] as u32 - 48) as usize;
        value = match value {
            Some(v) => {
                if v > (usize::MAX - d) / 10 {
                    assert(v * 10 + d > usize::MAX) by (nonlinear_arith)
                        requires
                            v > (usize::MAX - d) / 10,
                            d <= 9,
                    ;
                    None
                } else {
                    assert(v * 10 + d <= usize::MAX) by (nonlinear_arith)
                        requires
                            v <= (usize::MAX - d) / 10,
                            d <= 9,
                    ;
                    Some(v * 10 + d)
                }
            },
            None => {
                assert(digits_value(before) >= 0) by {
                    lemma_digits_value_nonneg(before);
                }
                None
            },
        };
        i = i + 1;
    }
    (i, value)
}

proof fn lemma_digits_value_nonneg(s: Seq<char>)
    requires
        forall|i: int| 0 <= i < s.len() ==> is_digit(#[trigger] s[i]),
    ensures
        digits_value(s) >= 0,
    decreases s.len(),
{
    if s.len() > 0 {
        lemma_digits_value_nonneg(s.drop_last());
    }
}

/// The characters of `text` from `from` up to `to`.
fn copy_range(text: &Vec<char>, from: usize, to: usize) -> (r: Vec<char>)
    requires
        from <= to <= text@.len(),
    ensures
        r@ == text@.subrange(from as int, to as int),
{
    vstd::slice::slice_to_vec(vstd::slice::slice_subrange(text.as_slice(), from, to))
}

/// Whether two character strings are equal.
pub(crate) fn chars_equal(a: &Vec<char>, b: &Vec<char>) -> (r: bool)
    ensures
        r == (a@ == b@),
{
    if a.len() != b.len() {
        return false;
    }
    let mut i: usize = 0;
    while i < a.len()
        invariant
            a@.len() == b@.len(),
            i <= a@.len(),
            forall|j: int| 0 <= j < i ==> a@[j] == b@[j],
        decreases a@.len() - i,
    {
        if a[i] != b[i] {
            return false;
        }
        i = i + 1;
    }
    assert(a@ =~= b@);
    true
}


/// Reads a payload back into its audience, expiration and subject; only the
/// exact form that [`render_payload`] writes is accepted.
pub fn read_payload(text: &Vec<char>) -> (r: Option<(Vec<char>, usize, Vec<char>)>)
    ensures
        r matches Some(f) ==> is_claim_payload(text@, f.0@, f.1 as nat, f.2@),
        r is None ==> !is_some_payload(text@),
{
    let ghost has = is_some_payload(text@);
    let ghost (wa, we, ws) = choose|a: Seq<char>, e: nat, s: Seq<char>|
        e <= usize::MAX && #[trigger] is_claim_payload(text@, a, e, s);
    let ghost aud_end: int = 8 + escaped(wa).len() as int;
    let ghost digits_end: int = aud_end + 8 + decimal(we).len() as int;
    proof {
        if has {
            lemma_payload_layout(text@, wa, we, ws);
        }
    }
    let n = text.len();
    if n < 8 {
        return None;
    }
    let (aud, i) = match read_escaped(text, 8) {
        Some(found) => found,
        None => return None,
    };
    assert(has ==> i == aud_end && aud@ == wa);
    if n - i < 8 {
        return None;
    }
    let (j, value) = read_digits(text, i + 8);
    assert(has ==> j == digits_end);
    if n - j < 8 {
        return None;
    }
    let (sub, k) = match read_escaped(text, j + 8) {
        Some(found) => found,
        None => return None,
    };
    assert(has ==> sub@ == ws);
    let v = match value {
        Some(v) => v,
        None => return None,
    };
    assert(has ==> v == we);
    let rendered = render_payload(&aud, v, &sub);
    if !chars_equal(&rendered, text) {
        return None;
    }
    Some((aud, v, sub))
}

/// A payload names one claim only.
pub proof fn lemma_payload_unique(
    text: Seq<char>,
    a1: Seq<char>,
    e1: nat,
    s1: Seq<char>,
    a2: Seq<char>,
    e2: nat,
    s2: Seq<char>,
)
    requires
        is_claim_payload(text, a1, e1, s1),
        is_claim_payload(text, a2, e2, s2),
    ensures
        a1 == a2,
        e1 == e2,
        s1 == s2,
{
    lemma_payload_layout(text, a1, e1, s1);
    lemma_payload_layout(text, a2, e2, s2);
    let q: int = 8 + escaped(a1).len() as int;
    let d1: int = q + 8 + decimal(e1).len() as int;
    let d2: int = q + 8 + decimal(e2).len() as int;
    if d1 < d2 {
        assert(is_digit(text[d1]));
    } else if d2 < d1 {
        assert(is_digit(text[d2]));
    }
}

/// A payload written for a claim reads back as that claim under the audience
/// it was written with, and as no claim under any other audience.
pub proof fn lemma_payload_round_trip(
    aud: Seq<char>,
    exp: nat,
    sub: Seq<char>,
    other_aud: Seq<char>,
    other_exp: nat,
    other_sub: Seq<char>,
)
    ensures
        is_claim_payload(claim_payload(aud, exp, sub), aud, exp, sub),
        is_claim_payload(claim_payload(aud, exp, sub), other_aud, other_exp, other_sub) ==> (
        other_aud == aud && other_exp == exp && other_sub == sub),
{
    if is_claim_payload(claim_payload(aud, exp, sub), other_aud, other_exp, other_sub) {
        lemma_payload_unique(
            claim_payload(aud, exp, sub),
            aud,
            exp,
            sub,
            other_aud,
            other_exp,
            other_sub,
        );
    }
}

/// The authenticated fact a session token carries.
#[derive(Debug, Clone, PartialEq, Eq)]
pub struct Claim {
    /// Subject: the canonical text of the authenticated key.
    pub sub: String,
    /// Expiration, in seconds since the epoch.
    pub exp: usize,
}

impl Claim {
    /// A claim for `sub` that lasts `duration_sec` seconds from `now`.
    pub fn create(sub: String, duration_sec: usize, now: usize) -> (r: Claim)
        requires
            now + duration_sec <= usize::MAX,
        ensures
            r.sub@ == sub@,
            r.exp == now + duration_sec,
    {
        Claim { sub, exp: now + duration_sec }
    }

    /// Whether the claim has expired at `now`.
    pub fn expired(&self, now: usize) -> (r: bool)
        ensures
            r == (self.exp < now),
    {
        self.exp < now
    }
}

} // verus!
