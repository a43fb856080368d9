//! The line layout of the pretty console exporter:
//! `[severity:millis] body [attributes]`, with the severity right-aligned in 5 columns and the
//! milliseconds in 6.

use vstd::prelude::*;
use crate::protocol::Severity;
use crate::text::push_char;

verus! {

/// The character of a decimal digit.
pub open spec fn digit_char(d: nat) -> char {
    (d + 48) as char
}

/// The decimal digits of `n`, without leading zeros.
pub open spec fn decimal(n: nat) -> Seq<char>
    decreases n,
{
    if n < 10 {
        seq![digit_char(n)]
    } else {
        decimal(n / 10).push(digit_char(n % 10))
    }
}

/// `n` spaces.
pub open spec fn spaces(n: nat) -> Seq<char> {
    Seq::new(n, |i: int| ' ')
}

/// `s` right-aligned in `w` columns: padded with spaces on the left if shorter.
pub open spec fn pad_left(s: Seq<char>, w: nat) -> Seq<char> {
    if s.len() >= w {
        s
    } else {
        spaces((w - s.len()) as nat) + s
    }
}

/// The name of a severity, as its `Debug` form writes it.
pub open spec fn severity_name(s: Severity) -> Seq<char> {
    match s {
        Severity::Trace => seq!['T', 'r', 'a', 'c', 'e'],
        Severity::Debug => seq!['D', 'e', 'b', 'u', 'g'],
        Severity::Info => seq!['I', 'n', 'f', 'o'],
        Severity::Warn => seq!['W', 'a', 'r', 'n'],
        Severity::Error => seq!['E', 'r', 'r', 'o', 'r'],
        Severity::Fatal => seq!['F', 'a', 't', 'a', 'l'],
    }
}

/// Texts joined with `, ` between them.
pub open spec fn join_comma(texts: Seq<Seq<char>>) -> Seq<char>
    decreases texts.len(),
{
    if texts.len() == 0 {
        Seq::empty()
    } else if texts.len() == 1 {
        texts[0]
    } else {
        join_comma(texts.drop_last()) + seq![',', ' '] + texts.last()
    }
}

/// The attributes part: nothing without attributes, else ` [` the texts joined `]`.
pub open spec fn attribute_suffix(texts: Seq<Seq<char>>) -> Seq<char> {
    if texts.len() == 0 {
        Seq::empty()
    } else {
        seq![' ', '['] + join_comma(texts) + seq![']']
    }
}

/// The line written for a log: `[severity:millis] body attributes` and a newline, the
/// milliseconds being the nanoseconds divided by a million, rounded down.
pub open spec fn log_line(severity: Severity, time_unix_nano: u64, body: Seq<char>, texts: Seq<Seq<char>>) -> Seq<char> {
    seq!['['] + pad_left(severity_name(severity), 5) + seq![':'] + pad_left(
        decimal((time_unix_nano / 1_000_000) as nat),
        6,
    ) + seq![']', ' '] + body + attribute_suffix(texts) + seq!['\n']
}

/// Appends the characters of `s`.
pub(crate) fn push_str_chars(out: &mut String, s: &str)
    ensures
        final(out)@ == old(out)@ + s@,
{
    let chars = crate::text::chars_of(s);
    for i in 0..chars.len()
        invariant
            out@ == old(out)@ + chars@.take(i as int),
            chars@ == s@,
    {
        push_char(out, chars[i]);
        assert(chars@.take(i + 1) =~= chars@.take(i as int).push(chars@[i as int]));
    }
    assert(chars@.take(chars.len() as int) =~= chars@);
}

/// Appends `n` spaces.
pub(crate) fn push_spaces(out: &mut String, n: usize)
    ensures
        final(out)@ == old(out)@ + spaces(n as nat),
{
    for i in 0..n
        invariant
            out@ == old(out)@ + spaces(i as nat),
    {
        push_char(out, ' ');
        assert(spaces((i + 1) as nat) =~= spaces(i as nat).push(' '));
    }
}

/// The decimal digits of `n`.
fn decimal_text(n: u64) -> (r: Vec<char>)
    ensures
        r@ == decimal(n as nat),
    decreases n,
{
    if n < 10 {
        let c = ((n as u8) + 48) as char;
        vec![c]
    } else {
        let mut r = decimal_text(n / 10);
        let d = ((n % 10) as u8 + 48) as char;
        r.push(d);
        r
    }
}

/// Appends `s` right-aligned in `w` columns.
fn push_padded(out: &mut String, s: &Vec<char>, w: usize)
    ensures
        final(out)@ == old(out)@ + pad_left(s@, w as nat),
{
    if s.len() < w {
        push_spaces(out, w - s.len());
    }
    let ghost mid = out@;
    for i in 0..s.len()
        invariant
            out@ == mid + s@.take(i as int),
    {
        push_char(out, s[i]);
        assert(s@.take(i + 1) =~= s@.take(i as int).push(s@[i as int]));
    }
    assert(s@.take(s.len() as int) =~= s@);
}

/// The name of a severity, as its `Debug` form writes it.
pub(crate) fn severity_text(s: Severity) -> (r: Vec<char>)
    ensures
        r@ == severity_name(s),
{
    let r = match s {
        Severity::Trace => vec!['T', 'r', 'a', 'c', 'e'],
        Severity::Debug => vec!['D', 'e', 'b', 'u', 'g'],
        Severity::Info => vec!['I', 'n', 'f', 'o'],
        Severity::Warn => vec!['W', 'a', 'r', 'n'],
        Severity::Error => vec!['E', 'r', 'r', 'o', 'r'],
        Severity::Fatal => vec!['F', 'a', 't', 'a', 'l'],
    };
    assert(r@ =~= severity_name(s));
    r
}

/// Appends the characters of `s`.
pub(crate) fn push_chars(out: &mut String, s: &Vec<char>)
    ensures
        final(out)@ == old(out)@ + s@,
{
    for i in 0..s.len()
        invariant
            out@ == old(out)@ + s@.take(i as int),
    {
        push_char(out, s[i]);
        assert(s@.take(i + 1) =~= s@.take(i as int).push(s@[i as int]));
    }
    assert(s@.take(s.len() as int) =~= s@);
}

/// Appends the texts joined with `, ` between them.
pub(crate) fn push_joined(out: &mut String, texts: &Vec<String>)
    ensures
        final(out)@ == old(out)@ + join_comma(texts@.map_values(|t: String| t@)),
{
    let ghost all = texts@.map_values(|t: String| t@);
    assert(all.take(0) =~= Seq::<Seq<char>>::empty());
    for i in 0..texts.len()
        invariant
            all == texts@.map_values(|t: String| t@),
            out@ == old(out)@ + join_comma(all.take(i as int)),
    {
        let ghost before = out@;
        if i > 0 {
            push_char(out, ',');
            push_char(out, ' ');
        }
        push_str_chars(out, texts[i].as_str());
        proof {
            let t = all.take(i + 1);
            assert(t.drop_last() =~= all.take(i as int));
            assert(t.last() == texts[i as int]@);
            if i == 0 {
                assert(join_comma(all.take(i as int)) =~= Seq::<char>::empty());
                assert(join_comma(t) == t[0]);
                assert(out@ =~= old(out)@ + join_comma(t));
            } else {
                assert(out@ =~= old(out)@ + join_comma(t));
            }
        }
    }
    assert(all.take(texts.len() as int) =~= all);
}

/// The line the pretty exporter writes for a log, given the texts of its attributes (each
/// `key: value`).
pub fn format_log_line(severity: Severity, time_unix_nano: u64, body: &str, attribute_texts: &Vec<String>) -> (r: String)
    ensures
        r@ == log_line(
            severity,
            time_unix_nano,
            body@,
            attribute_texts@.map_values(|t: String| t@),
        ),
{
    let mut out = String::new();
    push_char(&mut out, '[');
    push_padded(&mut out, &severity_text(severity), 5);
    push_char(&mut out, ':');
    push_padded(&mut out, &decimal_text(time_unix_nano / 1_000_000), 6);
    push_char(&mut out, ']');
    push_char(&mut out, ' ');
    push_str_chars(&mut out, body);
    let ghost before = out@;
    let texts = Ghost(attribute_texts@.map_values(|t: String| t@));
    let n = attribute_texts.len();
    if n > 0 {
        push_char(&mut out, ' ');
        push_char(&mut out, '[');
        let ghost open = out@;
        for i in 0..n
            invariant
                n == attribute_texts.len(),
                n > 0,
                texts@ == attribute_texts@.map_values(|t: String| t@),
                i == 0 ==> out@ == open,
                i > 0 ==> out@ == open + join_comma(texts@.take(i as int)),
        {
            if i > 0 {
                push_char(&mut out, ',');
                push_char(&mut out, ' ');
            }
            push_str_chars(&mut out, attribute_texts[i].as_str());
            proof {
                let t = texts@.take(i + 1);
                assert(t.drop_last() =~= texts@.take(i as int));
                assert(t.last() == attribute_texts[i as int]@);
                if i == 0 {
                    assert(t.len() == 1);
                }
            }
        }
        assert(texts@.take(n as int) =~= texts@);
        push_char(&mut out, ']');
    }
    push_char(&mut out, '\n');
    assert(out@ =~= log_line(severity, time_unix_nano, body@, texts@));
    out
}

} // verus!
