//! The canonical line form of a trace record: one JSON object per line,
//! optional fields omitted entirely, built and specified character by
//! character.

use vstd::prelude::*;
use vstd::string::*;
use crate::event::{EventType, TraceEvent};

verus! {

broadcast use vstd::string::group_string_axioms;

/// The character for one decimal digit.
pub open spec fn digit_char(d: nat) -> char {
    if d == 0 {
        '0'
    } else if d == 1 {
        '1'
    } else if d == 2 {
        '2'
    } else if d == 3 {
        '3'
    } else if d == 4 {
        '4'
    } else if d == 5 {
        '5'
    } else if d == 6 {
        '6'
    } else if d == 7 {
        '7'
    } else if d == 8 {
        '8'
    } else {
        '9'
    }
}

/// The decimal form of a natural number, most significant digit first.
pub open spec fn decimal_str(n: nat) -> Seq<char>
    decreases n,
{
    if n < 10 {
        seq![digit_char(n)]
    } else {
        decimal_str(n / 10).push(digit_char(n % 10))
    }
}

/// The character for one hexadecimal digit.
pub open spec fn hex_char(d: nat) -> char {
    if d < 10 {
        digit_char(d)
    } else if d == 10 {
        'a'
    } else if d == 11 {
        'b'
    } else if d == 12 {
        'c'
    } else if d == 13 {
        'd'
    } else if d == 14 {
        'e'
    } else {
        'f'
    }
}

/// The escape of one character inside a JSON string: quote, backslash and
/// the named control characters get two-character escapes, every other
/// control character a `\u00..` escape, and everything else stands as is.
pub open spec fn escape_char(c: char) -> Seq<char> {
    if c == '"' {
        seq!['\\', '"']
    } else if c == '\\' {
        seq!['\\', '\\']
    } else if c == '\n' {
        seq!['\\', 'n']
    } else if c == '\r' {
        seq!['\\', 'r']
    } else if c == '\t' {
        seq!['\\', 't']
    } else if (c as u32) < 32 {
        seq!['\\', 'u', '0', '0', hex_char((c as u32 / 16) as nat), hex_char((c as u32 % 16) as nat)]
    } else {
        seq![c]
    }
}

/// A text with every character escaped for JSON.
pub open spec fn json_escaped(s: Seq<char>) -> Seq<char>
    decreases s.len(),
{
    if s.len() == 0 {
        Seq::empty()
    } else {
        json_escaped(s.drop_last()) + escape_char(s.last())
    }
}

/// A JSON string: the escaped text between quotes.
pub open spec fn json_string(s: Seq<char>) -> Seq<char> {
    seq!['"'] + json_escaped(s) + seq!['"']
}

proof fn lemma_json_escaped_take_succ(s: Seq<char>, k: int)
    requires
        0 <= k < s.len(),
    ensures
        json_escaped(s.take(k + 1)) == json_escaped(s.take(k)) + escape_char(s[k]),
{
    assert(s.take(k + 1).drop_last() =~= s.take(k));
    assert(s.take(k + 1).last() == s[k]);
}

/// Append one decimal digit to `out`.
fn push_digit(out: &mut String, d: u8)
    requires
        d < 10,
    ensures
        final(out)@ == old(out)@ + seq![digit_char(d as nat)],
{
    let piece: &str = match d {
        0 => "0",
        1 => "1",
        2 => "2",
        3 => "3",
        4 => "4",
        5 => "5",
        6 => "6",
        7 => "7",
        8 => "8",
        _ => "9",
    };
    proof {
        reveal_strlit("0");
        reveal_strlit("1");
        reveal_strlit("2");
        reveal_strlit("3");
        reveal_strlit("4");
        reveal_strlit("5");
        reveal_strlit("6");
        reveal_strlit("7");
        reveal_strlit("8");
        reveal_strlit("9");
        assert(piece@ =~= seq![digit_char(d as nat)]);
    }
    out.append(piece);
}

/// Append one hexadecimal digit to `out`.
fn push_hex_digit(out: &mut String, d: u8)
    requires
        d < 16,
    ensures
        final(out)@ == old(out)@ + seq![hex_char(d as nat)],
{
    if d < 10 {
        push_digit(out, d);
    } else {
        let piece: &str = match d {
            10 => "a",
            11 => "b",
            12 => "c",
            13 => "d",
            14 => "e",
            _ => "f",
        };
        proof {
            reveal_strlit("a");
            reveal_strlit("b");
            reveal_strlit("c");
            reveal_strlit("d");
            reveal_strlit("e");
            reveal_strlit("f");
            assert(piece@ =~= seq![hex_char(d as nat)]);
        }
        out.append(piece);
    }
}

/// Append the decimal form of `n` to `out`.
pub fn push_decimal(out: &mut String, n: u64)
    ensures
        final(out)@ == old(out)@ + decimal_str(n as nat),
{
    let ghost base = out@;
    let mut digits: Vec<u8> = Vec::new();
    let mut cur: u64 = n;
    let ghost mut rest: Seq<char> = Seq::empty();
    while cur >= 10
        invariant
            out@ == base,
            decimal_str(n as nat) == decimal_str(cur as nat) + rest,
            forall|i: int| 0 <= i < digits@.len() ==> digits@[i] < 10,
            rest.len() == digits@.len(),
            forall|i: int|
                0 <= i < digits@.len() ==> rest[rest.len() - 1 - i] == digit_char(
                    digits@[i] as nat,
                ),
        decreases cur,
    {
        let d = (cur % 10) as u8;
        let ghost rest0 = rest;
        digits.push(d);
        proof {
            rest = seq![digit_char(d as nat)] + rest0;
            assert(decimal_str(cur as nat) == decimal_str((cur / 10) as nat).push(
                digit_char((cur % 10) as nat),
            ));
            assert(decimal_str((cur / 10) as nat).push(digit_char(d as nat)) + rest0
                =~= decimal_str((cur / 10) as nat) + rest);
            assert(decimal_str(n as nat) == decimal_str((cur / 10) as nat) + rest);
        }
        cur = cur / 10;
    }
    push_digit(out, cur as u8);
    let ghost mid = out@;
    proof {
        assert(decimal_str(cur as nat) == seq![digit_char(cur as nat)]);
    }
    let len = digits.len();
    let mut j: usize = len;
    while j > 0
        invariant
            len == digits@.len(),
            j <= len,
            forall|i: int| 0 <= i < digits@.len() ==> digits@[i] < 10,
            rest.len() == digits@.len(),
            forall|i: int|
                0 <= i < digits@.len() ==> rest[rest.len() - 1 - i] == digit_char(
                    digits@[i] as nat,
                ),
            out@ == mid + rest.take((len - j) as int),
        decreases j,
    {
        j = j - 1;
        push_digit(out, digits[j]);
        proof {
            assert(rest[(len - j - 1) as int] == digit_char(digits@[j as int] as nat));
            assert(rest.take((len - j) as int) =~= rest.take((len - j - 1) as int).push(
                rest[(len - j - 1) as int],
            ));
            assert(mid + rest.take((len - j - 1) as int) + seq![digit_char(digits@[j as int] as nat)]
                =~= mid + rest.take((len - j) as int));
        }
    }
    proof {
        assert(rest.take(rest.len() as int) =~= rest);
        assert(mid + rest =~= base + decimal_str(n as nat));
    }
}

/// Append `s` as a JSON string, quotes and escapes included.
pub fn push_json_string(out: &mut String, s: &str)
    ensures
        final(out)@ == old(out)@ + json_string(s@),
{
    let ghost base = out@;
    out.append("\"");
    proof {
        reveal_strlit("\"");
        assert("\""@ =~= seq!['"']);
    }
    let n = s.unicode_len();
    let mut k: usize = 0;
    proof {
        assert(s@.take(0) =~= Seq::<char>::empty());
        assert(out@ =~= base + seq!['"'] + json_escaped(s@.take(0)));
    }
    while k < n
        invariant
            n as nat == s@.len(),
            k <= n,
            out@ == base + seq!['"'] + json_escaped(s@.take(k as int)),
        decreases n - k,
    {
        let c = s.get_char(k);
        proof {
            lemma_json_escaped_take_succ(s@, k as int);
        }
        let ghost before = out@;
        if c == '"' {
            out.append("\\\"");
            proof {
                reveal_strlit("\\\"");
                assert("\\\""@ =~= escape_char(c));
            }
        } else if c == '\\' {
            out.append("\\\\");
            proof {
                reveal_strlit("\\\\");
                assert("\\\\"@ =~= escape_char(c));
            }
        } else if c == '\n' {
            out.append("\\n");
            proof {
                reveal_strlit("\\n");
                assert("\\n"@ =~= escape_char(c));
            }
        } else if c == '\r' {
            out.append("\\r");
            proof {
                reveal_strlit("\\r");
                assert("\\r"@ =~= escape_char(c));
            }
        } else if c == '\t' {
            out.append("\\t");
            proof {
                reveal_strlit("\\t");
                assert("\\t"@ =~= escape_char(c));
            }
        } else if (c as u32) < 32 {
            out.append("\\u00");
            let v = c as u32;
            push_hex_digit(out, (v / 16) as u8);
            push_hex_digit(out, (v % 16) as u8);
            proof {
                reveal_strlit("\\u00");
                assert("\\u00"@ =~= seq!['\\', 'u', '0', '0']);
                assert(out@ =~= before + escape_char(c));
            }
        } else {
            let piece = s.substring_char(k, k + 1);
            proof {
                assert(piece@ =~= seq![s@[k as int]]);
                assert(piece@ =~= escape_char(c));
            }
            out.append(piece);
        }
        proof {
            assert(out@ =~= base + seq!['"'] + json_escaped(s@.take(k as int + 1)));
        }
        k = k + 1;
    }
    out.append("\"");
    proof {
        assert(s@.take(n as int) =~= s@);
        assert(out@ =~= base + json_string(s@));
    }
}

/// The upper-case label of one event kind.
pub open spec fn kind_label(k: EventType) -> Seq<char> {
    match k {
        EventType::Enter => "ENTER"@,
        EventType::Exit => "EXIT"@,
        EventType::Exception => "EXCEPTION"@,
    }
}

pub open spec fn opt_text_field(label: Seq<char>, v: Option<String>) -> Seq<char> {
    match v {
        Some(s) => label + json_string(s@),
        None => Seq::empty(),
    }
}

pub open spec fn opt_int_field(label: Seq<char>, v: Option<i64>) -> Seq<char> {
    match v {
        Some(d) => label + decimal_str(d as nat),
        None => Seq::empty(),
    }
}

/// One record's canonical line: a JSON object whose optional fields are
/// omitted entirely when absent, in the fixed order `event`, `timestamp`,
/// `class`, `method`, `args`, `result`, `exception`, `durationMillis`,
/// `durationMicros`, `thread`.
pub open spec fn event_line_spec(e: TraceEvent) -> Seq<char> {
    "{\"event\":"@ + json_string(kind_label(e.event_type)) + ",\"timestamp\":"@ + decimal_str(
        e.timestamp as nat,
    ) + ",\"class\":"@ + json_string(e.module@) + ",\"method\":"@ + json_string(e.function@)
        + opt_text_field(",\"args\":"@, e.args) + opt_text_field(",\"result\":"@, e.result)
        + opt_text_field(",\"exception\":"@, e.exception) + opt_int_field(
        ",\"durationMillis\":"@,
        e.duration_millis,
    ) + opt_int_field(",\"durationMicros\":"@, e.duration_micros) + ",\"thread\":"@ + json_string(
        e.thread@,
    ) + "}"@
}

/// Serialise one well-formed record to its canonical line, exactly as
/// [`event_line_spec`] states.
pub fn event_line(e: &TraceEvent) -> (r: String)
    requires
        e.well_formed(),
    ensures
        r@ == event_line_spec(*e),
{
    let mut out = String::new();
    out.append("{\"event\":");
    match e.event_type {
        EventType::Enter => push_json_string(&mut out, "ENTER"),
        EventType::Exit => push_json_string(&mut out, "EXIT"),
        EventType::Exception => push_json_string(&mut out, "EXCEPTION"),
    }
    out.append(",\"timestamp\":");
    push_decimal(&mut out, e.timestamp as u64);
    out.append(",\"class\":");
    push_json_string(&mut out, e.module.as_str());
    out.append(",\"method\":");
    push_json_string(&mut out, e.function.as_str());
    match &e.args {
        Some(s) => {
            out.append(",\"args\":");
            push_json_string(&mut out, s.as_str());
        },
        None => {},
    }
    match &e.result {
        Some(s) => {
            out.append(",\"result\":");
            push_json_string(&mut out, s.as_str());
        },
        None => {},
    }
    match &e.exception {
        Some(s) => {
            out.append(",\"exception\":");
            push_json_string(&mut out, s.as_str());
        },
        None => {},
    }
    match &e.duration_millis {
        Some(d) => {
            out.append(",\"durationMillis\":");
            push_decimal(&mut out, *d as u64);
        },
        None => {},
    }
    match &e.duration_micros {
        Some(d) => {
            out.append(",\"durationMicros\":");
            push_decimal(&mut out, *d as u64);
        },
        None => {},
    }
    out.append(",\"thread\":");
    push_json_string(&mut out, e.thread.as_str());
    out.append("}");
    proof {
        assert(out@ =~= event_line_spec(*e));
    }
    out
}

} // verus!
