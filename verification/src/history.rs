//! The transcript history: one JSON object per line.
use vstd::prelude::*;
use crate::text::{chars_of, decimal, decimal_chars, push_all, string_from_chars};

verus! {

/// The lowercase hexadecimal digit for `d < 16`.
pub open spec fn hex_digit(d: int) -> char {
    if d < 10 {
        (('0' as int) + d) as char
    } else {
        (('a' as int) + d - 10) as char
    }
}

/// How JSON writes one character inside a string: quote and backslash
/// escaped, the usual short escapes for backspace, tab, line feed, form
/// feed and carriage return, other control characters as `\u00XX`, and
/// everything else as itself.
pub open spec fn json_escape_char(c: char) -> Seq<char> {
    let u = c as u32;
    if c == '"' {
        seq!['\\', '"']
    } else if c == '\\' {
        seq!['\\', '\\']
    } else if u == 0x08 {
        seq!['\\', 'b']
    } else if u == 0x09 {
        seq!['\\', 't']
    } else if u == 0x0A {
        seq!['\\', 'n']
    } else if u == 0x0C {
        seq!['\\', 'f']
    } else if u == 0x0D {
        seq!['\\', 'r']
    } else if u < 0x20 {
        seq!['\\', 'u', '0', '0', hex_digit(u as int / 16), hex_digit(u as int % 16)]
    } else {
        seq![c]
    }
}

/// The escaped characters of a string.
pub open spec fn json_escaped(s: Seq<char>) -> Seq<char>
    decreases s.len(),
{
    if s.len() == 0 {
        seq![]
    } else {
        json_escaped(s.drop_last()) + json_escape_char(s.last())
    }
}

/// A string as a JSON string literal.
pub open spec fn json_quoted(s: Seq<char>) -> Seq<char> {
    seq!['"'] + json_escaped(s) + seq!['"']
}

/// Serializes a string with `serde_json::to_string`, which writes it as a
/// JSON string literal with the escapes of `json_escape_char` (its escape
/// table in `ser.rs`); serializing a `str` into memory does not fail.
#[verifier::external_body]
fn json_string(text: &str) -> (r: String)
    ensures
        r@ == json_quoted(text@),
{
    serde_json::to_string(text).unwrap_or_default()
}

/// One history line: the transcript and the Unix time it was saved at, as a
/// JSON object with its keys in sorted order, ended by a line feed.
pub open spec fn history_line_text(timestamp: u64, text: Seq<char>) -> Seq<char> {
    "{\"text\":"@ + json_quoted(text) + ",\"timestamp\":"@ + decimal(timestamp as nat) + "}\n"@
}

/// The history line for a transcript saved at `timestamp` (seconds since the
/// Unix epoch).
pub fn history_line(timestamp: u64, text: &str) -> (r: String)
    ensures
        r@ == history_line_text(timestamp, text@),
{
    let mut out = chars_of("{\"text\":");
    let quoted = json_string(text);
    push_all(&mut out, &chars_of(quoted.as_str()));
    push_all(&mut out, &chars_of(",\"timestamp\":"));
    push_all(&mut out, &decimal_chars(timestamp));
    push_all(&mut out, &chars_of("}\n"));
    string_from_chars(&out)
}

proof fn lemma_escaped_has_no_line_feed(s: Seq<char>)
    ensures
        forall|i: int| 0 <= i < json_escaped(s).len() ==> #[trigger] json_escaped(s)[i] != '\n',
    decreases s.len(),
{
    if s.len() > 0 {
        lemma_escaped_has_no_line_feed(s.drop_last());
        let c = s.last();
        let u = c as u32;
        let e = json_escape_char(c);
        if u < 0x20 {
            assert(hex_digit(u as int / 16) != '\n');
            assert(hex_digit(u as int % 16) != '\n');
        }
        assert(forall|i: int| 0 <= i < e.len() ==> #[trigger] e[i] != '\n');
        let prev = json_escaped(s.drop_last());
        assert(json_escaped(s) == prev + e);
        assert forall|i: int| 0 <= i < json_escaped(s).len() implies #[trigger] json_escaped(s)[i]
            != '\n' by {
            if i < prev.len() {
                assert(json_escaped(s)[i] == prev[i]);
            } else {
                assert(json_escaped(s)[i] == e[i - prev.len()]);
            }
        }
    }
}

proof fn lemma_decimal_has_no_line_feed(n: nat)
    ensures
        forall|i: int| 0 <= i < decimal(n).len() ==> #[trigger] decimal(n)[i] != '\n',
    decreases n,
{
    if n >= 10 {
        lemma_decimal_has_no_line_feed(n / 10);
        let prev = decimal(n / 10);
        assert forall|i: int| 0 <= i < decimal(n).len() implies #[trigger] decimal(n)[i] != '\n' by {
            if i < prev.len() {
                assert(decimal(n)[i] == prev[i]);
            }
        }
    }
}

/// A history entry is one line: its last character is the only line feed
/// in it, whatever the transcript holds.
pub proof fn law_history_entry_is_one_line(timestamp: u64, text: Seq<char>)
    ensures
        history_line_text(timestamp, text).last() == '\n',
        forall|i: int|
            0 <= i < history_line_text(timestamp, text).len() - 1 ==> #[trigger] history_line_text(
                timestamp,
                text,
            )[i] != '\n',
{
    reveal_strlit("{\"text\":");
    reveal_strlit(",\"timestamp\":");
    reveal_strlit("}\n");
    lemma_escaped_has_no_line_feed(text);
    lemma_decimal_has_no_line_feed(timestamp as nat);
    let a = "{\"text\":"@;
    let q = json_quoted(text);
    let b = ",\"timestamp\":"@;
    let d = decimal(timestamp as nat);
    let z = "}\n"@;
    let line = history_line_text(timestamp, text);
    assert(q == seq!['"'] + json_escaped(text) + seq!['"']);
    assert forall|i: int| 0 <= i < q.len() implies #[trigger] q[i] != '\n' by {
        if 0 < i < q.len() - 1 {
            assert(q[i] == json_escaped(text)[i - 1]);
        }
    }
    assert(line == a + q + b + d + z);
    assert forall|i: int| 0 <= i < line.len() - 1 implies #[trigger] line[i] != '\n' by {
        let l1 = a.len() as int;
        let l2 = l1 + q.len();
        let l3 = l2 + b.len();
        let l4 = l3 + d.len();
        if i < l1 {
            assert(line[i] == a[i]);
        } else if i < l2 {
            assert(line[i] == q[i - l1]);
        } else if i < l3 {
            assert(line[i] == b[i - l2]);
        } else if i < l4 {
            assert(line[i] == d[i - l3]);
        } else {
            assert(line[i] == z[i - l4]);
        }
    }
}

} // verus!
