//! Framed message codec: newline-delimited JSON frames.
//!
//! One logical message per line. The encoder builds the server's outgoing
//! frames (relay delivery and the error frame) and is verified down to the
//! exact character sequence, including JSON string escaping. The decoder
//! extracts string fields from incoming lines through `serde_json`, behind
//! a single trusted wrapper.

use vstd::prelude::*;
use vstd::string::*;

verus! {

/// The string value of field `key` in the JSON object written in `line`,
/// exactly as `serde_json` reads it: `None` when `line` is not a valid JSON
/// object, when the field is absent, or when its value is not a string.
/// A pure function of the line and the key.
pub uninterp spec fn json_str_field(line: Seq<char>, key: Seq<char>) -> Option<Seq<char>>;

/// Relies on `serde_json::from_str::<Value>` (parses one JSON document from
/// the whole input), `Value::get` (looks a key up in a JSON object) and
/// `Value::as_str` (the value when it is a JSON string): together a pure
/// function of `line` and `key`, named `json_str_field`.
#[verifier::external_body]
fn json_get_str(line: &str, key: &str) -> (r: Option<String>)
    ensures
        match r {
            Some(s) => json_str_field(line@, key@) == Some(s@),
            None => json_str_field(line@, key@) is None,
        },
{
    match serde_json::from_str::<serde_json::Value>(line) {
        Ok(v) => match v.get(key) {
            Some(field) => match field.as_str() {
                Some(s) => Some(s.to_string()),
                None => None,
            },
            None => None,
        },
        Err(_) => None,
    }
}

/// The number of fields of the JSON object written in `line`, exactly as
/// `serde_json` reads it: `None` when `line` is not a valid JSON object.
/// A pure function of the line. Together with `json_str_field` it pins a
/// frame's shape: an object has exactly the expected string fields when
/// each lookup succeeds and the count equals the number expected.
pub uninterp spec fn json_field_count(line: Seq<char>) -> Option<int>;

/// Relies on `serde_json::from_str::<Value>` (parses one JSON document from
/// the whole input), `Value::as_object` (the backing map when the document
/// is an object) and `Map::len`: together a pure function of `line`, named
/// `json_field_count`.
#[verifier::external_body]
fn json_object_len(line: &str) -> (r: Option<usize>)
    ensures
        match r {
            Some(n) => json_field_count(line@) == Some(n as int),
            None => json_field_count(line@) is None,
        },
{
    match serde_json::from_str::<serde_json::Value>(line) {
        Ok(v) => match v.as_object() {
            Some(m) => Some(m.len()),
            None => None,
        },
        Err(_) => None,
    }
}

/// Relies on `String::push`: appends the given character to the end of the
/// string.
#[verifier::external_body]
fn push_char(s: &mut String, c: char)
    ensures
        final(s)@ == old(s)@.push(c),
{
    s.push(c);
}

/// The lowercase hexadecimal digit for `n`, for `0 <= n < 16`.
pub open spec fn low_hex_digit(n: int) -> char {
    seq!['0', '1', '2', '3', '4', '5', '6', '7', '8', '9', 'a', 'b', 'c', 'd', 'e', 'f'][n]
}

/// How one character appears inside a JSON string: quote and backslash are
/// escaped, control characters below 0x20 use their short escapes or the
/// `\u00XX` form, every other character stands for itself.
pub open spec fn escape_char_seq(c: char) -> Seq<char> {
    if c == '"' {
        seq!['\\', '"']
    } else if c == '\\' {
        seq!['\\', '\\']
    } else if c == '\n' {
        seq!['\\', 'n']
    } else if c == '\r' {
        seq!['\\', 'r']
    } else if c == '\t' {
        seq!['\\', 't']
    } else if c == '\u{0008}' {
        seq!['\\', 'b']
    } else if c == '\u{000C}' {
        seq!['\\', 'f']
    } else if (c as u32) < 0x20 {
        seq!['\\', 'u', '0', '0', low_hex_digit(c as u32 as int / 16), low_hex_digit(
            c as u32 as int % 16,
        )]
    } else {
        seq![c]
    }
}

/// The body of a JSON string holding the text `s`: each character escaped.
pub open spec fn json_escaped(s: Seq<char>) -> Seq<char>
    decreases s.len(),
{
    if s.len() == 0 {
        Seq::empty()
    } else {
        json_escaped(s.drop_last()) + escape_char_seq(s.last())
    }
}

proof fn lemma_json_escaped_push(s: Seq<char>, c: char)
    ensures
        json_escaped(s.push(c)) == json_escaped(s) + escape_char_seq(c),
{
    assert(s.push(c).drop_last() =~= s);
    assert(s.push(c).last() == c);
}

fn hex_char(n: u32) -> (c: char)
    requires
        n < 16,
    ensures
        c == low_hex_digit(n as int),
{
    let c = if n == 0 {
        '0'
    } else if n == 1 {
        '1'
    } else if n == 2 {
        '2'
    } else if n == 3 {
        '3'
    } else if n == 4 {
        '4'
    } else if n == 5 {
        '5'
    } else if n == 6 {
        '6'
    } else if n == 7 {
        '7'
    } else if n == 8 {
        '8'
    } else if n == 9 {
        '9'
    } else if n == 10 {
        'a'
    } else if n == 11 {
        'b'
    } else if n == 12 {
        'c'
    } else if n == 13 {
        'd'
    } else if n == 14 {
        'e'
    } else {
        'f'
    };
    c
}

/// Escapes `s` for use inside a JSON string literal.
pub fn escape_json(s: &str) -> (out: String)
    ensures
        out@ == json_escaped(s@),
{
    let len = s.unicode_len();
    let mut out = String::new();
    let mut i: usize = 0;
    while i < len
        invariant
            len == s@.len(),
            i <= len,
            out@ == json_escaped(s@.subrange(0, i as int)),
        decreases len - i,
    {
        let c = s.get_char(i);
        if c == '"' {
            out.append("\\\"");
            proof {
                reveal_strlit("\\\"");
                assert("\\\""@ =~= escape_char_seq(c));
            }
        } else if c == '\\' {
            out.append("\\\\");
            proof {
                reveal_strlit("\\\\");
                assert("\\\\"@ =~= escape_char_seq(c));
            }
        } else if c == '\n' {
            out.append("\\n");
            proof {
                reveal_strlit("\\n");
                assert("\\n"@ =~= escape_char_seq(c));
            }
        } else if c == '\r' {
            out.append("\\r");
            proof {
                reveal_strlit("\\r");
                assert("\\r"@ =~= escape_char_seq(c));
            }
        } else if c == '\t' {
            out.append("\\t");
            proof {
                reveal_strlit("\\t");
                assert("\\t"@ =~= escape_char_seq(c));
            }
        } else if c == '\u{0008}' {
            out.append("\\b");
            proof {
                reveal_strlit("\\b");
                assert("\\b"@ =~= escape_char_seq(c));
            }
        } else if (c as u32) < 0x20 {
            let code: u32 = c as u32;
            if code == 0x0C {
                out.append("\\f");
                proof {
                    reveal_strlit("\\f");
                    assert("\\f"@ =~= escape_char_seq(c));
                }
            } else {
                out.append("\\u00");
                push_char(&mut out, hex_char(code / 16));
                push_char(&mut out, hex_char(code % 16));
                proof {
                    reveal_strlit("\\u00");
                    assert("\\u00"@.push(low_hex_digit(code as int / 16)).push(
                        low_hex_digit(code as int % 16),
                    ) =~= escape_char_seq(c));
                }
            }
        } else {
            push_char(&mut out, c);
            proof {
                assert(seq![c] =~= escape_char_seq(c));
            }
        }
        proof {
            lemma_json_escaped_push(s@.subrange(0, i as int), c);
            assert(s@.subrange(0, i as int).push(c) =~= s@.subrange(0, i as int + 1));
        }
        i = i + 1;
    }
    proof {
        assert(s@.subrange(0, len as int) =~= s@);
    }
    out
}

/// The delivery frame for payload `m`: `{"message":"<escaped m>"}` and a
/// terminating newline.
pub open spec fn relay_frame_spec(m: Seq<char>) -> Seq<char> {
    "{\"message\":\""@ + json_escaped(m) + "\"}\n"@
}

/// Encodes one relay delivery frame carrying `message` verbatim.
pub fn encode_relay_frame(message: &str) -> (r: String)
    ensures
        r@ == relay_frame_spec(message@),
{
    let mut out = String::from_str("{\"message\":\"");
    let esc = escape_json(message);
    out.append(esc.as_str());
    out.append("\"}\n");
    out
}

/// The one error frame the server ever sends, for any malformed line.
pub open spec fn error_frame_spec() -> Seq<char> {
    "{\"error\":\"received not valid json\"}\n"@
}

/// Encodes the error frame sent to a connection before it is closed.
pub fn encode_error_frame() -> (r: String)
    ensures
        r@ == error_frame_spec(),
{
    String::from_str("{\"error\":\"received not valid json\"}\n")
}

/// A decoded handshake request: the first line of every connection.
pub struct HandshakeRequest {
    pub method: String,
    pub topic: String,
}

/// The method field of a handshake line, as the decoder reads it.
pub open spec fn handshake_method(line: Seq<char>) -> Option<Seq<char>> {
    json_str_field(line, "method"@)
}

/// The topic field of a handshake line, as the decoder reads it.
pub open spec fn handshake_topic(line: Seq<char>) -> Option<Seq<char>> {
    json_str_field(line, "topic"@)
}

/// A handshake line is well formed when the object holds exactly the two
/// expected string fields, `method` and `topic`: an unknown or missing
/// field is a shape mismatch, hence a malformed payload.
pub open spec fn handshake_well_formed(line: Seq<char>) -> bool {
    handshake_method(line) is Some && handshake_topic(line) is Some && json_field_count(line)
        == Some(2int)
}

/// Decodes one handshake line. Returns the request exactly when the line is
/// a JSON object with the string fields `method` and `topic` and no others.
pub fn decode_handshake(line: &str) -> (r: Option<HandshakeRequest>)
    ensures
        match r {
            Some(req) => handshake_well_formed(line@) && handshake_method(line@) == Some(
                req.method@,
            ) && handshake_topic(line@) == Some(req.topic@),
            None => !handshake_well_formed(line@),
        },
{
    let m = json_get_str(line, "method");
    let t = json_get_str(line, "topic");
    let n = json_object_len(line);
    match (m, t, n) {
        (Some(method), Some(topic), Some(2)) => Some(HandshakeRequest { method, topic }),
        _ => None,
    }
}

/// The message field of a relay line, as the decoder reads it.
pub open spec fn relay_text(line: Seq<char>) -> Option<Seq<char>> {
    json_str_field(line, "message"@)
}

/// A relay line is well formed when the object holds exactly the one
/// expected string field, `message`: an unknown or missing field is a
/// shape mismatch, hence a malformed payload.
pub open spec fn relay_well_formed(line: Seq<char>) -> bool {
    relay_text(line) is Some && json_field_count(line) == Some(1int)
}

/// Decodes one relay line from a publisher. Returns the payload exactly
/// when the line is a JSON object with the string field `message` and no
/// others.
pub fn decode_relay(line: &str) -> (r: Option<String>)
    ensures
        match r {
            Some(m) => relay_well_formed(line@) && relay_text(line@) == Some(m@),
            None => !relay_well_formed(line@),
        },
{
    let m = json_get_str(line, "message");
    let n = json_object_len(line);
    match (m, n) {
        (Some(message), Some(1)) => Some(message),
        _ => None,
    }
}

} // verus!
