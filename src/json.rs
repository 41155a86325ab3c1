//! JSON text of fingerprints and deletion records, compact or indented by
//! two spaces, with strings escaped as JSON requires: quote, backslash and
//! the control characters below U+0020 are escaped, everything else is
//! written as it is.

use vstd::prelude::*;
use vstd::string::*;
use crate::fingerprint::{
    MessageFingerprint, FingerprintView, DeletionRecord, RecordView, decimal_text, id_text,
};

verus! {

/// Lowercase hexadecimal digit of `d`, for `0 <= d < 16`.
pub open spec fn hex_char(d: int) -> char {
    seq!['0', '1', '2', '3', '4', '5', '6', '7', '8', '9', 'a', 'b', 'c', 'd', 'e', 'f'][d]
}

/// The JSON escape of one character.
pub open spec fn escape_char(c: char) -> Seq<char> {
    if c == '"' {
        seq!['\\', '"']
    } else if c == '\\' {
        seq!['\\', '\\']
    } else if c == '\n' {
        seq!['\\', 'n']
    } else if c == '\r' {
        seq!['\\', 'r']
    } else if c == '\t' {
        seq!['\\', 't']
    } else if c == '\x08' {
        seq!['\\', 'b']
    } else if c == '\x0c' {
        seq!['\\', 'f']
    } else if (c as u32) < 0x20 {
        seq!['\\', 'u', '0', '0', hex_char(((c as u32) / 16) as int), hex_char(((c as u32) % 16) as int)]
    } else {
        seq![c]
    }
}

/// The JSON escape of a text, character by character.
pub open spec fn escaped(s: Seq<char>) -> Seq<char>
    decreases s.len(),
{
    if s.len() == 0 {
        Seq::empty()
    } else {
        escaped(s.drop_last()) + escape_char(s.last())
    }
}

/// A JSON string literal.
pub open spec fn json_string(s: Seq<char>) -> Seq<char> {
    seq!['"'] + escaped(s) + seq!['"']
}

/// A JSON string literal, or `null`.
pub open spec fn json_opt_string(s: Option<Seq<char>>) -> Seq<char> {
    match s {
        Some(t) => json_string(t),
        None => "null"@,
    }
}

/// A JSON integer, or `null`.
pub open spec fn json_opt_int(n: Option<i32>) -> Seq<char> {
    match n {
        Some(v) => decimal_text(v as int),
        None => "null"@,
    }
}

/// The line break and indentation before an entry at nesting `depth`;
/// nothing in compact text.
pub open spec fn newline(pretty: bool, depth: int) -> Seq<char> {
    if !pretty {
        Seq::empty()
    } else if depth <= 0 {
        "\n"@
    } else if depth == 1 {
        "\n  "@
    } else if depth == 2 {
        "\n    "@
    } else {
        "\n      "@
    }
}

/// What separates a key from its value.
pub open spec fn colon(pretty: bool) -> Seq<char> {
    if pretty {
        ": "@
    } else {
        ":"@
    }
}

/// The entries of a string array after the first `k`, each preceded by a
/// comma and its line break.
pub open spec fn array_items(items: Seq<Seq<char>>, pretty: bool, depth: int) -> Seq<char>
    decreases items.len(),
{
    if items.len() == 0 {
        Seq::empty()
    } else {
        array_items(items.drop_last(), pretty, depth) + (if items.len() == 1 {
            Seq::empty()
        } else {
            ","@
        }) + newline(pretty, depth) + json_string(items.last())
    }
}

/// A JSON array of strings whose closing bracket sits at nesting `depth`.
pub open spec fn json_array(items: Seq<Seq<char>>, pretty: bool, depth: int) -> Seq<char> {
    if items.len() == 0 {
        "[]"@
    } else {
        "["@ + array_items(items, pretty, depth + 1) + newline(pretty, depth) + "]"@
    }
}

/// A key and the separator after it, preceded by the entry's line break;
/// `first` tells whether a comma is needed before it.
pub open spec fn key(name: Seq<char>, first: bool, pretty: bool, depth: int) -> Seq<char> {
    (if first {
        Seq::empty()
    } else {
        ","@
    }) + newline(pretty, depth) + name + colon(pretty)
}

/// JSON object of a fingerprint whose closing brace sits at `depth`.
pub open spec fn fingerprint_json(f: FingerprintView, pretty: bool, depth: int) -> Seq<char> {
    "{"@ + key("\"message_id\""@, true, pretty, depth + 1) + decimal_text(f.message_id as int) + key(
        "\"content_hash\""@,
        false,
        pretty,
        depth + 1,
    ) + json_string(f.content_hash) + key("\"attachment_hashes\""@, false, pretty, depth + 1)
        + json_array(f.attachment_hashes, pretty, depth + 1) + key(
        "\"timestamp\""@,
        false,
        pretty,
        depth + 1,
    ) + decimal_text(f.timestamp as int) + key("\"conversation_id\""@, false, pretty, depth + 1)
        + json_opt_int(f.conversation_id) + key("\"sender_handle\""@, false, pretty, depth + 1)
        + json_opt_string(f.sender_handle) + key("\"content\""@, false, pretty, depth + 1)
        + json_opt_string(f.content) + newline(pretty, depth) + "}"@
}

/// JSON object of a deletion record at the top level.
pub open spec fn record_json(r: RecordView, pretty: bool) -> Seq<char> {
    "{"@ + key("\"id\""@, true, pretty, 1) + decimal_text(r.id as int) + key(
        "\"message_id\""@,
        false,
        pretty,
        1,
    ) + decimal_text(r.message_id as int) + key("\"original_fingerprint\""@, false, pretty, 1)
        + fingerprint_json(r.original_fingerprint, pretty, 1) + key(
        "\"deletion_timestamp\""@,
        false,
        pretty,
        1,
    ) + decimal_text(r.deletion_timestamp as int) + key("\"deletion_type\""@, false, pretty, 1)
        + json_string(r.deletion_type) + key("\"recovered_content\""@, false, pretty, 1)
        + json_opt_string(r.recovered_content) + key("\"recovered_attachments\""@, false, pretty, 1)
        + json_array(r.recovered_attachments, pretty, 1) + newline(pretty, 0) + "}"@
}

/// The hexadecimal digit of `d` as text.
fn hex_text(d: u32) -> (r: &'static str)
    requires
        d < 16,
    ensures
        r@ == seq![hex_char(d as int)],
{
    proof {
        reveal_strlit("0");
        reveal_strlit("1");
        reveal_strlit("2");
        reveal_strlit("3");
        reveal_strlit("4");
        reveal_strlit("5");
        reveal_strlit("6");
        reveal_strlit("7");
        reveal_strlit("8");
        reveal_strlit("9");
        reveal_strlit("a");
        reveal_strlit("b");
        reveal_strlit("c");
        reveal_strlit("d");
        reveal_strlit("e");
        reveal_strlit("f");
    }
    let r = if d == 0 {
        "0"
    } else if d == 1 {
        "1"
    } else if d == 2 {
        "2"
    } else if d == 3 {
        "3"
    } else if d == 4 {
        "4"
    } else if d == 5 {
        "5"
    } else if d == 6 {
        "6"
    } else if d == 7 {
        "7"
    } else if d == 8 {
        "8"
    } else if d == 9 {
        "9"
    } else if d == 10 {
        "a"
    } else if d == 11 {
        "b"
    } else if d == 12 {
        "c"
    } else if d == 13 {
        "d"
    } else if d == 14 {
        "e"
    } else {
        "f"
    };
    assert(r@ =~= seq![hex_char(d as int)]);
    r
}

/// Appends the JSON escape of the `i`-th character of `s`.
fn push_escaped_char(out: &mut String, s: &str, i: usize)
    requires
        i < s@.len(),
        s@.len() <= usize::MAX,
    ensures
        final(out)@ == old(out)@ + escape_char(s@[i as int]),
{
    let c = s.get_char(i);
    proof {
        reveal_strlit("\\\"");
        reveal_strlit("\\\\");
        reveal_strlit("\\n");
        reveal_strlit("\\r");
        reveal_strlit("\\t");
        reveal_strlit("\\b");
        reveal_strlit("\\f");
        reveal_strlit("\\u00");
    }
    if c == '"' {
        out.append("\\\"");
    } else if c == '\\' {
        out.append("\\\\");
    } else if c == '\n' {
        out.append("\\n");
    } else if c == '\r' {
        out.append("\\r");
    } else if c == '\t' {
        out.append("\\t");
    } else if c == '\x08' {
        out.append("\\b");
    } else if c == '\x0c' {
        out.append("\\f");
    } else if (c as u32) < 0x20 {
        let v = c as u32;
        out.append("\\u00");
        out.append(hex_text(v / 16));
        out.append(hex_text(v % 16));
    } else {
        let one = s.substring_char(i, i + 1);
        out.append(one);
    }
    assert(final(out)@ =~= old(out)@ + escape_char(s@[i as int]));
}

/// Appends the JSON string literal of `s`.
pub fn push_json_string(out: &mut String, s: &str)
    ensures
        final(out)@ == old(out)@ + json_string(s@),
{
    proof {
        reveal_strlit("\"");
    }
    out.append("\"");
    let n = s.unicode_len();
    let mut i: usize = 0;
    let ghost start = out@;
    assert(s@.len() <= usize::MAX);
    proof {
        assert(s@.take(0) =~= Seq::<char>::empty());
    }
    while i < n
        invariant
            n == s@.len(),
            s@.len() <= usize::MAX,
            i <= n,
            out@ == start + escaped(s@.take(i as int)),
        decreases n - i,
    {
        push_escaped_char(out, s, i);
        proof {
            assert(s@.take(i + 1).drop_last() =~= s@.take(i as int));
        }
        i = i + 1;
    }
    proof {
        assert(s@.take(i as int) =~= s@);
    }
    out.append("\"");
    assert(out@ =~= old(out)@ + json_string(s@));
}

/// Appends the line break and indentation of nesting `depth`.
fn push_newline(out: &mut String, pretty: bool, depth: usize)
    ensures
        final(out)@ == old(out)@ + newline(pretty, depth as int),
{
    if !pretty {
        assert(old(out)@ + newline(pretty, depth as int) =~= old(out)@);
        return;
    }
    if depth == 0 {
        out.append("\n");
    } else if depth == 1 {
        out.append("\n  ");
    } else if depth == 2 {
        out.append("\n    ");
    } else {
        out.append("\n      ");
    }
}

/// Appends a key with its separators.
fn push_key(out: &mut String, name: &str, first: bool, pretty: bool, depth: usize)
    ensures
        final(out)@ == old(out)@ + key(name@, first, pretty, depth as int),
{
    let ghost before = out@;
    if !first {
        out.append(",");
    }
    let ghost mid = out@;
    push_newline(out, pretty, depth);
    out.append(name);
    if pretty {
        out.append(": ");
    } else {
        out.append(":");
    }
    proof {
        if first {
            assert(mid =~= before + Seq::<char>::empty());
        }
    }
    assert(out@ =~= before + key(name@, first, pretty, depth as int));
}

/// Appends a JSON array of strings closing at nesting `depth`.
fn push_json_array(out: &mut String, items: &Vec<String>, pretty: bool, depth: usize)
    requires
        depth < 3,
    ensures
        final(out)@ == old(out)@ + json_array(items.deep_view(), pretty, depth as int),
{
    let ghost v = items.deep_view();
    if items.len() == 0 {
        out.append("[]");
        return;
    }
    let ghost before = out@;
    out.append("[");
    let ghost start = out@;
    let mut k: usize = 0;
    proof {
        assert(v.take(0) =~= Seq::<Seq<char>>::empty());
    }
    while k < items.len()
        invariant
            v == items.deep_view(),
            k <= v.len(),
            depth < 3,
            out@ == start + array_items(v.take(k as int), pretty, depth + 1),
        decreases v.len() - k,
    {
        let ghost prev = out@;
        if k > 0 {
            out.append(",");
        }
        push_newline(out, pretty, depth + 1);
        push_json_string(out, items[k].as_str());
        proof {
            let t = v.take(k + 1);
            assert(t.drop_last() =~= v.take(k as int));
            assert(t.last() == items@[k as int]@);
            if k == 0 {
                assert(out@ =~= prev + newline(pretty, depth + 1) + json_string(t.last()));
            }
            assert(out@ =~= start + array_items(t, pretty, depth + 1));
        }
        k = k + 1;
    }
    proof {
        assert(v.take(k as int) =~= v);
    }
    push_newline(out, pretty, depth);
    out.append("]");
    assert(out@ =~= before + json_array(v, pretty, depth as int));
}

/// Appends a JSON string literal, or `null`.
fn push_json_opt_string(out: &mut String, s: &Option<String>)
    ensures
        final(out)@ == old(out)@ + json_opt_string(s.deep_view()),
{
    match s {
        Some(t) => push_json_string(out, t.as_str()),
        None => out.append("null"),
    }
}

/// Appends the JSON object of `f`, closing at nesting `depth`.
pub fn push_fingerprint_json(out: &mut String, f: &MessageFingerprint, pretty: bool, depth: usize)
    requires
        depth < 2,
    ensures
        final(out)@ == old(out)@ + fingerprint_json(f@, pretty, depth as int),
{
    let mut s = String::new();
    s.append("{");
    assert(s@ =~= "{"@);
    push_key(&mut s, "\"message_id\"", true, pretty, depth + 1);
    s.append(id_text(f.message_id).as_str());
    push_key(&mut s, "\"content_hash\"", false, pretty, depth + 1);
    push_json_string(&mut s, f.content_hash.as_str());
    push_key(&mut s, "\"attachment_hashes\"", false, pretty, depth + 1);
    push_json_array(&mut s, &f.attachment_hashes, pretty, depth + 1);
    push_key(&mut s, "\"timestamp\"", false, pretty, depth + 1);
    s.append(crate::fingerprint::signed_text(f.timestamp).as_str());
    push_key(&mut s, "\"conversation_id\"", false, pretty, depth + 1);
    let cid = match f.conversation_id {
        Some(c) => id_text(c),
        None => String::from_str("null"),
    };
    s.append(cid.as_str());
    push_key(&mut s, "\"sender_handle\"", false, pretty, depth + 1);
    push_json_opt_string(&mut s, &f.sender_handle);
    push_key(&mut s, "\"content\"", false, pretty, depth + 1);
    push_json_opt_string(&mut s, &f.content);
    push_newline(&mut s, pretty, depth);
    s.append("}");
    assert(s@ == fingerprint_json(f@, pretty, depth as int));
    out.append(s.as_str());
}

/// The JSON object of a fingerprint, compact.
pub fn fingerprint_to_json(f: &MessageFingerprint) -> (r: String)
    ensures
        r@ == fingerprint_json(f@, false, 0),
{
    let mut out = String::new();
    push_fingerprint_json(&mut out, f, false, 0);
    assert(out@ =~= fingerprint_json(f@, false, 0));
    out
}

/// The JSON array of a list of texts, compact.
pub fn texts_to_json(items: &Vec<String>) -> (r: String)
    ensures
        r@ == json_array(items.deep_view(), false, 0),
{
    let mut out = String::new();
    push_json_array(&mut out, items, false, 0);
    assert(out@ =~= json_array(items.deep_view(), false, 0));
    out
}

/// The JSON object of a deletion record, compact or indented by two
/// spaces per level.
pub fn record_to_json(d: &DeletionRecord, pretty: bool) -> (r: String)
    ensures
        r@ == record_json(d@, pretty),
{
    let mut out = String::new();
    out.append("{");
    assert(out@ =~= "{"@);
    push_key(&mut out, "\"id\"", true, pretty, 1);
    out.append(crate::fingerprint::signed_text(d.id).as_str());
    push_key(&mut out, "\"message_id\"", false, pretty, 1);
    out.append(id_text(d.message_id).as_str());
    push_key(&mut out, "\"original_fingerprint\"", false, pretty, 1);
    push_fingerprint_json(&mut out, &d.original_fingerprint, pretty, 1);
    push_key(&mut out, "\"deletion_timestamp\"", false, pretty, 1);
    out.append(crate::fingerprint::signed_text(d.deletion_timestamp).as_str());
    push_key(&mut out, "\"deletion_type\"", false, pretty, 1);
    push_json_string(&mut out, d.deletion_type.as_str());
    push_key(&mut out, "\"recovered_content\"", false, pretty, 1);
    push_json_opt_string(&mut out, &d.recovered_content);
    push_key(&mut out, "\"recovered_attachments\"", false, pretty, 1);
    push_json_array(&mut out, &d.recovered_attachments, pretty, 1);
    push_newline(&mut out, pretty, 0);
    out.append("}");
    assert(out@ == record_json(d@, pretty));
    out
}

} // verus!
