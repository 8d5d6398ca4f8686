//! The JSON text of an array of strings, as `serde_json` writes it in its
//! compact form, and a reader for such text.

use vstd::prelude::*;

verus! {

/// The lowercase hexadecimal digit of a number below 16.
pub open spec fn hex_digit(n: int) -> char {
    if n < 10 { (n + 48) as char } else { (n + 87) as char }
}

/// The value of a lowercase hexadecimal digit, or `None` for another character.
pub open spec fn hex_value(c: char) -> Option<int> {
    if '0' <= c && c <= '9' {
        Some(c as int - 48)
    } else if 'a' <= c && c <= 'f' {
        Some(c as int - 87)
    } else {
        None
    }
}

/// How one character of a string is written inside a JSON string: the quote
/// and the backslash behind a backslash, the five control characters that have
/// a short escape by it, the other control characters below 0x20 as `\u00XX`,
/// every other character as itself.
pub open spec fn json_escaped_char(c: char) -> Seq<char> {
    if c == '"' {
        seq!['\\', '"']
    } else if c == '\\' {
        seq!['\\', '\\']
    } else if c == '\u{8}' {
        seq!['\\', 'b']
    } else if c == '\t' {
        seq!['\\', 't']
    } else if c == '\n' {
        seq!['\\', 'n']
    } else if c == '\u{c}' {
        seq!['\\', 'f']
    } else if c == '\r' {
        seq!['\\', 'r']
    } else if (c as u32) < 0x20 {
        seq!['\\', 'u', '0', '0', hex_digit((c as u32) as int / 16), hex_digit((c as u32) as int % 16)]
    } else {
        seq![c]
    }
}

/// The characters of a string as written inside a JSON string.
pub open spec fn json_escaped(s: Seq<char>) -> Seq<char>
    decreases s.len(),
{
    if s.len() == 0 {
        Seq::empty()
    } else {
        json_escaped_char(s[0]) + json_escaped(s.drop_first())
    }
}

/// A string as a JSON string.
pub open spec fn json_string(s: Seq<char>) -> Seq<char> {
    seq!['"'] + json_escaped(s) + seq!['"']
}

/// The strings as JSON strings, separated by commas.
pub open spec fn json_elements(items: Seq<Seq<char>>) -> Seq<char>
    decreases items.len(),
{
    if items.len() == 0 {
        Seq::empty()
    } else if items.len() == 1 {
        json_string(items[0])
    } else {
        json_string(items[0]) + seq![','] + json_elements(items.drop_first())
    }
}

/// The JSON text that `serde_json` writes for an array of strings.
pub open spec fn json_string_array(items: Seq<Seq<char>>) -> Seq<char> {
    seq!['['] + json_elements(items) + seq![']']
}

/// The character that an escape `\x` stands for, where `x` is one of the short escapes.
pub open spec fn short_escape(x: char) -> Option<char> {
    if x == '"' {
        Some('"')
    } else if x == '\\' {
        Some('\\')
    } else if x == '/' {
        Some('/')
    } else if x == 'b' {
        Some('\u{8}')
    } else if x == 't' {
        Some('\t')
    } else if x == 'n' {
        Some('\n')
    } else if x == 'f' {
        Some('\u{c}')
    } else if x == 'r' {
        Some('\r')
    } else {
        None
    }
}

/// Reads the rest of a JSON string, from just after its opening quote: the
/// string, and how many characters up to and with the closing quote it took;
/// `None` where the text ends first or holds an escape that is not read here.
pub open spec fn read_string_body(t: Seq<char>) -> Option<(Seq<char>, int)>
    decreases t.len(),
{
    if t.len() == 0 {
        None
    } else if t[0] == '"' {
        Some((Seq::empty(), 1))
    } else if t[0] == '\\' {
        if t.len() < 2 {
            None
        } else if t[1] == 'u' {
            if t.len() < 6 || t[2] != '0' || t[3] != '0' {
                None
            } else {
                match (hex_value(t[4]), hex_value(t[5])) {
                    (Some(h), Some(l)) => match read_string_body(t.skip(6)) {
                        Some((s, k)) => Some((seq![((16 * h + l) as u32) as char] + s, k + 6)),
                        None => None,
                    },
                    _ => None,
                }
            }
        } else {
            match short_escape(t[1]) {
                Some(c) => match read_string_body(t.skip(2)) {
                    Some((s, k)) => Some((seq![c] + s, k + 2)),
                    None => None,
                },
                None => None,
            }
        }
    } else {
        match read_string_body(t.drop_first()) {
            Some((s, k)) => Some((seq![t[0]] + s, k + 1)),
            None => None,
        }
    }
}

/// Reads the elements of a JSON array of strings, from its first element up to
/// and with the closing bracket, which must end the text.
pub open spec fn read_elements(t: Seq<char>) -> Option<Seq<Seq<char>>>
    decreases t.len(),
{
    if t.len() == 0 || t[0] != '"' {
        None
    } else {
        match read_string_body(t.drop_first()) {
            None => None,
            Some((s, k)) => if k < 1 || k + 1 > t.len() {
                None
            } else {
                let rest = t.skip(k + 1);
                if rest == seq![']'] {
                    Some(seq![s])
                } else if rest.len() > 0 && rest[0] == ',' {
                    match read_elements(rest.drop_first()) {
                        Some(ss) => Some(seq![s] + ss),
                        None => None,
                    }
                } else {
                    None
                }
            },
        }
    }
}

/// Reads a JSON array of strings.
pub open spec fn read_string_array(t: Seq<char>) -> Option<Seq<Seq<char>>> {
    if t == seq!['[', ']'] {
        Some(Seq::empty())
    } else if t.len() > 0 && t[0] == '[' {
        read_elements(t.drop_first())
    } else {
        None
    }
}

proof fn lemma_hex_round_trip(n: int)
    requires
        0 <= n < 16,
    ensures
        hex_value(hex_digit(n)) == Some(n),
{
}

/// Reading an escaped string followed by its closing quote gives back the
/// string, whatever follows.
proof fn lemma_read_escaped(s: Seq<char>, rest: Seq<char>)
    ensures
        read_string_body(json_escaped(s) + seq!['"'] + rest) == Some((s, json_escaped(s).len() as int + 1)),
    decreases s.len(),
{
    let t = json_escaped(s) + seq!['"'] + rest;
    if s.len() == 0 {
        assert(json_escaped(s) =~= Seq::<char>::empty());
        assert(t[0] == '"');
    } else {
        let c = s[0];
        let e = json_escaped_char(c);
        let tail = json_escaped(s.drop_first()) + seq!['"'] + rest;
        lemma_read_escaped(s.drop_first(), rest);
        assert(t =~= e + tail);
        assert(seq![c] + s.drop_first() =~= s);
        if c == '"' || c == '\\' || c == '\u{8}' || c == '\t' || c == '\n' || c == '\u{c}' || c == '\r' {
            assert(e.len() == 2);
            assert(t.skip(2) =~= tail);
        } else if (c as u32) < 0x20 {
            let v = (c as u32) as int;
            assert(0 <= v / 16 < 2) by (nonlinear_arith) requires 0 <= v < 32;
            assert(0 <= v % 16 < 16) by (nonlinear_arith) requires 0 <= v < 32;
            lemma_hex_round_trip(v / 16);
            lemma_hex_round_trip(v % 16);
            assert(e.len() == 6);
            assert(t.skip(6) =~= tail);
            assert(16 * (v / 16) + v % 16 == v) by (nonlinear_arith);
            vstd::utf8::char_u32_cast(c, c as u32);
            assert(((16 * (v / 16) + v % 16) as u32) as char == c);
        } else {
            assert(e =~= seq![c]);
            assert(t.drop_first() =~= tail);
        }
    }
}

/// Reading the elements written for a non-empty list, followed by the closing
/// bracket, gives back the list.
#[verifier::rlimit(50)]
proof fn lemma_read_elements(items: Seq<Seq<char>>)
    requires
        items.len() > 0,
    ensures
        read_elements(json_elements(items) + seq![']']) == Some(items),
    decreases items.len(),
{
    let first = items[0];
    let t = json_elements(items) + seq![']'];
    let after = if items.len() == 1 { seq![']'] } else { seq![','] + json_elements(items.drop_first()) + seq![']'] };
    assert(t =~= seq!['"'] + (json_escaped(first) + seq!['"'] + after));
    lemma_read_escaped(first, after);
    assert(t.drop_first() =~= json_escaped(first) + seq!['"'] + after);
    let k: int = json_escaped(first).len() as int + 1;
    assert(read_string_body(t.drop_first()) == Some((first, k)));
    assert(t.len() == k + 1 + after.len());
    assert(t.skip(k + 1) =~= after);
    assert(t[0] == '"');
    if items.len() == 1 {
        assert(items =~= seq![first]);
    } else {
        lemma_read_elements(items.drop_first());
        assert(after.drop_first() =~= json_elements(items.drop_first()) + seq![']']);
        assert(seq![first] + items.drop_first() =~= items);
    }
}

/// The array text names exactly the given strings, in order: reading it as a
/// JSON array of strings gives them back.
pub proof fn json_string_array_reads_back(items: Seq<Seq<char>>)
    ensures
        read_string_array(json_string_array(items)) == Some(items),
{
    if items.len() == 0 {
        assert(json_string_array(items) =~= seq!['[', ']']);
        assert(items =~= Seq::<Seq<char>>::empty());
    } else {
        lemma_read_elements(items);
        let t = json_string_array(items);
        assert(t.drop_first() =~= json_elements(items) + seq![']']);
        assert(t.len() > 2);
    }
}

} // verus!
