//! Verified rendering primitives: JSON string escaping and quoting,
//! JSON arrays, booleans and optional strings, and XML attribute
//! escaping.  The domain encoders build on these.

use vstd::prelude::*;
use crate::strutil::push_char;
use crate::strutil::spec_dec;
use crate::strutil::u64_to_string;

verus! {

/// The lower-case hexadecimal digit for `d`.
pub open spec fn hex_char(d: int) -> char {
    if d < 10 {
        ((48 + d) as u8) as char
    } else {
        ((87 + d) as u8) as char
    }
}

/// How one character appears inside a JSON string literal.
pub open spec fn json_escape_char(c: char) -> Seq<char> {
    let v = c as int;
    if c == '"' {
        "\\\""@
    } else if c == '\\' {
        "\\\\"@
    } else if v == 8 {
        "\\b"@
    } else if v == 12 {
        "\\f"@
    } else if v == 10 {
        "\\n"@
    } else if v == 13 {
        "\\r"@
    } else if v == 9 {
        "\\t"@
    } else if v < 32 {
        "\\u00"@ + seq![hex_char(v / 16), hex_char(v % 16)]
    } else {
        seq![c]
    }
}

/// The body of a JSON string literal holding `s`.
pub open spec fn json_escaped(s: Seq<char>) -> Seq<char>
    decreases s.len(),
{
    if s.len() == 0 {
        Seq::empty()
    } else {
        json_escaped(s.drop_last()) + json_escape_char(s.last())
    }
}

/// A JSON string literal holding `s`, quotes included.
pub open spec fn json_str(s: Seq<char>) -> Seq<char> {
    seq!['"'] + json_escaped(s) + seq!['"']
}

/// The JSON rendering of a boolean.
pub open spec fn json_bool(b: bool) -> Seq<char> {
    if b {
        "true"@
    } else {
        "false"@
    }
}

/// The JSON rendering of an optional string: `null` when absent.
pub open spec fn json_opt_str(o: Option<Seq<char>>) -> Seq<char> {
    match o {
        Option::Some(s) => json_str(s),
        Option::None => "null"@,
    }
}

/// `parts` joined by commas.
pub open spec fn join_comma(parts: Seq<Seq<char>>, n: int) -> Seq<char>
    decreases n,
{
    if n <= 0 {
        Seq::empty()
    } else if n == 1 {
        parts[0]
    } else {
        join_comma(parts, n - 1) + seq![','] + parts[n - 1]
    }
}

/// A JSON array of pre-rendered elements.
pub open spec fn spec_json_array(parts: Seq<Seq<char>>) -> Seq<char> {
    seq!['['] + join_comma(parts, parts.len() as int) + seq![']']
}

/// Appends the escaped form of `c` to `out`.
fn json_escape_append(out: &mut String, c: char)
    ensures
        final(out)@ == old(out)@ + json_escape_char(c),
{
    let v = c as u32;
    if c == '"' {
        out.append("\\\"");
    } else if c == '\\' {
        out.append("\\\\");
    } else if v == 8 {
        out.append("\\b");
    } else if v == 12 {
        out.append("\\f");
    } else if v == 10 {
        out.append("\\n");
    } else if v == 13 {
        out.append("\\r");
    } else if v == 9 {
        out.append("\\t");
    } else if v < 32 {
        out.append("\\u00");
        let d1 = (v / 16) as u8;
        let d2 = (v % 16) as u8;
        let h1 = if d1 < 10 {
            (48 + d1) as char
        } else {
            (87 + d1) as char
        };
        let h2 = if d2 < 10 {
            (48 + d2) as char
        } else {
            (87 + d2) as char
        };
        push_char(out, h1);
        push_char(out, h2);
        proof {
            assert(out@ =~= old(out)@ + json_escape_char(c));
        }
    } else {
        push_char(out, c);
        proof {
            assert(out@ =~= old(out)@ + json_escape_char(c));
        }
    }
}

/// Escapes `s` for use inside a JSON string literal.
pub fn json_escape_str(s: &str) -> (r: String)
    ensures
        r@ == json_escaped(s@),
{
    let n: usize = s.unicode_len();
    let mut out = String::new();
    let mut i: usize = 0;
    proof {
        assert(s@.subrange(0, 0) =~= Seq::<char>::empty());
    }
    while i < n
        invariant
            0 <= i <= n,
            n == s@.len(),
            out@ == json_escaped(s@.subrange(0, i as int)),
        decreases n - i,
    {
        json_escape_append(&mut out, s.get_char(i));
        i = i + 1;
        proof {
            assert(s@.subrange(0, i as int).drop_last() =~= s@.subrange(0, i - 1));
        }
    }
    proof {
        assert(s@.subrange(0, n as int) =~= s@);
    }
    out
}

/// Renders `s` as a JSON string literal, quotes included.
pub fn json_quote(s: &str) -> (r: String)
    ensures
        r@ == json_str(s@),
{
    let mut out = String::new();
    push_char(&mut out, '"');
    let body = json_escape_str(s);
    out.append(body.as_str());
    push_char(&mut out, '"');
    proof {
        assert(out@ =~= json_str(s@));
    }
    out
}

/// Renders a boolean as JSON.
pub fn json_bool_str(b: bool) -> (r: &'static str)
    ensures
        r@ == json_bool(b),
{
    if b {
        "true"
    } else {
        "false"
    }
}

/// Renders an optional string as JSON: `null` when absent.
pub fn json_opt_quote(o: &Option<String>) -> (r: String)
    ensures
        r@ == json_opt_str(match o {
            Option::Some(s) => Option::Some(s@),
            Option::None => Option::None,
        }),
{
    match o {
        Option::Some(s) => json_quote(s.as_str()),
        Option::None => "null".to_owned(),
    }
}

/// Joins pre-rendered elements into a JSON array.
pub fn join_json_array(parts: &Vec<String>) -> (r: String)
    ensures
        r@ == spec_json_array(parts.deep_view()),
{
    let mut out = String::new();
    push_char(&mut out, '[');
    let mut i: usize = 0;
    proof {
        assert(out@ =~= seq!['['] + join_comma(parts.deep_view(), 0));
    }
    while i < parts.len()
        invariant
            0 <= i <= parts@.len(),
            out@ == seq!['['] + join_comma(parts.deep_view(), i as int),
        decreases parts@.len() - i,
    {
        if i > 0 {
            push_char(&mut out, ',');
        }
        out.append(parts[i].as_str());
        i = i + 1;
        proof {
            assert(out@ =~= seq!['['] + join_comma(parts.deep_view(), i as int));
        }
    }
    push_char(&mut out, ']');
    proof {
        assert(out@ =~= spec_json_array(parts.deep_view()));
    }
    out
}

/// A JSON array of string literals.
pub open spec fn json_str_array(parts: Seq<Seq<char>>) -> Seq<char> {
    spec_json_array(parts.map_values(|s: Seq<char>| json_str(s)))
}

/// Renders a list of strings as a JSON array.
pub fn json_string_array(list: &Vec<String>) -> (r: String)
    ensures
        r@ == json_str_array(list.deep_view()),
{
    let mut parts: Vec<String> = Vec::new();
    let mut i: usize = 0;
    while i < list.len()
        invariant
            0 <= i <= list@.len(),
            parts@.len() == i,
            forall|k: int| 0 <= k < i ==> (#[trigger] parts@[k])@ == json_str(list@[k]@),
        decreases list@.len() - i,
    {
        parts.push(json_quote(list[i].as_str()));
        i = i + 1;
    }
    proof {
        assert(forall|k: int| 0 <= k < parts@.len() ==> parts.deep_view()[k] == parts@[k]@);
        assert(forall|k: int| 0 <= k < list@.len() ==> list.deep_view()[k] == list@[k]@);
        assert(parts.deep_view() =~= list.deep_view().map_values(|s: Seq<char>| json_str(s)));
    }
    join_json_array(&parts)
}

/// `parts` concatenated in order.
pub open spec fn concat_all(parts: Seq<Seq<char>>, n: int) -> Seq<char>
    decreases n,
{
    if n <= 0 {
        Seq::empty()
    } else {
        concat_all(parts, n - 1) + parts[n - 1]
    }
}

/// How one character appears inside an XML attribute value.
pub open spec fn xml_escape_char(c: char) -> Seq<char> {
    if c == '&' {
        "&amp;"@
    } else if c == '<' {
        "&lt;"@
    } else if c == '>' {
        "&gt;"@
    } else if c == '"' {
        "&quot;"@
    } else if c == '\'' {
        "&apos;"@
    } else {
        seq![c]
    }
}

/// The body of an XML attribute value holding `s`.
pub open spec fn xml_escaped(s: Seq<char>) -> Seq<char>
    decreases s.len(),
{
    if s.len() == 0 {
        Seq::empty()
    } else {
        xml_escaped(s.drop_last()) + xml_escape_char(s.last())
    }
}

/// Escapes `s` for use inside an XML attribute value.
pub fn xml_escape_str(s: &str) -> (r: String)
    ensures
        r@ == xml_escaped(s@),
{
    let n: usize = s.unicode_len();
    let mut out = String::new();
    let mut i: usize = 0;
    proof {
        assert(s@.subrange(0, 0) =~= Seq::<char>::empty());
    }
    while i < n
        invariant
            0 <= i <= n,
            n == s@.len(),
            out@ == xml_escaped(s@.subrange(0, i as int)),
        decreases n - i,
    {
        let c = s.get_char(i);
        if c == '&' {
            out.append("&amp;");
        } else if c == '<' {
            out.append("&lt;");
        } else if c == '>' {
            out.append("&gt;");
        } else if c == '"' {
            out.append("&quot;");
        } else if c == '\'' {
            out.append("&apos;");
        } else {
            push_char(&mut out, c);
        }
        i = i + 1;
        proof {
            assert(s@.subrange(0, i as int).drop_last() =~= s@.subrange(0, i - 1));
            assert(out@ =~= xml_escaped(s@.subrange(0, i as int)));
        }
    }
    proof {
        assert(s@.subrange(0, n as int) =~= s@);
    }
    out
}

/// An XML attribute rendered as ` name="value"` with the value escaped.
pub open spec fn xml_attr(name: Seq<char>, value: Seq<char>) -> Seq<char> {
    seq![' '] + name + "=\""@ + xml_escaped(value) + seq!['"']
}

/// Appends ` name="value"` to `out`, escaping the value.
pub fn xml_attr_append(out: &mut String, name: &str, value: &str)
    ensures
        final(out)@ == old(out)@ + xml_attr(name@, value@),
{
    push_char(out, ' ');
    out.append(name);
    out.append("=\"");
    let body = xml_escape_str(value);
    out.append(body.as_str());
    push_char(out, '"');
    proof {
        assert(out@ =~= old(out)@ + xml_attr(name@, value@));
    }
}

/// The decimal rendering of `n`, shared by the JSON and XML encoders.
pub fn dec_u64(n: u64) -> (r: String)
    ensures
        r@ == spec_dec(n as int),
{
    u64_to_string(n)
}

} // verus!
