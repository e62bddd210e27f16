//! A small JSON layer for the payload codecs: string-or-null object
//! members, their canonical rendering, and a lenient parser of one object.
//!
//! Every payload of this library serializes to a JSON object whose member
//! values are strings or null, so nothing more is modeled.

use vstd::prelude::*;

verus! {

/// A member value: null or a string.
#[derive(Debug)]
pub enum JsonValue {
    Null,
    Text(String),
}

/// One `key: value` member of a parsed object.
#[derive(Debug)]
pub struct JsonMember {
    pub key: String,
    pub value: JsonValue,
}

/// Whitespace that may surround tokens.
pub open spec fn spec_is_ws(c: char) -> bool {
    c == ' ' || c == '\t' || c == '\n' || c == '\r'
}

/// The rendering of one character inside a string literal.
pub open spec fn spec_escape_char(c: char) -> Seq<char> {
    if c == '"' {
        seq!['\\', '"']
    } else if c == '\\' {
        seq!['\\', '\\']
    } else if c == '\n' {
        seq!['\\', 'n']
    } else if c == '\t' {
        seq!['\\', 't']
    } else if c == '\r' {
        seq!['\\', 'r']
    } else {
        seq![c]
    }
}

/// The rendering of the characters of a string literal.
pub open spec fn spec_escape(s: Seq<char>) -> Seq<char>
    decreases s.len(),
{
    if s.len() == 0 {
        Seq::empty()
    } else {
        spec_escape(s.drop_last()) + spec_escape_char(s.last())
    }
}

/// A quoted string literal.
pub open spec fn spec_quote(s: Seq<char>) -> Seq<char> {
    seq!['"'] + spec_escape(s) + seq!['"']
}

/// The text `null`.
pub open spec fn spec_null_text() -> Seq<char> {
    seq!['n', 'u', 'l', 'l']
}

/// One member rendered as `"key":value`, where the value is already text.
pub open spec fn spec_member(key: Seq<char>, value_text: Seq<char>) -> Seq<char> {
    spec_quote(key) + seq![':'] + value_text
}


/// The characters of a string slice, in order.
pub fn str_to_chars(s: &str) -> (r: Vec<char>)
    ensures
        r@ == s@,
{
    let n = s.unicode_len();
    let mut out: Vec<char> = Vec::new();
    let mut i: usize = 0;
    while i < n
        invariant
            i <= n,
            n == s@.len(),
            out@ == s@.subrange(0, i as int),
        decreases n - i,
    {
        out.push(s.get_char(i));
        proof {
            assert(out@ =~= s@.subrange(0, i + 1));
        }
        i += 1;
    }
    proof {
        assert(s@.subrange(0, s@.len() as int) =~= s@);
    }
    out
}

/// Append the rendering of one string's characters.
pub fn push_escaped(out: &mut Vec<char>, s: &str)
    ensures
        final(out)@ == old(out)@ + spec_escape(s@),
{
    let n = s.unicode_len();
    let mut i: usize = 0;
    while i < n
        invariant
            i <= n,
            n == s@.len(),
            out@ == old(out)@ + spec_escape(s@.subrange(0, i as int)),
        decreases n - i,
    {
        let c = s.get_char(i);
        proof {
            assert(s@.subrange(0, i + 1).drop_last() =~= s@.subrange(0, i as int));
            assert(s@.subrange(0, i + 1).last() == s@[i as int]);
        }
        if c == '"' {
            out.push('\\');
            out.push('"');
        } else if c == '\\' {
            out.push('\\');
            out.push('\\');
        } else if c == '\n' {
            out.push('\\');
            out.push('n');
        } else if c == '\t' {
            out.push('\\');
            out.push('t');
        } else if c == '\r' {
            out.push('\\');
            out.push('r');
        } else {
            out.push(c);
        }
        proof {
            assert(out@ =~= old(out)@ + spec_escape(s@.subrange(0, i + 1)));
        }
        i += 1;
    }
    proof {
        assert(s@.subrange(0, s@.len() as int) =~= s@);
    }
}

/// Append a quoted string literal.
pub fn push_quoted(out: &mut Vec<char>, s: &str)
    ensures
        final(out)@ == old(out)@ + spec_quote(s@),
{
    out.push('"');
    push_escaped(out, s);
    out.push('"');
    proof {
        assert(out@ =~= old(out)@ + spec_quote(s@));
    }
}

/// Append one character.
pub fn push_char(out: &mut Vec<char>, c: char)
    ensures
        final(out)@ == old(out)@ + seq![c],
{
    out.push(c);
    proof {
        assert(out@ =~= old(out)@ + seq![c]);
    }
}

/// Append the text `null`.
pub fn push_null(out: &mut Vec<char>)
    ensures
        final(out)@ == old(out)@ + spec_null_text(),
{
    out.push('n');
    out.push('u');
    out.push('l');
    out.push('l');
    proof {
        assert(out@ =~= old(out)@ + spec_null_text());
    }
}

/// The value text of an optional string attribute: its quoted text, or
/// `null` when absent.
pub open spec fn spec_opt_text(o: Option<String>) -> Seq<char> {
    match o {
        Some(s) => spec_quote(s@),
        None => spec_null_text(),
    }
}

/// Append `null` or a quoted string for an optional attribute.
pub fn push_opt_text(out: &mut Vec<char>, o: &Option<String>)
    ensures
        final(out)@ == old(out)@ + spec_opt_text(*o),
{
    match o {
        Some(s) => push_quoted(out, s.as_str()),
        None => push_null(out),
    }
}

/// Append one `"key":"value"` member with a string value.
pub fn push_text_member(out: &mut Vec<char>, key: &str, v: &str)
    ensures
        final(out)@ == old(out)@ + spec_member(key@, spec_quote(v@)),
{
    push_quoted(out, key);
    push_char(out, ':');
    push_quoted(out, v);
    proof {
        assert(out@ =~= old(out)@ + spec_member(key@, spec_quote(v@)));
    }
}

/// Append one member whose value is an optional string.
pub fn push_opt_member(out: &mut Vec<char>, key: &str, o: &Option<String>)
    ensures
        final(out)@ == old(out)@ + spec_member(key@, spec_opt_text(*o)),
{
    push_quoted(out, key);
    push_char(out, ':');
    push_opt_text(out, o);
    proof {
        assert(out@ =~= old(out)@ + spec_member(key@, spec_opt_text(*o)));
    }
}

/// Relies on `String: FromIterator<char>`: collecting characters yields the
/// string of exactly those characters, in order.
#[verifier::external_body]
pub fn chars_to_string(v: &Vec<char>) -> (r: String)
    ensures
        r@ == v@,
{
    v.iter().collect()
}

/// The view of a parsed member: its key and its value, `None` standing for
/// null.
pub open spec fn member_view(m: JsonMember) -> (Seq<char>, Option<Seq<char>>) {
    (
        m.key@,
        match m.value {
            JsonValue::Null => None,
            JsonValue::Text(t) => Some(t@),
        },
    )
}

/// The views of a parsed member list.
pub open spec fn members_view(ms: Seq<JsonMember>) -> Seq<(Seq<char>, Option<Seq<char>>)> {
    ms.map_values(|m: JsonMember| member_view(m))
}

/// The index of the first non-whitespace character at or after `i`.
pub open spec fn spec_skip_ws(s: Seq<char>, i: int) -> int
    decreases s.len() - i,
{
    if i < 0 || i >= s.len() {
        i
    } else if spec_is_ws(s[i]) {
        spec_skip_ws(s, i + 1)
    } else {
        i
    }
}

/// The character a string escape stands for, if the escape is accepted.
pub open spec fn spec_unescape(e: char) -> Option<char> {
    if e == '"' {
        Some('"')
    } else if e == '\\' {
        Some('\\')
    } else if e == '/' {
        Some('/')
    } else if e == 'n' {
        Some('\n')
    } else if e == 't' {
        Some('\t')
    } else if e == 'r' {
        Some('\r')
    } else if e == 'b' {
        Some('\u{0008}')
    } else if e == 'f' {
        Some('\u{000C}')
    } else {
        None
    }
}

/// Parse the rest of a string literal from just after its opening quote:
/// the decoded text and the index after the closing quote.
pub open spec fn spec_string_rest(s: Seq<char>, i: int) -> Option<(Seq<char>, int)>
    decreases s.len() - i,
{
    if !(0 <= i < s.len()) {
        None
    } else if s[i] == '"' {
        Some((Seq::empty(), i + 1))
    } else if s[i] == '\\' {
        if i + 1 >= s.len() {
            None
        } else {
            match spec_unescape(s[i + 1]) {
                None => None,
                Some(c) => match spec_string_rest(s, i + 2) {
                    None => None,
                    Some(p) => Some((seq![c] + p.0, p.1)),
                },
            }
        }
    } else {
        match spec_string_rest(s, i + 1) {
            None => None,
            Some(p) => Some((seq![s[i]] + p.0, p.1)),
        }
    }
}

/// Parse one member value at `i`: a string literal or the word `null`.
pub open spec fn spec_value_at(s: Seq<char>, i: int) -> Option<(Option<Seq<char>>, int)> {
    if !(0 <= i < s.len()) {
        None
    } else if s[i] == '"' {
        match spec_string_rest(s, i + 1) {
            None => None,
            Some(p) => Some((Some(p.0), p.1)),
        }
    } else if s[i] == 'n' {
        if i + 3 < s.len() && s[i + 1] == 'u' && s[i + 2] == 'l' && s[i + 3] == 'l' {
            Some((None, i + 4))
        } else {
            None
        }
    } else {
        None
    }
}

/// Parse members from the start of a key through the closing brace and any
/// trailing whitespace; the member views, in order.
pub open spec fn spec_members_from(s: Seq<char>, i: int) -> Option<
    Seq<(Seq<char>, Option<Seq<char>>)>,
>
    decreases s.len() - i,
{
    if !(0 <= i < s.len() && s[i] == '"') {
        None
    } else {
        match spec_string_rest(s, i + 1) {
            None => None,
            Some(kp) => {
                let i2 = spec_skip_ws(s, kp.1);
                if !(i2 < s.len() && s[i2] == ':') {
                    None
                } else {
                    let i3 = spec_skip_ws(s, i2 + 1);
                    match spec_value_at(s, i3) {
                        None => None,
                        Some(vp) => {
                            let i4 = spec_skip_ws(s, vp.1);
                            if i4 < s.len() && s[i4] == '}' {
                                if spec_skip_ws(s, i4 + 1) == s.len() {
                                    Some(seq![(kp.0, vp.0)])
                                } else {
                                    None
                                }
                            } else if i4 < s.len() && s[i4] == ',' {
                                let i5 = spec_skip_ws(s, i4 + 1);
                                if !(i < i5 <= s.len()) {
                                    None
                                } else {
                                    match spec_members_from(s, i5) {
                                        None => None,
                                        Some(rest) => Some(seq![(kp.0, vp.0)] + rest),
                                    }
                                }
                            } else {
                                None
                            }
                        },
                    }
                }
            },
        }
    }
}

/// Parse a whole text as one object of string-or-null members, whitespace
/// allowed around tokens: the member views, or `None` when the text is not
/// such an object.
pub open spec fn spec_object_members(s: Seq<char>) -> Option<Seq<(Seq<char>, Option<Seq<char>>)>> {
    let i0 = spec_skip_ws(s, 0);
    if !(i0 < s.len() && s[i0] == '{') {
        None
    } else {
        let i1 = spec_skip_ws(s, i0 + 1);
        if i1 < s.len() && s[i1] == '}' {
            if spec_skip_ws(s, i1 + 1) == s.len() {
                Some(Seq::empty())
            } else {
                None
            }
        } else {
            spec_members_from(s, i1)
        }
    }
}

/// The first index at or after `pos` that holds a non-whitespace character.
fn skip_ws(chars: &Vec<char>, pos: usize) -> (r: usize)
    requires
        pos <= chars@.len(),
    ensures
        pos <= r <= chars@.len(),
        r as int == spec_skip_ws(chars@, pos as int),
        r < chars@.len() ==> !spec_is_ws(chars@[r as int]),
{
    let mut i = pos;
    while i < chars.len()
        invariant
            pos <= i <= chars@.len(),
            spec_skip_ws(chars@, pos as int) == spec_skip_ws(chars@, i as int),
        decreases chars@.len() - i,
    {
        let c = chars[i];
        if !(c == ' ' || c == '\t' || c == '\n' || c == '\r') {
            return i;
        }
        i += 1;
    }
    i
}

/// Parse a string literal starting at the opening quote. Returns the
/// decoded text and the index after the closing quote, exactly as
/// [`spec_string_rest`] reads the text. Unicode escapes are not accepted.
fn parse_string(chars: &Vec<char>, pos: usize) -> (r: Option<(String, usize)>)
    requires
        pos < chars@.len(),
        chars@[pos as int] == '"',
    ensures
        match r {
            Some(p) => pos < p.1 <= chars@.len() && (match spec_string_rest(chars@, pos + 1) {
                Some(p0) => p0.0 == p.0@ && p0.1 == p.1 as int,
                None => false,
            }),
            None => spec_string_rest(chars@, pos + 1) is None,
        },
{
    let n = chars.len();
    let mut buf: Vec<char> = Vec::new();
    let mut i = pos + 1;
    proof {
        let o = spec_string_rest(chars@, pos + 1);
        assert(o matches Some(q) ==> Seq::<char>::empty() + q.0 =~= q.0);
    }
    loop
        invariant
            pos < i <= n,
            n == chars@.len(),
            match spec_string_rest(chars@, i as int) {
                Some(q) => match spec_string_rest(chars@, pos + 1) {
                    Some(p0) => p0.0 == buf@ + q.0 && p0.1 == q.1,
                    None => false,
                },
                None => spec_string_rest(chars@, pos + 1) is None,
            },
        decreases chars@.len() - i,
    {
        if i >= chars.len() {
            return None;
        }
        let c = chars[i];
        if c == '"' {
            proof {
                assert(buf@ + Seq::<char>::empty() =~= buf@);
            }
            return Some((chars_to_string(&buf), i + 1));
        }
        if c == '\\' {
            if i + 1 >= chars.len() {
                return None;
            }
            let e = chars[i + 1];
            let d: char;
            if e == '"' {
                d = '"';
            } else if e == '\\' {
                d = '\\';
            } else if e == '/' {
                d = '/';
            } else if e == 'n' {
                d = '\n';
            } else if e == 't' {
                d = '\t';
            } else if e == 'r' {
                d = '\r';
            } else if e == 'b' {
                d = '\u{0008}';
            } else if e == 'f' {
                d = '\u{000C}';
            } else {
                return None;
            }
            proof {
                assert(spec_unescape(chars@[i + 1]) == Some(d));
                let onext = spec_string_rest(chars@, i + 2);
                assert(onext matches Some(q2) ==> buf@.push(d) + q2.0 =~= buf@ + (seq![d]
                    + q2.0));
            }
            buf.push(d);
            i += 2;
        } else {
            proof {
                let onext = spec_string_rest(chars@, i + 1);
                assert(onext matches Some(q2) ==> buf@.push(c) + q2.0 =~= buf@ + (seq![c]
                    + q2.0));
            }
            buf.push(c);
            i += 1;
        }
    }
}

/// Parse one JSON object whose member values are strings or null, exactly
/// as [`spec_object_members`] reads the text. Member order is kept;
/// duplicate keys are kept too, the caller deciding which occurrence wins.
pub fn parse_object(chars: &Vec<char>) -> (r: Option<Vec<JsonMember>>)
    ensures
        match r {
            Some(v) => spec_object_members(chars@) == Some(members_view(v@)),
            None => spec_object_members(chars@) is None,
        },
{
    let start = skip_ws(chars, 0);
    if start >= chars.len() || chars[start] != '{' {
        return None;
    }
    let mut pos = skip_ws(chars, start + 1);
    if pos < chars.len() && chars[pos] == '}' {
        let after = skip_ws(chars, pos + 1);
        if after == chars.len() {
            let out: Vec<JsonMember> = Vec::new();
            proof {
                assert(members_view(out@) =~= Seq::<(Seq<char>, Option<Seq<char>>)>::empty());
            }
            return Some(out);
        } else {
            return None;
        }
    }
    let mut members: Vec<JsonMember> = Vec::new();
    proof {
        assert(members_view(members@) =~= Seq::<(Seq<char>, Option<Seq<char>>)>::empty());
        let o = spec_members_from(chars@, pos as int);
        assert(o matches Some(rest) ==> Seq::<(Seq<char>, Option<Seq<char>>)>::empty() + rest
            =~= rest);
    }
    loop
        invariant
            pos <= chars@.len(),
            match spec_members_from(chars@, pos as int) {
                Some(rest) => spec_object_members(chars@) == Some(members_view(members@) + rest),
                None => spec_object_members(chars@) is None,
            },
        decreases chars@.len() - pos,
    {
        let ghost mstart = pos as int;
        let ghost msnap = members@;
        if pos >= chars.len() || chars[pos] != '"' {
            return None;
        }
        let key;
        match parse_string(chars, pos) {
            None => {
                return None;
            },
            Some((k, next)) => {
                key = k;
                pos = next;
            },
        }
        pos = skip_ws(chars, pos);
        if pos >= chars.len() || chars[pos] != ':' {
            return None;
        }
        pos = skip_ws(chars, pos + 1);
        if pos >= chars.len() {
            return None;
        }
        let value;
        if chars[pos] == '"' {
            match parse_string(chars, pos) {
                None => {
                    return None;
                },
                Some((t, next)) => {
                    value = JsonValue::Text(t);
                    pos = next;
                },
            }
        } else if chars[pos] == 'n' {
            let more = chars.len() - pos;
            if more > 3 && chars[pos + 1] == 'u' && chars[pos + 2] == 'l' && chars[pos + 3] == 'l'
            {
                value = JsonValue::Null;
                pos = pos + 4;
            } else {
                return None;
            }
        } else {
            return None;
        }
        let ghost mv = (key@, (match value {
            JsonValue::Null => None::<Seq<char>>,
            JsonValue::Text(ref t) => Some(t@),
        }));
        members.push(JsonMember { key, value });
        proof {
            assert(members_view(members@) =~= members_view(msnap).push(mv));
        }
        pos = skip_ws(chars, pos);
        if pos >= chars.len() {
            return None;
        }
        if chars[pos] == '}' {
            let after = skip_ws(chars, pos + 1);
            if after == chars.len() {
                proof {
                    assert(members_view(msnap) + seq![mv] =~= members_view(members@));
                }
                return Some(members);
            } else {
                return None;
            }
        }
        if chars[pos] != ',' {
            return None;
        }
        pos = skip_ws(chars, pos + 1);
        proof {
            let orest = spec_members_from(chars@, pos as int);
            assert(orest matches Some(rest) ==> members_view(msnap) + (seq![mv] + rest) =~= (
            members_view(msnap) + seq![mv]) + rest);
            assert(orest matches Some(rest) ==> members_view(msnap) + seq![mv] =~= members_view(
                members@,
            ));
        }
    }
}

/// The member value stored under a key, the last occurrence winning, as a
/// JSON decoder would resolve duplicates.
pub open spec fn spec_lookup(ms: Seq<JsonMember>, key: Seq<char>) -> Option<JsonValue>
    decreases ms.len(),
{
    if ms.len() == 0 {
        None
    } else if ms.last().key@ == key {
        Some(ms.last().value)
    } else {
        spec_lookup(ms.drop_last(), key)
    }
}

/// The value stored under a key among member views, the last occurrence
/// winning: `None` when the key is absent, `Some(None)` for a null member,
/// `Some(Some(t))` for a string member.
pub open spec fn spec_lookup_view(
    mvs: Seq<(Seq<char>, Option<Seq<char>>)>,
    key: Seq<char>,
) -> Option<Option<Seq<char>>>
    decreases mvs.len(),
{
    if mvs.len() == 0 {
        None
    } else if mvs.last().0 == key {
        Some(mvs.last().1)
    } else {
        spec_lookup_view(mvs.drop_last(), key)
    }
}

/// Looking a key up among the member views is looking it up among the
/// members.
pub proof fn lemma_lookup_view(ms: Seq<JsonMember>, key: Seq<char>)
    ensures
        spec_lookup_view(members_view(ms), key) == (match spec_lookup(ms, key) {
            None => None::<Option<Seq<char>>>,
            Some(JsonValue::Null) => Some(None::<Seq<char>>),
            Some(JsonValue::Text(t)) => Some(Some(t@)),
        }),
    decreases ms.len(),
{
    if ms.len() > 0 {
        assert(members_view(ms).last() == member_view(ms.last()));
        assert(members_view(ms).drop_last() =~= members_view(ms.drop_last()));
        if ms.last().key@ != key {
            lemma_lookup_view(ms.drop_last(), key);
        }
    }
}

/// Find the member stored under a key, the last occurrence winning.
pub fn find_member<'a>(ms: &'a Vec<JsonMember>, key: &str) -> (r: Option<&'a JsonValue>)
    ensures
        match r {
            Some(v) => spec_lookup(ms@, key@) == Some(*v),
            None => spec_lookup(ms@, key@) is None,
        },
{
    let mut i = ms.len();
    proof {
        assert(ms@.subrange(0, ms@.len() as int) =~= ms@);
    }
    while i > 0
        invariant
            i <= ms@.len(),
            spec_lookup(ms@, key@) == spec_lookup(ms@.subrange(0, i as int), key@),
        decreases i,
    {
        i -= 1;
        proof {
            assert(ms@.subrange(0, i + 1).drop_last() =~= ms@.subrange(0, i as int));
            assert(ms@.subrange(0, i + 1).last() == ms@[i as int]);
        }
        if crate::common::str_eq(ms[i].key.as_str(), key) {
            return Some(&ms[i].value);
        }
    }
    proof {
        assert(ms@.subrange(0, 0) =~= Seq::<JsonMember>::empty());
    }
    None
}

} // verus!
