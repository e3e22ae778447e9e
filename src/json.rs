//! The JSON that events are written in: escaping, and a reader for objects
//! whose values are strings or objects of strings.
use vstd::prelude::*;
use crate::text::chars_of;

verus! {

/// The lower-case hexadecimal digit for `d` (below 16).
pub open spec fn hex_digit(d: nat) -> char {
    if d < 10 {
        ((d + 48) as u8) as char
    } else {
        ((d + 87) as u8) as char
    }
}

/// How one character is written inside a JSON string: `"` and `\` and the
/// control characters are escaped, the short forms where JSON has them.
pub open spec fn escape_char(c: char) -> Seq<char> {
    if c == '"' {
        seq!['\\', '"']
    } else if c == '\\' {
        seq!['\\', '\\']
    } else if c == '\n' {
        seq!['\\', 'n']
    } else if c == '\r' {
        seq!['\\', 'r']
    } else if c == '\t' {
        seq!['\\', 't']
    } else if c == '\x08' {
        seq!['\\', 'b']
    } else if c == '\x0c' {
        seq!['\\', 'f']
    } else if (c as u32) < 0x20 {
        seq![
            '\\',
            'u',
            '0',
            '0',
            hex_digit((c as u32 / 16) as nat),
            hex_digit((c as u32 % 16) as nat),
        ]
    } else {
        seq![c]
    }
}

/// The characters of `s`, each written as `escape_char` says.
pub open spec fn escape(s: Seq<char>) -> Seq<char>
    decreases s.len(),
{
    if s.len() == 0 {
        Seq::empty()
    } else {
        escape_char(s[0]) + escape(s.drop_first())
    }
}

/// `s` as a JSON string literal.
pub open spec fn json_string(s: Seq<char>) -> Seq<char> {
    seq!['"'] + escape(s) + seq!['"']
}

/// One member of a JSON object: the key, a colon, the value's text.
pub open spec fn member(key: Seq<char>, value: Seq<char>) -> Seq<char> {
    json_string(key) + seq![':'] + value
}

/// Escaping distributes over concatenation.
pub proof fn lemma_escape_concat(a: Seq<char>, b: Seq<char>)
    ensures
        escape(a + b) == escape(a) + escape(b),
    decreases a.len(),
{
    if a.len() == 0 {
        assert(a + b =~= b);
        assert(escape(a) =~= Seq::<char>::empty());
        assert(escape(a) + escape(b) =~= escape(b));
    } else {
        assert((a + b).drop_first() =~= a.drop_first() + b);
        lemma_escape_concat(a.drop_first(), b);
        assert(escape(a + b) =~= escape(a) + escape(b));
    }
}

/// Appends the characters of `s`.
pub fn push_str(out: &mut Vec<char>, s: &str)
    ensures
        final(out)@ == old(out)@ + s@,
{
    let mut v = chars_of(s);
    out.append(&mut v);
}

fn hex_digit_char(d: u32) -> (c: char)
    requires
        d < 16,
    ensures
        c == hex_digit(d as nat),
{
    if d < 10 {
        ((d + 48) as u8) as char
    } else {
        ((d + 87) as u8) as char
    }
}

/// Appends `c` as it is written inside a JSON string.
pub fn push_escaped_char(out: &mut Vec<char>, c: char)
    ensures
        final(out)@ == old(out)@ + escape_char(c),
{
    let ghost start = out@;
    if c == '"' {
        out.push('\\');
        out.push('"');
    } else if c == '\\' {
        out.push('\\');
        out.push('\\');
    } else if c == '\n' {
        out.push('\\');
        out.push('n');
    } else if c == '\r' {
        out.push('\\');
        out.push('r');
    } else if c == '\t' {
        out.push('\\');
        out.push('t');
    } else if c == '\x08' {
        out.push('\\');
        out.push('b');
    } else if c == '\x0c' {
        out.push('\\');
        out.push('f');
    } else if (c as u32) < 0x20 {
        let code = c as u32;
        out.push('\\');
        out.push('u');
        out.push('0');
        out.push('0');
        out.push(hex_digit_char(code / 16));
        out.push(hex_digit_char(code % 16));
    } else {
        out.push(c);
    }
    assert(out@ =~= start + escape_char(c));
}

/// Appends `s` as a JSON string literal.
pub fn push_json_string(out: &mut Vec<char>, s: &Vec<char>)
    ensures
        final(out)@ == old(out)@ + json_string(s@),
{
    let ghost start = out@;
    out.push('"');
    let mut i: usize = 0;
    while i < s.len()
        invariant
            0 <= i <= s@.len(),
            out@ == start + seq!['"'] + escape(s@.subrange(0, i as int)),
        decreases s@.len() - i,
    {
        proof {
            let a = s@.subrange(0, i as int);
            let b = seq![s@[i as int]];
            assert(s@.subrange(0, i + 1) =~= a + b);
            lemma_escape_concat(a, b);
            assert(b.drop_first() =~= Seq::<char>::empty());
            assert(escape(b.drop_first()) =~= Seq::<char>::empty());
            assert(escape(b) =~= escape_char(s@[i as int]));
        }
        push_escaped_char(out, s[i]);
        i = i + 1;
        assert(out@ =~= start + seq!['"'] + escape(s@.subrange(0, i as int)));
    }
    out.push('"');
    assert(s@.subrange(0, i as int) =~= s@);
    assert(out@ =~= start + json_string(s@));
}

/// Appends one object member: `key`, a colon, then `value` as a JSON string.
pub fn push_string_member(out: &mut Vec<char>, key: &str, value: &Vec<char>)
    ensures
        final(out)@ == old(out)@ + member(key@, json_string(value@)),
{
    let ghost start = out@;
    let k = chars_of(key);
    push_json_string(out, &k);
    out.push(':');
    push_json_string(out, value);
    assert(out@ =~= start + member(key@, json_string(value@)));
}

/// JSON white space.
pub open spec fn is_ws(c: char) -> bool {
    c == ' ' || c == '\t' || c == '\n' || c == '\r'
}

/// `s` without its leading white space.
pub open spec fn skip_ws(s: Seq<char>) -> Seq<char>
    decreases s.len(),
{
    if s.len() > 0 && is_ws(s[0]) {
        skip_ws(s.drop_first())
    } else {
        s
    }
}

/// The value of a hexadecimal digit, either case.
pub open spec fn hex_value(c: char) -> Option<nat> {
    if '0' <= c && c <= '9' {
        Some((c as u32 - 48) as nat)
    } else if 'a' <= c && c <= 'f' {
        Some((c as u32 - 87) as nat)
    } else if 'A' <= c && c <= 'F' {
        Some((c as u32 - 55) as nat)
    } else {
        None
    }
}

/// The character that a two-character escape `\e` stands for.
pub open spec fn short_escape(e: char) -> Option<char> {
    if e == '"' {
        Some('"')
    } else if e == '\\' {
        Some('\\')
    } else if e == '/' {
        Some('/')
    } else if e == 'b' {
        Some('\x08')
    } else if e == 'f' {
        Some('\x0c')
    } else if e == 'n' {
        Some('\n')
    } else if e == 'r' {
        Some('\r')
    } else if e == 't' {
        Some('\t')
    } else {
        None
    }
}

/// Puts `a` in front of the text that a read produced.
pub open spec fn prefix_with(a: Seq<char>, r: Option<(Seq<char>, Seq<char>)>) -> Option<
    (Seq<char>, Seq<char>),
> {
    match r {
        Some((d, rest)) => Some((a + d, rest)),
        None => None,
    }
}

/// Whether `s` starts with a `\u00XY` escape; that is the only form of `\u`
/// escape that is read.
pub open spec fn starts_with_byte_escape(s: Seq<char>) -> bool {
    &&& s.len() >= 6
    &&& s[0] == '\\'
    &&& s[1] == 'u'
    &&& hex_value(s[2]) == Some(0nat)
    &&& hex_value(s[3]) == Some(0nat)
    &&& hex_value(s[4]) is Some
    &&& hex_value(s[5]) is Some
}

/// The character that a `\u00XY` escape at the start of `s` stands for.
pub open spec fn byte_escape_char(s: Seq<char>) -> char {
    ((hex_value(s[4])->0 * 16 + hex_value(s[5])->0) as u8) as char
}

/// Reads the body of a JSON string, up to and including its closing quote:
/// the characters it stands for and the text after the quote. Unescaped
/// control characters are refused.
pub open spec fn unescape(s: Seq<char>) -> Option<(Seq<char>, Seq<char>)>
    decreases s.len(),
{
    if s.len() == 0 {
        None
    } else if s[0] == '"' {
        Some((Seq::empty(), s.drop_first()))
    } else if s[0] == '\\' {
        if starts_with_byte_escape(s) {
            prefix_with(seq![byte_escape_char(s)], unescape(s.skip(6)))
        } else if s.len() >= 2 && short_escape(s[1]) is Some {
            prefix_with(seq![short_escape(s[1])->0], unescape(s.skip(2)))
        } else {
            None
        }
    } else if (s[0] as u32) < 0x20 {
        None
    } else {
        prefix_with(seq![s[0]], unescape(s.drop_first()))
    }
}

/// Reads a JSON string after optional white space: its characters and the text after it.
pub open spec fn parse_string(s: Seq<char>) -> Option<(Seq<char>, Seq<char>)> {
    let t = skip_ws(s);
    if t.len() > 0 && t[0] == '"' {
        unescape(t.drop_first())
    } else {
        None
    }
}

proof fn lemma_prefix_twice(a: Seq<char>, b: Seq<char>, r: Option<(Seq<char>, Seq<char>)>)
    ensures
        prefix_with(a, prefix_with(b, r)) == prefix_with(a + b, r),
{
    match r {
        Some((d, rest)) => {
            assert(a + (b + d) =~= (a + b) + d);
        },
        None => {},
    }
}

fn hex_value_of(c: char) -> (r: Option<u32>)
    ensures
        match r {
            Some(v) => hex_value(c) == Some(v as nat) && v < 16,
            None => hex_value(c) is None,
        },
{
    if '0' <= c && c <= '9' {
        Some(c as u32 - 48)
    } else if 'a' <= c && c <= 'f' {
        Some(c as u32 - 87)
    } else if 'A' <= c && c <= 'F' {
        Some(c as u32 - 55)
    } else {
        None
    }
}

fn short_escape_of(e: char) -> (r: Option<char>)
    ensures
        r == short_escape(e),
{
    if e == '"' {
        Some('"')
    } else if e == '\\' {
        Some('\\')
    } else if e == '/' {
        Some('/')
    } else if e == 'b' {
        Some('\x08')
    } else if e == 'f' {
        Some('\x0c')
    } else if e == 'n' {
        Some('\n')
    } else if e == 'r' {
        Some('\r')
    } else if e == 't' {
        Some('\t')
    } else {
        None
    }
}

/// The position after the white space that starts at `pos`.
pub fn skip_ws_at(s: &Vec<char>, pos: usize) -> (r: usize)
    requires
        pos <= s@.len(),
    ensures
        pos <= r <= s@.len(),
        s@.skip(r as int) == skip_ws(s@.skip(pos as int)),
{
    let n = s.len();
    let mut i = pos;
    while i < n && (s[i] == ' ' || s[i] == '\t' || s[i] == '\n' || s[i] == '\r')
        invariant
            n == s@.len(),
            pos <= i <= n,
            skip_ws(s@.skip(pos as int)) == skip_ws(s@.skip(i as int)),
        decreases n - i,
    {
        assert(s@.skip(i as int).drop_first() =~= s@.skip(i + 1));
        i = i + 1;
    }
    i
}

/// Reads the body of a JSON string that starts at `pos`, after its opening
/// quote: the characters and the position after the closing quote.
pub fn read_string_body(s: &Vec<char>, pos: usize) -> (r: Option<(Vec<char>, usize)>)
    requires
        pos <= s@.len(),
    ensures
        match r {
            Some((v, p)) => pos < p <= s@.len() && unescape(s@.skip(pos as int)) == Some(
                (v@, s@.skip(p as int)),
            ),
            None => unescape(s@.skip(pos as int)) is None,
        },
{
    let n = s.len();
    let mut out: Vec<char> = Vec::new();
    let mut i = pos;
    loop
        invariant
            n == s@.len(),
            pos <= i <= n,
            unescape(s@.skip(pos as int)) == prefix_with(out@, unescape(s@.skip(i as int))),
        decreases n - i,
    {
        let ghost t = s@.skip(i as int);
        if i >= n {
            return None;
        }
        let c = s[i];
        assert(t[0] == c);
        if c == '"' {
            assert(t.drop_first() =~= s@.skip(i + 1));
            assert(out@ + Seq::<char>::empty() =~= out@);
            return Some((out, i + 1));
        } else if c == '\\' {
            let mut escaped: Option<char> = None;
            let mut width: usize = 0;
            if n - i >= 6 && s[i + 1] == 'u' {
                let h0 = hex_value_of(s[i + 2]);
                let h1 = hex_value_of(s[i + 3]);
                let h2 = hex_value_of(s[i + 4]);
                let h3 = hex_value_of(s[i + 5]);
                if h0 == Some(0u32) && h1 == Some(0u32) && h2.is_some() && h3.is_some() {
                    let hi = h2.unwrap();
                    let lo = h3.unwrap();
                    assert(starts_with_byte_escape(t));
                    escaped = Some(((hi * 16 + lo) as u8) as char);
                    width = 6;
                }
            }
            if width == 0 && n - i >= 2 {
                assert(!starts_with_byte_escape(t));
                match short_escape_of(s[i + 1]) {
                    Some(e) => {
                        escaped = Some(e);
                        width = 2;
                    },
                    None => {},
                }
            }
            match escaped {
                None => {
                    assert(unescape(t) is None);
                    return None;
                },
                Some(e) => {
                    proof {
                        lemma_prefix_twice(out@, seq![e], unescape(s@.skip(i + width)));
                        assert(t.skip(width as int) =~= s@.skip(i + width));
                        assert(out@ + seq![e] =~= out@.push(e));
                    }
                    out.push(e);
                    i = i + width;
                },
            }
        } else if (c as u32) < 0x20 {
            return None;
        } else {
            proof {
                lemma_prefix_twice(out@, seq![c], unescape(s@.skip(i + 1)));
                assert(t.drop_first() =~= s@.skip(i + 1));
                assert(out@ + seq![c] =~= out@.push(c));
            }
            out.push(c);
            i = i + 1;
        }
    }
}

/// Reads a JSON string that starts at `pos` after optional white space.
pub fn read_string(s: &Vec<char>, pos: usize) -> (r: Option<(Vec<char>, usize)>)
    requires
        pos <= s@.len(),
    ensures
        match r {
            Some((v, p)) => pos < p <= s@.len() && parse_string(s@.skip(pos as int)) == Some(
                (v@, s@.skip(p as int)),
            ),
            None => parse_string(s@.skip(pos as int)) is None,
        },
{
    let p = skip_ws_at(s, pos);
    if p < s.len() && s[p] == '"' {
        assert(s@.skip(p as int).drop_first() =~= s@.skip(p + 1));
        read_string_body(s, p + 1)
    } else {
        None
    }
}

/// A value of the event objects: a string, or an object whose values are strings.
pub enum JsonValue {
    Str(Seq<char>),
    Obj(Seq<(Seq<char>, Seq<char>)>),
}

/// A read object: its members in order, and the text after it.
pub type PairsRead = Option<(Seq<(Seq<char>, Seq<char>)>, Seq<char>)>;

/// A read top-level object: its members in order, and the text after it.
pub type MembersRead = Option<(Seq<(Seq<char>, JsonValue)>, Seq<char>)>;

/// Reads `"key": "value"` after optional white space.
pub open spec fn parse_pair(s: Seq<char>) -> Option<((Seq<char>, Seq<char>), Seq<char>)> {
    match parse_string(s) {
        Some((k, r)) => {
            let t = skip_ws(r);
            if t.len() > 0 && t[0] == ':' {
                match parse_string(t.drop_first()) {
                    Some((v, r2)) => Some(((k, v), r2)),
                    None => None,
                }
            } else {
                None
            }
        },
        None => None,
    }
}

/// Puts `a` in front of the members that a read produced.
pub open spec fn pairs_prefixed(a: Seq<(Seq<char>, Seq<char>)>, r: PairsRead) -> PairsRead {
    match r {
        Some((ms, rest)) => Some((a + ms, rest)),
        None => None,
    }
}

/// After a member of an object of strings: the members that follow, each
/// after a comma, up to the closing brace.
pub open spec fn parse_pairs_rest(s: Seq<char>) -> PairsRead
    decreases s.len(),
{
    let t = skip_ws(s);
    if t.len() > 0 && t[0] == '}' {
        Some((Seq::empty(), t.drop_first()))
    } else if t.len() > 0 && t[0] == ',' {
        match parse_pair(t.drop_first()) {
            Some((m, r)) => if r.len() < s.len() {
                pairs_prefixed(seq![m], parse_pairs_rest(r))
            } else {
                None
            },
            None => None,
        }
    } else {
        None
    }
}

/// Reads an object whose values are all strings, after optional white space.
pub open spec fn parse_string_object(s: Seq<char>) -> PairsRead {
    let t = skip_ws(s);
    if t.len() > 0 && t[0] == '{' {
        let u = skip_ws(t.drop_first());
        if u.len() > 0 && u[0] == '}' {
            Some((Seq::empty(), u.drop_first()))
        } else {
            match parse_pair(u) {
                Some((m, r)) => pairs_prefixed(seq![m], parse_pairs_rest(r)),
                None => None,
            }
        }
    } else {
        None
    }
}

/// Reads a string, or an object of strings, after optional white space.
pub open spec fn parse_value(s: Seq<char>) -> Option<(JsonValue, Seq<char>)> {
    let t = skip_ws(s);
    if t.len() > 0 && t[0] == '"' {
        match unescape(t.drop_first()) {
            Some((v, r)) => Some((JsonValue::Str(v), r)),
            None => None,
        }
    } else {
        match parse_string_object(s) {
            Some((ms, r)) => Some((JsonValue::Obj(ms), r)),
            None => None,
        }
    }
}

/// Reads `"key": value` after optional white space.
pub open spec fn parse_member(s: Seq<char>) -> Option<((Seq<char>, JsonValue), Seq<char>)> {
    match parse_string(s) {
        Some((k, r)) => {
            let t = skip_ws(r);
            if t.len() > 0 && t[0] == ':' {
                match parse_value(t.drop_first()) {
                    Some((v, r2)) => Some(((k, v), r2)),
                    None => None,
                }
            } else {
                None
            }
        },
        None => None,
    }
}

/// Puts `a` in front of the members that a read produced.
pub open spec fn members_prefixed(a: Seq<(Seq<char>, JsonValue)>, r: MembersRead) -> MembersRead {
    match r {
        Some((ms, rest)) => Some((a + ms, rest)),
        None => None,
    }
}

/// After a member of the top-level object: the members that follow, each
/// after a comma, up to the closing brace.
pub open spec fn parse_members_rest(s: Seq<char>) -> MembersRead
    decreases s.len(),
{
    let t = skip_ws(s);
    if t.len() > 0 && t[0] == '}' {
        Some((Seq::empty(), t.drop_first()))
    } else if t.len() > 0 && t[0] == ',' {
        match parse_member(t.drop_first()) {
            Some((m, r)) => if r.len() < s.len() {
                members_prefixed(seq![m], parse_members_rest(r))
            } else {
                None
            },
            None => None,
        }
    } else {
        None
    }
}

/// Reads the top-level object, whose values are strings or objects of
/// strings, after optional white space.
pub open spec fn parse_object(s: Seq<char>) -> MembersRead {
    let t = skip_ws(s);
    if t.len() > 0 && t[0] == '{' {
        let u = skip_ws(t.drop_first());
        if u.len() > 0 && u[0] == '}' {
            Some((Seq::empty(), u.drop_first()))
        } else {
            match parse_member(u) {
                Some((m, r)) => members_prefixed(seq![m], parse_members_rest(r)),
                None => None,
            }
        }
    } else {
        None
    }
}

/// The text of one JSON document holding one such object, with nothing but
/// white space after it.
pub open spec fn parse_document(s: Seq<char>) -> Option<Seq<(Seq<char>, JsonValue)>> {
    match parse_object(s) {
        Some((ms, rest)) => if skip_ws(rest).len() == 0 {
            Some(ms)
        } else {
            None
        },
        None => None,
    }
}

/// The value of the first member named `key`.
pub open spec fn lookup<V>(ms: Seq<(Seq<char>, V)>, key: Seq<char>) -> Option<V>
    decreases ms.len(),
{
    if ms.len() == 0 {
        None
    } else if ms[0].0 == key {
        Some(ms[0].1)
    } else {
        lookup(ms.drop_first(), key)
    }
}

proof fn lemma_hex_round_trip(d: nat)
    requires
        d < 16,
    ensures
        hex_value(hex_digit(d)) == Some(d),
{
}

/// Reading an escaped string body, closed by a quote, gives back the
/// characters and what follows the quote.
pub proof fn lemma_unescape_escape(v: Seq<char>, rest: Seq<char>)
    ensures
        unescape(escape(v) + seq!['"'] + rest) == Some((v, rest)),
    decreases v.len(),
{
    let s = escape(v) + seq!['"'] + rest;
    if v.len() == 0 {
        assert(escape(v) =~= Seq::<char>::empty());
        assert(s =~= seq!['"'] + rest);
        assert(s.drop_first() =~= rest);
    } else {
        let c = v[0];
        let t = v.drop_first();
        let x = escape(t) + seq!['"'] + rest;
        lemma_unescape_escape(t, rest);
        let e = escape_char(c);
        assert(s =~= e + x);
        assert(seq![c] + t =~= v);
        if c == '"' || c == '\\' || c == '\n' || c == '\r' || c == '\t' || c == '\x08' || c
            == '\x0c' {
            assert(s[0] == '\\');
            assert(s[1] == e[1]);
            assert(!starts_with_byte_escape(s));
            assert(short_escape(s[1]) == Some(c));
            assert(s.skip(2) =~= x);
        } else if (c as u32) < 0x20 {
            let code = c as u32;
            let hi = (code / 16) as nat;
            let lo = (code % 16) as nat;
            lemma_hex_round_trip(hi);
            lemma_hex_round_trip(lo);
            lemma_hex_round_trip(0);
            assert(s[0] == '\\');
            assert(s[1] == 'u');
            assert(s[2] == hex_digit(0));
            assert(s[3] == hex_digit(0));
            assert(s[4] == hex_digit(hi));
            assert(s[5] == hex_digit(lo));
            assert(starts_with_byte_escape(s));
            let b = byte_escape_char(s);
            assert(hi * 16 + lo == code);
            assert(b as u32 == code);
            vstd::utf8::char_u32_cast(b, code);
            vstd::utf8::char_u32_cast(c, code);
            assert(b == c);
            assert(s.skip(6) =~= x);
        } else {
            assert(e =~= seq![c]);
            assert(s[0] == c);
            assert(s.drop_first() =~= x);
        }
    }
}

/// A JSON string literal reads back as its characters.
pub proof fn lemma_parse_json_string(v: Seq<char>, rest: Seq<char>)
    ensures
        parse_string(json_string(v) + rest) == Some((v, rest)),
        parse_value(json_string(v) + rest) == Some((JsonValue::Str(v), rest)),
{
    let s = json_string(v) + rest;
    assert(s[0] == '"');
    assert(skip_ws(s) == s);
    assert(s.drop_first() =~= escape(v) + seq!['"'] + rest);
    lemma_unescape_escape(v, rest);
}

/// A member whose value is a string literal reads back as its key and value.
pub proof fn lemma_parse_string_member(k: Seq<char>, v: Seq<char>, rest: Seq<char>)
    ensures
        parse_pair(member(k, json_string(v)) + rest) == Some(((k, v), rest)),
        parse_member(member(k, json_string(v)) + rest) == Some(((k, JsonValue::Str(v)), rest)),
{
    let s = member(k, json_string(v)) + rest;
    let after_key = seq![':'] + json_string(v) + rest;
    assert(s =~= json_string(k) + after_key);
    lemma_parse_json_string(k, after_key);
    assert(after_key[0] == ':');
    assert(skip_ws(after_key) == after_key);
    assert(after_key.drop_first() =~= json_string(v) + rest);
    lemma_parse_json_string(v, rest);
}

/// One more string member, after a comma, in front of members that read back.
proof fn lemma_pairs_rest_step(
    k: Seq<char>,
    v: Seq<char>,
    tail: Seq<char>,
    ps: Seq<(Seq<char>, Seq<char>)>,
    rest: Seq<char>,
)
    requires
        parse_pairs_rest(tail) == Some((ps, rest)),
    ensures
        parse_pairs_rest(seq![','] + member(k, json_string(v)) + tail) == Some(
            (seq![(k, v)] + ps, rest),
        ),
{
    let s = seq![','] + member(k, json_string(v)) + tail;
    assert(s[0] == ',');
    assert(skip_ws(s) == s);
    assert(s.drop_first() =~= member(k, json_string(v)) + tail);
    lemma_parse_string_member(k, v, tail);
}

/// The closing brace ends the members, and what follows it is left.
proof fn lemma_pairs_rest_close(rest: Seq<char>)
    ensures
        parse_pairs_rest(seq!['}'] + rest) == Some((Seq::<(Seq<char>, Seq<char>)>::empty(), rest)),
{
    let s = seq!['}'] + rest;
    assert(skip_ws(s) == s);
    assert(s.drop_first() =~= rest);
}

/// An object whose first member is a string member reads back as that
/// member followed by the members after it.
proof fn lemma_string_object_open(
    k: Seq<char>,
    v: Seq<char>,
    tail: Seq<char>,
    ps: Seq<(Seq<char>, Seq<char>)>,
    rest: Seq<char>,
)
    requires
        parse_pairs_rest(tail) == Some((ps, rest)),
    ensures
        parse_string_object(seq!['{'] + member(k, json_string(v)) + tail) == Some(
            (seq![(k, v)] + ps, rest),
        ),
{
    let body = member(k, json_string(v)) + tail;
    let s = seq!['{'] + member(k, json_string(v)) + tail;
    assert(s =~= seq!['{'] + body);
    assert(skip_ws(s) == s);
    assert(s.drop_first() =~= body);
    assert(body[0] == '"');
    assert(skip_ws(body) == body);
    lemma_parse_string_member(k, v, tail);
}

/// An object of two string members reads back as those members.
pub proof fn lemma_parse_pair_object(
    k1: Seq<char>,
    v1: Seq<char>,
    k2: Seq<char>,
    v2: Seq<char>,
    rest: Seq<char>,
)
    ensures
        parse_string_object(seq!['{'] + member(k1, json_string(v1)) + seq![','] + member(
            k2,
            json_string(v2),
        ) + seq!['}'] + rest) == Some((seq![(k1, v1), (k2, v2)], rest)),
{
    let e = Seq::<(Seq<char>, Seq<char>)>::empty();
    let close = seq!['}'] + rest;
    let tail = seq![','] + member(k2, json_string(v2)) + close;
    lemma_pairs_rest_close(rest);
    lemma_pairs_rest_step(k2, v2, close, e, rest);
    lemma_string_object_open(k1, v1, tail, seq![(k2, v2)] + e, rest);
    assert(seq!['{'] + member(k1, json_string(v1)) + seq![','] + member(k2, json_string(v2))
        + seq!['}'] + rest =~= seq!['{'] + member(k1, json_string(v1)) + tail);
    assert(seq![(k1, v1)] + (seq![(k2, v2)] + e) =~= seq![(k1, v1), (k2, v2)]);
}

/// An object of three string members reads back as those members.
pub proof fn lemma_parse_triple_object(
    k1: Seq<char>,
    v1: Seq<char>,
    k2: Seq<char>,
    v2: Seq<char>,
    k3: Seq<char>,
    v3: Seq<char>,
    rest: Seq<char>,
)
    ensures
        parse_string_object(seq!['{'] + member(k1, json_string(v1)) + seq![','] + member(
            k2,
            json_string(v2),
        ) + seq![','] + member(k3, json_string(v3)) + seq!['}'] + rest) == Some(
            (seq![(k1, v1), (k2, v2), (k3, v3)], rest),
        ),
{
    let e = Seq::<(Seq<char>, Seq<char>)>::empty();
    let close = seq!['}'] + rest;
    let tail3 = seq![','] + member(k3, json_string(v3)) + close;
    let tail2 = seq![','] + member(k2, json_string(v2)) + tail3;
    lemma_pairs_rest_close(rest);
    lemma_pairs_rest_step(k3, v3, close, e, rest);
    lemma_pairs_rest_step(k2, v2, tail3, seq![(k3, v3)] + e, rest);
    lemma_string_object_open(k1, v1, tail2, seq![(k2, v2)] + (seq![(k3, v3)] + e), rest);
    assert(seq!['{'] + member(k1, json_string(v1)) + seq![','] + member(k2, json_string(v2))
        + seq![','] + member(k3, json_string(v3)) + seq!['}'] + rest =~= seq!['{'] + member(
        k1,
        json_string(v1),
    ) + tail2);
    assert(seq![(k1, v1)] + (seq![(k2, v2)] + (seq![(k3, v3)] + e)) =~= seq![
        (k1, v1),
        (k2, v2),
        (k3, v3),
    ]);
}

/// A member reads back as its key and the value that its value text reads as.
pub proof fn lemma_parse_member_with(k: Seq<char>, text: Seq<char>, v: JsonValue, rest: Seq<char>)
    requires
        parse_value(text + rest) == Some((v, rest)),
    ensures
        parse_member(member(k, text) + rest) == Some(((k, v), rest)),
{
    let s = member(k, text) + rest;
    let after_key = seq![':'] + text + rest;
    assert(s =~= json_string(k) + after_key);
    lemma_parse_json_string(k, after_key);
    assert(after_key[0] == ':');
    assert(skip_ws(after_key) == after_key);
    assert(after_key.drop_first() =~= text + rest);
}

/// An object text that reads as members of strings reads as an object value.
pub proof fn lemma_parse_object_value(text: Seq<char>, ps: Seq<(Seq<char>, Seq<char>)>, rest: Seq<char>)
    requires
        text.len() > 0,
        text[0] == '{',
        parse_string_object(text + rest) == Some((ps, rest)),
    ensures
        parse_value(text + rest) == Some((JsonValue::Obj(ps), rest)),
{
    let s = text + rest;
    assert(s[0] == '{');
    assert(skip_ws(s) == s);
}

/// One more member, after a comma, in front of members that read back.
proof fn lemma_members_rest_step(
    k: Seq<char>,
    text: Seq<char>,
    v: JsonValue,
    tail: Seq<char>,
    ms: Seq<(Seq<char>, JsonValue)>,
    rest: Seq<char>,
)
    requires
        parse_value(text + tail) == Some((v, tail)),
        parse_members_rest(tail) == Some((ms, rest)),
    ensures
        parse_members_rest(seq![','] + member(k, text) + tail) == Some((seq![(k, v)] + ms, rest)),
{
    let s = seq![','] + member(k, text) + tail;
    assert(s[0] == ',');
    assert(skip_ws(s) == s);
    assert(s.drop_first() =~= member(k, text) + tail);
    lemma_parse_member_with(k, text, v, tail);
}

/// A top-level object of four members reads back as those members; each
/// `tail` is the text after a member's value.
pub proof fn lemma_parse_four_members(
    k1: Seq<char>,
    t1: Seq<char>,
    v1: JsonValue,
    k2: Seq<char>,
    t2: Seq<char>,
    v2: JsonValue,
    k3: Seq<char>,
    t3: Seq<char>,
    v3: JsonValue,
    k4: Seq<char>,
    t4: Seq<char>,
    v4: JsonValue,
    tail1: Seq<char>,
    tail2: Seq<char>,
    tail3: Seq<char>,
)
    requires
        tail3 == seq![','] + member(k4, t4) + seq!['}'],
        tail2 == seq![','] + member(k3, t3) + tail3,
        tail1 == seq![','] + member(k2, t2) + tail2,
        parse_value(t1 + tail1) == Some((v1, tail1)),
        parse_value(t2 + tail2) == Some((v2, tail2)),
        parse_value(t3 + tail3) == Some((v3, tail3)),
        parse_value(t4 + seq!['}']) == Some((v4, seq!['}'])),
    ensures
        parse_document(seq!['{'] + member(k1, t1) + tail1) == Some(
            seq![(k1, v1), (k2, v2), (k3, v3), (k4, v4)],
        ),
{
    let close = seq!['}'];
    let none = Seq::<char>::empty();
    let e = Seq::<(Seq<char>, JsonValue)>::empty();
    assert(skip_ws(close) == close);
    assert(close.drop_first() =~= none);
    assert(parse_members_rest(close) == Some((e, none)));
    lemma_members_rest_step(k4, t4, v4, close, e, none);
    lemma_members_rest_step(k3, t3, v3, tail3, seq![(k4, v4)] + e, none);
    lemma_members_rest_step(k2, t2, v2, tail2, seq![(k3, v3)] + (seq![(k4, v4)] + e), none);
    let body = member(k1, t1) + tail1;
    let s = seq!['{'] + body;
    assert(s == seq!['{'] + member(k1, t1) + tail1) by {
        assert(s =~= seq!['{'] + member(k1, t1) + tail1);
    }
    assert(skip_ws(s) == s);
    assert(s.drop_first() =~= body);
    assert(body[0] == '"');
    assert(skip_ws(body) == body);
    lemma_parse_member_with(k1, t1, v1, tail1);
    assert(seq![(k1, v1)] + (seq![(k2, v2)] + (seq![(k3, v3)] + (seq![(k4, v4)] + e))) =~= seq![
        (k1, v1),
        (k2, v2),
        (k3, v3),
        (k4, v4),
    ]);
    assert(skip_ws(none) == none);
}

/// A string or an object of strings, as read.
#[derive(Debug)]
pub enum JValue {
    Str(Vec<char>),
    Obj(Vec<(Vec<char>, Vec<char>)>),
}

/// The content of read members of strings.
pub open spec fn pairs_view(v: Seq<(Vec<char>, Vec<char>)>) -> Seq<(Seq<char>, Seq<char>)> {
    v.map_values(|p: (Vec<char>, Vec<char>)| (p.0@, p.1@))
}

impl View for JValue {
    type V = JsonValue;

    open spec fn view(&self) -> JsonValue {
        match self {
            JValue::Str(s) => JsonValue::Str(s@),
            JValue::Obj(ps) => JsonValue::Obj(pairs_view(ps@)),
        }
    }
}

/// The content of read members.
pub open spec fn members_view(v: Seq<(Vec<char>, JValue)>) -> Seq<(Seq<char>, JsonValue)> {
    v.map_values(|p: (Vec<char>, JValue)| (p.0@, p.1@))
}

/// Reads `"key": "value"` at `pos`.
fn read_pair(s: &Vec<char>, pos: usize) -> (r: Option<((Vec<char>, Vec<char>), usize)>)
    requires
        pos <= s@.len(),
    ensures
        match r {
            Some((m, p)) => pos < p <= s@.len() && parse_pair(s@.skip(pos as int)) == Some(
                ((m.0@, m.1@), s@.skip(p as int)),
            ),
            None => parse_pair(s@.skip(pos as int)) is None,
        },
{
    match read_string(s, pos) {
        None => None,
        Some((k, key_end)) => {
            let colon = skip_ws_at(s, key_end);
            if colon < s.len() && s[colon] == ':' {
                assert(s@.skip(colon as int).drop_first() =~= s@.skip(colon + 1));
                match read_string(s, colon + 1) {
                    Some((v, value_end)) => Some(((k, v), value_end)),
                    None => None,
                }
            } else {
                None
            }
        },
    }
}

/// Reads the members after the first one of an object of strings, up to
/// and including the closing brace, from `pos`.
fn read_pairs_rest(s: &Vec<char>, pos: usize) -> (r: Option<(Vec<(Vec<char>, Vec<char>)>, usize)>)
    requires
        pos <= s@.len(),
    ensures
        match r {
            Some((ms, p)) => pos < p <= s@.len() && parse_pairs_rest(s@.skip(pos as int)) == Some(
                (pairs_view(ms@), s@.skip(p as int)),
            ),
            None => parse_pairs_rest(s@.skip(pos as int)) is None,
        },
{
    let n = s.len();
    let mut acc: Vec<(Vec<char>, Vec<char>)> = Vec::new();
    let mut i = pos;
    loop
        invariant
            n == s@.len(),
            pos <= i <= n,
            parse_pairs_rest(s@.skip(pos as int)) == pairs_prefixed(
                pairs_view(acc@),
                parse_pairs_rest(s@.skip(i as int)),
            ),
        decreases n - i,
    {
        let p = skip_ws_at(s, i);
        if p < n && s[p] == '}' {
            assert(s@.skip(p as int).drop_first() =~= s@.skip(p + 1));
            assert(pairs_view(acc@) + Seq::empty() =~= pairs_view(acc@));
            return Some((acc, p + 1));
        } else if p < n && s[p] == ',' {
            assert(s@.skip(p as int).drop_first() =~= s@.skip(p + 1));
            match read_pair(s, p + 1) {
                None => {
                    return None;
                },
                Some((m, q)) => {
                    let ghost mv = (m.0@, m.1@);
                    proof {
                        let a = pairs_view(acc@);
                        let rest = parse_pairs_rest(s@.skip(q as int));
                        match rest {
                            Some((ms, r2)) => {
                                assert(a + (seq![mv] + ms) =~= a.push(mv) + ms);
                            },
                            None => {},
                        }
                        assert(pairs_view(acc@.push(m)) =~= a.push(mv));
                    }
                    acc.push(m);
                    i = q;
                },
            }
        } else {
            return None;
        }
    }
}

/// Reads an object of strings at `pos`.
fn read_string_object(s: &Vec<char>, pos: usize) -> (r: Option<(Vec<(Vec<char>, Vec<char>)>, usize)>)
    requires
        pos <= s@.len(),
    ensures
        match r {
            Some((ms, p)) => pos < p <= s@.len() && parse_string_object(s@.skip(pos as int))
                == Some((pairs_view(ms@), s@.skip(p as int))),
            None => parse_string_object(s@.skip(pos as int)) is None,
        },
{
    let n = s.len();
    let p = skip_ws_at(s, pos);
    if !(p < n && s[p] == '{') {
        return None;
    }
    assert(s@.skip(p as int).drop_first() =~= s@.skip(p + 1));
    let q = skip_ws_at(s, p + 1);
    if q < n && s[q] == '}' {
        assert(s@.skip(q as int).drop_first() =~= s@.skip(q + 1));
        let empty: Vec<(Vec<char>, Vec<char>)> = Vec::new();
        assert(pairs_view(empty@) =~= Seq::empty());
        return Some((empty, q + 1));
    }
    match read_pair(s, q) {
        None => None,
        Some((m, r1)) => {
            match read_pairs_rest(s, r1) {
                None => None,
                Some((ms, r2)) => {
                    let ghost mv = (m.0@, m.1@);
                    let mut all: Vec<(Vec<char>, Vec<char>)> = Vec::new();
                    all.push(m);
                    let mut tail = ms;
                    let ghost tail_view = pairs_view(tail@);
                    all.append(&mut tail);
                    assert(pairs_view(all@) =~= seq![mv] + tail_view);
                    Some((all, r2))
                },
            }
        },
    }
}

/// Reads a string or an object of strings at `pos`.
fn read_value(s: &Vec<char>, pos: usize) -> (r: Option<(JValue, usize)>)
    requires
        pos <= s@.len(),
    ensures
        match r {
            Some((v, p)) => pos < p <= s@.len() && parse_value(s@.skip(pos as int)) == Some(
                (v@, s@.skip(p as int)),
            ),
            None => parse_value(s@.skip(pos as int)) is None,
        },
{
    let p = skip_ws_at(s, pos);
    if p < s.len() && s[p] == '"' {
        assert(s@.skip(p as int).drop_first() =~= s@.skip(p + 1));
        match read_string_body(s, p + 1) {
            Some((v, q)) => Some((JValue::Str(v), q)),
            None => None,
        }
    } else {
        match read_string_object(s, pos) {
            Some((ms, q)) => Some((JValue::Obj(ms), q)),
            None => None,
        }
    }
}

/// Reads `"key": value` at `pos`.
fn read_member(s: &Vec<char>, pos: usize) -> (r: Option<((Vec<char>, JValue), usize)>)
    requires
        pos <= s@.len(),
    ensures
        match r {
            Some((m, p)) => pos < p <= s@.len() && parse_member(s@.skip(pos as int)) == Some(
                ((m.0@, m.1@), s@.skip(p as int)),
            ),
            None => parse_member(s@.skip(pos as int)) is None,
        },
{
    match read_string(s, pos) {
        None => None,
        Some((k, key_end)) => {
            let colon = skip_ws_at(s, key_end);
            if colon < s.len() && s[colon] == ':' {
                assert(s@.skip(colon as int).drop_first() =~= s@.skip(colon + 1));
                match read_value(s, colon + 1) {
                    Some((v, value_end)) => Some(((k, v), value_end)),
                    None => None,
                }
            } else {
                None
            }
        },
    }
}

/// Reads the members after the first one of the top-level object, up to and
/// including the closing brace, from `pos`.
fn read_members_rest(s: &Vec<char>, pos: usize) -> (r: Option<(Vec<(Vec<char>, JValue)>, usize)>)
    requires
        pos <= s@.len(),
    ensures
        match r {
            Some((ms, p)) => pos < p <= s@.len() && parse_members_rest(s@.skip(pos as int))
                == Some((members_view(ms@), s@.skip(p as int))),
            None => parse_members_rest(s@.skip(pos as int)) is None,
        },
{
    let n = s.len();
    let mut acc: Vec<(Vec<char>, JValue)> = Vec::new();
    let mut i = pos;
    loop
        invariant
            n == s@.len(),
            pos <= i <= n,
            parse_members_rest(s@.skip(pos as int)) == members_prefixed(
                members_view(acc@),
                parse_members_rest(s@.skip(i as int)),
            ),
        decreases n - i,
    {
        let p = skip_ws_at(s, i);
        if p < n && s[p] == '}' {
            assert(s@.skip(p as int).drop_first() =~= s@.skip(p + 1));
            assert(members_view(acc@) + Seq::empty() =~= members_view(acc@));
            return Some((acc, p + 1));
        } else if p < n && s[p] == ',' {
            assert(s@.skip(p as int).drop_first() =~= s@.skip(p + 1));
            match read_member(s, p + 1) {
                None => {
                    return None;
                },
                Some((m, q)) => {
                    let ghost mv = (m.0@, m.1@);
                    proof {
                        let a = members_view(acc@);
                        let rest = parse_members_rest(s@.skip(q as int));
                        match rest {
                            Some((ms, r2)) => {
                                assert(a + (seq![mv] + ms) =~= a.push(mv) + ms);
                            },
                            None => {},
                        }
                        assert(members_view(acc@.push(m)) =~= a.push(mv));
                    }
                    acc.push(m);
                    i = q;
                },
            }
        } else {
            return None;
        }
    }
}

/// Reads one JSON document holding the top-level object, with nothing but
/// white space after it.
pub fn read_document(s: &Vec<char>) -> (r: Option<Vec<(Vec<char>, JValue)>>)
    ensures
        match r {
            Some(ms) => parse_document(s@) == Some(members_view(ms@)),
            None => parse_document(s@) is None,
        },
{
    let n = s.len();
    assert(s@.skip(0) =~= s@);
    let p = skip_ws_at(s, 0);
    if !(p < n && s[p] == '{') {
        return None;
    }
    assert(s@.skip(p as int).drop_first() =~= s@.skip(p + 1));
    let q = skip_ws_at(s, p + 1);
    let mut members: Vec<(Vec<char>, JValue)> = Vec::new();
    let mut end: usize = 0;
    if q < n && s[q] == '}' {
        assert(s@.skip(q as int).drop_first() =~= s@.skip(q + 1));
        assert(members_view(members@) =~= Seq::empty());
        end = q + 1;
    } else {
        match read_member(s, q) {
            None => {
                return None;
            },
            Some((m, r1)) => {
                match read_members_rest(s, r1) {
                    None => {
                        return None;
                    },
                    Some((ms, r2)) => {
                        let ghost mv = (m.0@, m.1@);
                        members.push(m);
                        let mut tail = ms;
                        let ghost tail_view = members_view(tail@);
                        members.append(&mut tail);
                        assert(members_view(members@) =~= seq![mv] + tail_view);
                        end = r2;
                    },
                }
            },
        }
    }
    let last = skip_ws_at(s, end);
    if last == n {
        assert(s@.skip(last as int) =~= Seq::<char>::empty());
        Some(members)
    } else {
        None
    }
}

} // verus!
