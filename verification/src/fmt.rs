//! Number and JSON text rendering: decimal and hexadecimal digits, and the
//! compact JSON text that `serde_json::to_string` writes for strings, arrays
//! and objects.
use vstd::prelude::*;
use crate::text::{append, append_str, chars_of, join, join_chars, texts};

verus! {

pub open spec fn digit_char(d: nat) -> char
    recommends
        d < 16,
{
    if d < 10 {
        (('0' as nat) + d) as char
    } else {
        (('a' as nat) + (d - 10)) as char
    }
}

/// Decimal digits of `n`, without sign or padding.
pub open spec fn dec(n: nat) -> Seq<char>
    decreases n,
{
    if n < 10 {
        seq![digit_char(n)]
    } else {
        dec(n / 10).push(digit_char(n % 10))
    }
}

/// `n` zero padded to at least `width` digits, as `{n:0width$}` writes it.
pub open spec fn dec_pad(n: nat, width: nat) -> Seq<char> {
    let d = dec(n);
    if d.len() < width {
        Seq::new((width - d.len()) as nat, |i: int| '0') + d
    } else {
        d
    }
}

/// Decimal text of a signed integer, as `{}` writes it.
pub open spec fn dec_int(n: int) -> Seq<char> {
    if n < 0 {
        seq!['-'] + dec((-n) as nat)
    } else {
        dec(n as nat)
    }
}

/// Two lowercase hex digits of a byte, as `{:02x}` writes it.
pub open spec fn hex_byte(b: u8) -> Seq<char> {
    seq![digit_char((b / 16) as nat), digit_char((b % 16) as nat)]
}

pub open spec fn hex_bytes(bs: Seq<u8>) -> Seq<char>
    decreases bs.len(),
{
    if bs.len() == 0 {
        seq![]
    } else {
        hex_bytes(bs.drop_last()) + hex_byte(bs.last())
    }
}

/// The escape that `serde_json` writes for one character inside a string.
pub open spec fn json_escape_char(c: char) -> Seq<char> {
    if c == '"' {
        seq!['\\', '"']
    } else if c == '\\' {
        seq!['\\', '\\']
    } else if c == '\u{8}' {
        seq!['\\', 'b']
    } else if c == '\u{9}' {
        seq!['\\', 't']
    } else if c == '\u{a}' {
        seq!['\\', 'n']
    } else if c == '\u{c}' {
        seq!['\\', 'f']
    } else if c == '\u{d}' {
        seq!['\\', 'r']
    } else if (c as u32) < 32 {
        seq!['\\', 'u', '0', '0'] + hex_byte(c as u8)
    } else {
        seq![c]
    }
}

pub open spec fn json_escape(s: Seq<char>) -> Seq<char>
    decreases s.len(),
{
    if s.len() == 0 {
        seq![]
    } else {
        json_escape(s.drop_last()) + json_escape_char(s.last())
    }
}

/// A JSON string literal.
pub open spec fn json_string(s: Seq<char>) -> Seq<char> {
    seq!['"'] + json_escape(s) + seq!['"']
}

pub open spec fn json_null() -> Seq<char> {
    seq!['n', 'u', 'l', 'l']
}

pub open spec fn json_opt_string(o: Option<Seq<char>>) -> Seq<char> {
    match o {
        Some(s) => json_string(s),
        None => json_null(),
    }
}

pub open spec fn json_bool(b: bool) -> Seq<char> {
    if b {
        seq!['t', 'r', 'u', 'e']
    } else {
        seq!['f', 'a', 'l', 's', 'e']
    }
}

/// A JSON array of strings.
pub open spec fn json_string_array(items: Seq<Seq<char>>) -> Seq<char> {
    seq!['['] + join(items.map_values(|s: Seq<char>| json_string(s)), seq![',']) + seq![']']
}

/// One `"key":value` member, the value already rendered.
pub open spec fn json_member(m: (Seq<char>, Seq<char>)) -> Seq<char> {
    json_string(m.0) + seq![':'] + m.1
}

/// A JSON object whose members are written in the given order.
pub open spec fn json_object(members: Seq<(Seq<char>, Seq<char>)>) -> Seq<char> {
    seq!['{'] + join(members.map_values(|m: (Seq<char>, Seq<char>)| json_member(m)), seq![','])
        + seq!['}']
}

// ---------------------------------------------------------------------------
// Executable rendering
// ---------------------------------------------------------------------------

pub fn digit_exec(d: u8) -> (c: char)
    requires
        d < 16,
    ensures
        c == digit_char(d as nat),
{
    if d < 10 {
        let n: u8 = 48 + d;
        n as char
    } else {
        let n: u8 = 87 + d;
        n as char
    }
}

pub fn push_dec(out: &mut Vec<char>, n: u64)
    ensures
        final(out)@ == old(out)@ + dec(n as nat),
    decreases n,
{
    if n >= 10 {
        push_dec(out, n / 10);
    }
    let d: u8 = (n % 10) as u8;
    out.push(digit_exec(d));
    assert(out@ =~= old(out)@ + dec(n as nat));
}

pub proof fn lemma_dec_len(n: nat)
    ensures
        dec(n).len() >= 1,
        n < 10 ==> dec(n).len() == 1,
        n >= 10 ==> dec(n).len() == dec(n / 10).len() + 1,
    decreases n,
{
    if n >= 10 {
        lemma_dec_len(n / 10);
    }
}

pub fn push_dec_pad(out: &mut Vec<char>, n: u64, width: usize)
    ensures
        final(out)@ == old(out)@ + dec_pad(n as nat, width as nat),
{
    let mut d: Vec<char> = Vec::new();
    push_dec(&mut d, n);
    assert(d@ =~= dec(n as nat));
    if d.len() < width {
        let pad = width - d.len();
        let mut i: usize = 0;
        while i < pad
            invariant
                i <= pad,
                out@ == old(out)@ + Seq::new(i as nat, |k: int| '0'),
            decreases pad - i,
        {
            out.push('0');
            i = i + 1;
            assert(out@ =~= old(out)@ + Seq::new(i as nat, |k: int| '0'));
        }
        append(out, &d);
        assert(out@ =~= old(out)@ + dec_pad(n as nat, width as nat));
    } else {
        append(out, &d);
    }
}

pub fn push_dec_int(out: &mut Vec<char>, n: i64)
    ensures
        final(out)@ == old(out)@ + dec_int(n as int),
{
    if n < 0 {
        out.push('-');
        let m: u64 = if n == i64::MIN {
            9223372036854775808u64
        } else {
            (-n) as u64
        };
        push_dec(out, m);
        assert(out@ =~= old(out)@ + dec_int(n as int));
    } else {
        push_dec(out, n as u64);
    }
}

pub fn push_hex_byte(out: &mut Vec<char>, b: u8)
    ensures
        final(out)@ == old(out)@ + hex_byte(b),
{
    out.push(digit_exec(b / 16));
    out.push(digit_exec(b % 16));
    assert(out@ =~= old(out)@ + hex_byte(b));
}

/// Eight lowercase hex digits of a 32-bit number, as `{:08x}` writes it.
pub open spec fn hex_u32(n: u32) -> Seq<char> {
    hex_byte((n / 0x100_0000) as u8) + hex_byte(((n / 0x1_0000) % 0x100) as u8) + hex_byte(
        ((n / 0x100) % 0x100) as u8,
    ) + hex_byte((n % 0x100) as u8)
}

pub fn push_hex_u32(out: &mut Vec<char>, n: u32)
    ensures
        final(out)@ == old(out)@ + hex_u32(n),
{
    push_hex_byte(out, (n / 0x100_0000) as u8);
    push_hex_byte(out, ((n / 0x1_0000) % 0x100) as u8);
    push_hex_byte(out, ((n / 0x100) % 0x100) as u8);
    push_hex_byte(out, (n % 0x100) as u8);
    assert(out@ =~= old(out)@ + hex_u32(n));
}

pub fn hex_of(bytes: &[u8]) -> (r: Vec<char>)
    ensures
        r@ == hex_bytes(bytes@),
{
    let mut r: Vec<char> = Vec::new();
    let mut i: usize = 0;
    while i < bytes.len()
        invariant
            i <= bytes@.len(),
            r@ == hex_bytes(bytes@.take(i as int)),
        decreases bytes@.len() - i,
    {
        push_hex_byte(&mut r, bytes[i]);
        i = i + 1;
        assert(bytes@.take(i as int).drop_last() =~= bytes@.take(i - 1));
    }
    assert(bytes@.take(bytes@.len() as int) =~= bytes@);
    r
}

pub fn push_json_escape_char(out: &mut Vec<char>, c: char)
    ensures
        final(out)@ == old(out)@ + json_escape_char(c),
{
    if c == '"' {
        out.push('\\');
        out.push('"');
    } else if c == '\\' {
        out.push('\\');
        out.push('\\');
    } else if c == '\u{8}' {
        out.push('\\');
        out.push('b');
    } else if c == '\u{9}' {
        out.push('\\');
        out.push('t');
    } else if c == '\u{a}' {
        out.push('\\');
        out.push('n');
    } else if c == '\u{c}' {
        out.push('\\');
        out.push('f');
    } else if c == '\u{d}' {
        out.push('\\');
        out.push('r');
    } else if (c as u32) < 32 {
        out.push('\\');
        out.push('u');
        out.push('0');
        out.push('0');
        push_hex_byte(out, c as u8);
    } else {
        out.push(c);
    }
    assert(out@ =~= old(out)@ + json_escape_char(c));
}

pub fn push_json_string(out: &mut Vec<char>, s: &[char])
    ensures
        final(out)@ == old(out)@ + json_string(s@),
{
    out.push('"');
    let ghost start = out@;
    let mut i: usize = 0;
    while i < s.len()
        invariant
            i <= s@.len(),
            out@ == start + json_escape(s@.take(i as int)),
        decreases s@.len() - i,
    {
        push_json_escape_char(out, s[i]);
        i = i + 1;
        assert(s@.take(i as int).drop_last() =~= s@.take(i - 1));
        assert(out@ =~= start + json_escape(s@.take(i as int)));
    }
    assert(s@.take(s@.len() as int) =~= s@);
    out.push('"');
    assert(out@ =~= old(out)@ + json_string(s@));
}

pub fn push_json_str(out: &mut Vec<char>, s: &str)
    ensures
        final(out)@ == old(out)@ + json_string(s@),
{
    let v = chars_of(s);
    push_json_string(out, &v);
}

pub fn push_json_opt_string(out: &mut Vec<char>, s: &Option<String>)
    ensures
        final(out)@ == old(out)@ + json_opt_string(opt_view(s)),
{
    match s {
        Some(v) => push_json_str(out, v.as_str()),
        None => {
            append_str(out, "null");
            proof {
                reveal_strlit("null");
            }
            assert(out@ =~= old(out)@ + json_null());
        },
    }
}

pub fn push_json_bool(out: &mut Vec<char>, b: bool)
    ensures
        final(out)@ == old(out)@ + json_bool(b),
{
    if b {
        append_str(out, "true");
        proof {
            reveal_strlit("true");
        }
    } else {
        append_str(out, "false");
        proof {
            reveal_strlit("false");
        }
    }
    assert(out@ =~= old(out)@ + json_bool(b));
}

/// The view of an optional text.
pub open spec fn opt_view(s: &Option<String>) -> Option<Seq<char>> {
    match s {
        Some(v) => Some(v@),
        None => None,
    }
}

/// The views of a list of texts.
pub open spec fn strings_view(v: Seq<String>) -> Seq<Seq<char>> {
    v.map_values(|s: String| s@)
}

pub fn push_json_string_array(out: &mut Vec<char>, items: &Vec<String>)
    ensures
        final(out)@ == old(out)@ + json_string_array(strings_view(items@)),
{
    out.push('[');
    let ghost start = out@;
    let ghost rendered = strings_view(items@).map_values(|s: Seq<char>| json_string(s));
    let mut i: usize = 0;
    assert(rendered.take(0) =~= Seq::<Seq<char>>::empty());
    while i < items.len()
        invariant
            i <= items@.len(),
            rendered == strings_view(items@).map_values(|s: Seq<char>| json_string(s)),
            rendered.len() == items@.len(),
            out@ == start + join(rendered.take(i as int), seq![',']),
        decreases items@.len() - i,
    {
        let ghost before = out@;
        if i > 0 {
            out.push(',');
        }
        push_json_str(out, items[i].as_str());
        i = i + 1;
        proof {
            let t = rendered.take(i as int);
            assert(t.drop_last() =~= rendered.take(i - 1));
            assert(t.last() == json_string(items@[i - 1]@));
            if i == 1 {
                assert(out@ =~= start + json_string(items@[0]@));
            } else {
                assert(out@ =~= start + join(rendered.take(i - 1), seq![',']) + seq![',']
                    + json_string(items@[i - 1]@));
            }
        }
    }
    assert(rendered.take(items@.len() as int) =~= rendered);
    out.push(']');
    assert(out@ =~= old(out)@ + json_string_array(strings_view(items@)));
}

/// Writes the members of a JSON object, already rendered as `"key":value`,
/// between braces.
pub fn json_object_of(members: &Vec<Vec<char>>) -> (r: Vec<char>)
    ensures
        r@ == seq!['{'] + join(texts(members@), seq![',']) + seq!['}'],
{
    let mut r: Vec<char> = Vec::new();
    r.push('{');
    let sep = vec![','];
    let body = join_chars(members, &sep);
    assert(sep@ =~= seq![',']);
    append(&mut r, &body);
    r.push('}');
    assert(r@ =~= seq!['{'] + join(texts(members@), seq![',']) + seq!['}']);
    r
}

/// Renders one `"key":value` member.
pub fn json_member_of(key: &str, value: &[char]) -> (r: Vec<char>)
    ensures
        r@ == json_member((key@, value@)),
{
    let mut r: Vec<char> = Vec::new();
    push_json_str(&mut r, key);
    r.push(':');
    append(&mut r, value);
    assert(r@ =~= json_member((key@, value@)));
    r
}

/// Texts of rendered members, used to state an object's members.
pub open spec fn members_text(members: Seq<(Seq<char>, Seq<char>)>) -> Seq<Seq<char>> {
    members.map_values(|m: (Seq<char>, Seq<char>)| json_member(m))
}

pub proof fn lemma_json_object(members: Seq<(Seq<char>, Seq<char>)>, rendered: Seq<Seq<char>>)
    requires
        rendered == members_text(members),
    ensures
        seq!['{'] + join(rendered, seq![',']) + seq!['}'] == json_object(members),
{
}

/// A JSON string literal of `s`.
pub fn json_text(s: &[char]) -> (r: Vec<char>)
    ensures
        r@ == json_string(s@),
{
    let mut r: Vec<char> = Vec::new();
    push_json_string(&mut r, s);
    assert(r@ =~= json_string(s@));
    r
}

/// A JSON string literal of `s`.
pub fn json_str_text(s: &str) -> (r: Vec<char>)
    ensures
        r@ == json_string(s@),
{
    let v = chars_of(s);
    json_text(&v)
}

/// A JSON string literal of `s`, or `null`.
pub fn json_opt_text(s: &Option<String>) -> (r: Vec<char>)
    ensures
        r@ == json_opt_string(opt_view(s)),
{
    let mut r: Vec<char> = Vec::new();
    push_json_opt_string(&mut r, s);
    assert(r@ =~= json_opt_string(opt_view(s)));
    r
}

/// A JSON array of the strings in `items`.
pub fn json_array_text(items: &Vec<String>) -> (r: Vec<char>)
    ensures
        r@ == json_string_array(strings_view(items@)),
{
    let mut r: Vec<char> = Vec::new();
    push_json_string_array(&mut r, items);
    assert(r@ =~= json_string_array(strings_view(items@)));
    r
}

/// `true` or `false`.
pub fn json_bool_text(b: bool) -> (r: Vec<char>)
    ensures
        r@ == json_bool(b),
{
    let mut r: Vec<char> = Vec::new();
    push_json_bool(&mut r, b);
    assert(r@ =~= json_bool(b));
    r
}

} // verus!
