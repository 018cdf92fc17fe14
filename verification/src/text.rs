//! Character-sequence helpers shared by the identity, scanner, probe and
//! browser modules. Every text value is modelled by its `Seq<char>` view.
use vstd::prelude::*;

verus! {

/// Unicode `White_Space`, the set that `char::is_whitespace` and `str::trim` use.
pub open spec fn is_ws(c: char) -> bool {
    ||| ('\u{9}' <= c && c <= '\u{d}')
    ||| c == ' '
    ||| c == '\u{85}'
    ||| c == '\u{a0}'
    ||| c == '\u{1680}'
    ||| ('\u{2000}' <= c && c <= '\u{200a}')
    ||| c == '\u{2028}'
    ||| c == '\u{2029}'
    ||| c == '\u{202f}'
    ||| c == '\u{205f}'
    ||| c == '\u{3000}'
}

pub open spec fn is_ascii_upper(c: char) -> bool {
    'A' <= c && c <= 'Z'
}

pub open spec fn is_ascii_lower(c: char) -> bool {
    'a' <= c && c <= 'z'
}

pub open spec fn is_ascii_digit(c: char) -> bool {
    '0' <= c && c <= '9'
}

pub open spec fn is_ascii_alpha(c: char) -> bool {
    is_ascii_upper(c) || is_ascii_lower(c)
}

pub open spec fn is_ascii_alnum(c: char) -> bool {
    is_ascii_alpha(c) || is_ascii_digit(c)
}

/// `char::to_ascii_lowercase`.
pub open spec fn lower_char(c: char) -> char {
    if is_ascii_upper(c) {
        ((c as u32) + 32) as char
    } else {
        c
    }
}

/// `char::to_ascii_uppercase`.
pub open spec fn upper_char(c: char) -> char {
    if is_ascii_lower(c) {
        ((c as u32) - 32) as char
    } else {
        c
    }
}

/// `str::to_ascii_lowercase`.
pub open spec fn lower(s: Seq<char>) -> Seq<char> {
    s.map_values(|c: char| lower_char(c))
}

/// Number of leading characters that satisfy `p`.
pub open spec fn lead_by(s: Seq<char>, p: spec_fn(char) -> bool) -> nat
    decreases s.len(),
{
    if s.len() > 0 && p(s[0]) {
        1 + lead_by(s.drop_first(), p)
    } else {
        0
    }
}

/// Number of trailing characters that satisfy `p`.
pub open spec fn trail_by(s: Seq<char>, p: spec_fn(char) -> bool) -> nat
    decreases s.len(),
{
    if s.len() > 0 && p(s.last()) {
        1 + trail_by(s.drop_last(), p)
    } else {
        0
    }
}

pub open spec fn ws_pred() -> spec_fn(char) -> bool {
    |c: char| is_ws(c)
}

pub open spec fn eq_pred(x: char) -> spec_fn(char) -> bool {
    |c: char| c == x
}

pub open spec fn trim_start_by(s: Seq<char>, p: spec_fn(char) -> bool) -> Seq<char> {
    s.skip(lead_by(s, p) as int)
}

pub open spec fn trim_end_by(s: Seq<char>, p: spec_fn(char) -> bool) -> Seq<char> {
    s.take(s.len() - trail_by(s, p))
}

pub open spec fn trim_by(s: Seq<char>, p: spec_fn(char) -> bool) -> Seq<char> {
    trim_end_by(trim_start_by(s, p), p)
}

/// `str::trim`.
pub open spec fn trim(s: Seq<char>) -> Seq<char> {
    trim_by(s, ws_pred())
}

/// `str::trim_matches(c)` for a single character.
pub open spec fn trim_char(s: Seq<char>, c: char) -> Seq<char> {
    trim_by(s, eq_pred(c))
}

pub open spec fn starts_with(s: Seq<char>, p: Seq<char>) -> bool {
    p.len() <= s.len() && s.take(p.len() as int) == p
}

pub open spec fn ends_with(s: Seq<char>, p: Seq<char>) -> bool {
    p.len() <= s.len() && s.skip(s.len() - p.len()) == p
}

/// Index of the first occurrence of `c`.
pub open spec fn index_of(s: Seq<char>, c: char) -> Option<nat>
    decreases s.len(),
{
    if s.len() == 0 {
        None
    } else if s[0] == c {
        Some(0)
    } else {
        match index_of(s.drop_first(), c) {
            Some(i) => Some(i + 1),
            None => None,
        }
    }
}

/// Index of the last occurrence of `c`.
pub open spec fn last_index_of(s: Seq<char>, c: char) -> Option<nat>
    decreases s.len(),
{
    if s.len() == 0 {
        None
    } else if s.last() == c {
        Some((s.len() - 1) as nat)
    } else {
        last_index_of(s.drop_last(), c)
    }
}

/// `str::split_once(c)`.
pub open spec fn split_once(s: Seq<char>, c: char) -> Option<(Seq<char>, Seq<char>)> {
    match index_of(s, c) {
        Some(i) => Some((s.take(i as int), s.skip((i + 1) as int))),
        None => None,
    }
}

/// `str::split(c)`: every piece between separators, empty pieces included.
pub open spec fn split(s: Seq<char>, c: char) -> Seq<Seq<char>>
    decreases s.len(),
{
    match index_of(s, c) {
        Some(i) => {
            if i < s.len() {
                seq![s.take(i as int)] + split(s.skip((i + 1) as int), c)
            } else {
                seq![s]
            }
        },
        None => seq![s],
    }
}

/// The text views of a vector of character vectors.
pub open spec fn texts(v: Seq<Vec<char>>) -> Seq<Seq<char>> {
    v.map_values(|x: Vec<char>| x@)
}

/// The pieces of `split` that are not empty.
pub open spec fn nonempty(parts: Seq<Seq<char>>) -> Seq<Seq<char>> {
    parts.filter(|p: Seq<char>| p.len() > 0)
}

/// `join(sep)` of a list of texts.
pub open spec fn join(parts: Seq<Seq<char>>, sep: Seq<char>) -> Seq<char>
    decreases parts.len(),
{
    if parts.len() == 0 {
        seq![]
    } else if parts.len() == 1 {
        parts[0]
    } else {
        join(parts.drop_last(), sep) + sep + parts.last()
    }
}

pub open spec fn replace_char(s: Seq<char>, from: char, to: char) -> Seq<char> {
    s.map_values(|c: char| if c == from { to } else { c })
}

/// Runs of `_` collapsed to a single `_`: what repeated `replace("__", "_")` leaves.
pub open spec fn collapse_underscores(s: Seq<char>) -> Seq<char>
    decreases s.len(),
{
    if s.len() == 0 {
        s
    } else {
        let r = collapse_underscores(s.drop_last());
        if s.last() == '_' && r.len() > 0 && r.last() == '_' {
            r
        } else {
            r.push(s.last())
        }
    }
}

// ---------------------------------------------------------------------------
// Conversions
// ---------------------------------------------------------------------------

/// `String::push`, which appends one character.
pub assume_specification[ String::push ](s: &mut String, ch: char)
    ensures
        final(s)@ == old(s)@.push(ch),
;

pub fn chars_of(s: &str) -> (v: Vec<char>)
    ensures
        v@ == s@,
{
    let n = s.unicode_len();
    let mut v: Vec<char> = Vec::new();
    let mut i: usize = 0;
    while i < n
        invariant
            n == s@.len(),
            i <= n,
            v@ == s@.take(i as int),
        decreases n - i,
    {
        v.push(s.get_char(i));
        i = i + 1;
        assert(v@ =~= s@.take(i as int));
    }
    assert(s@.take(n as int) =~= s@);
    v
}

pub fn string_of(v: &[char]) -> (s: String)
    ensures
        s@ == v@,
{
    let mut s = String::new();
    let mut i: usize = 0;
    while i < v.len()
        invariant
            i <= v@.len(),
            s@ == v@.take(i as int),
        decreases v@.len() - i,
    {
        s.push(v[i]);
        i = i + 1;
        assert(s@ =~= v@.take(i as int));
    }
    assert(v@.take(v@.len() as int) =~= v@);
    s
}

pub fn str_of(s: &str) -> (r: String)
    ensures
        r@ == s@,
{
    s.to_owned()
}

pub fn append(out: &mut Vec<char>, more: &[char])
    ensures
        final(out)@ == old(out)@ + more@,
{
    let mut i: usize = 0;
    while i < more.len()
        invariant
            i <= more@.len(),
            out@ == old(out)@ + more@.take(i as int),
        decreases more@.len() - i,
    {
        out.push(more[i]);
        i = i + 1;
        assert(out@ =~= old(out)@ + more@.take(i as int));
    }
    assert(more@.take(more@.len() as int) =~= more@);
}

pub fn append_str(out: &mut Vec<char>, more: &str)
    ensures
        final(out)@ == old(out)@ + more@,
{
    let v = chars_of(more);
    append(out, &v);
}

pub fn subrange(v: &[char], from: usize, to: usize) -> (r: Vec<char>)
    requires
        from <= to <= v@.len(),
    ensures
        r@ == v@.subrange(from as int, to as int),
{
    let mut r: Vec<char> = Vec::new();
    let mut i: usize = from;
    while i < to
        invariant
            from <= i <= to <= v@.len(),
            r@ == v@.subrange(from as int, i as int),
        decreases to - i,
    {
        r.push(v[i]);
        i = i + 1;
        assert(r@ =~= v@.subrange(from as int, i as int));
    }
    r
}

pub fn copy_chars(v: &[char]) -> (r: Vec<char>)
    ensures
        r@ == v@,
{
    let r = subrange(v, 0, v.len());
    assert(v@.subrange(0, v@.len() as int) =~= v@);
    r
}

pub fn chars_eq(a: &[char], b: &[char]) -> (r: bool)
    ensures
        r == (a@ == b@),
{
    if a.len() != b.len() {
        return false;
    }
    let mut i: usize = 0;
    while i < a.len()
        invariant
            a@.len() == b@.len(),
            i <= a@.len(),
            forall|j: int| 0 <= j < i ==> a@[j] == b@[j],
        decreases a@.len() - i,
    {
        if a[i] != b[i] {
            return false;
        }
        i = i + 1;
    }
    assert(a@ =~= b@);
    true
}

pub fn str_eq(a: &str, b: &str) -> (r: bool)
    ensures
        r == (a@ == b@),
{
    let x = chars_of(a);
    let y = chars_of(b);
    chars_eq(&x, &y)
}

// ---------------------------------------------------------------------------
// Character classes and case
// ---------------------------------------------------------------------------

pub fn is_ws_char(c: char) -> (r: bool)
    ensures
        r == is_ws(c),
{
    ('\u{9}' <= c && c <= '\u{d}') || c == ' ' || c == '\u{85}' || c == '\u{a0}' || c
        == '\u{1680}' || ('\u{2000}' <= c && c <= '\u{200a}') || c == '\u{2028}' || c
        == '\u{2029}' || c == '\u{202f}' || c == '\u{205f}' || c == '\u{3000}'
}

pub fn is_alnum_char(c: char) -> (r: bool)
    ensures
        r == is_ascii_alnum(c),
{
    ('A' <= c && c <= 'Z') || ('a' <= c && c <= 'z') || ('0' <= c && c <= '9')
}

pub fn is_digit_char(c: char) -> (r: bool)
    ensures
        r == is_ascii_digit(c),
{
    '0' <= c && c <= '9'
}

pub fn is_alpha_char(c: char) -> (r: bool)
    ensures
        r == is_ascii_alpha(c),
{
    ('A' <= c && c <= 'Z') || ('a' <= c && c <= 'z')
}

pub fn lower_char_exec(c: char) -> (r: char)
    ensures
        r == lower_char(c),
{
    if 'A' <= c && c <= 'Z' {
        let n: u8 = (c as u8) + 32;
        n as char
    } else {
        c
    }
}

pub fn upper_char_exec(c: char) -> (r: char)
    ensures
        r == upper_char(c),
{
    if 'a' <= c && c <= 'z' {
        let n: u8 = (c as u8) - 32;
        n as char
    } else {
        c
    }
}

pub fn lower_chars(v: &[char]) -> (r: Vec<char>)
    ensures
        r@ == lower(v@),
{
    let mut r: Vec<char> = Vec::new();
    let mut i: usize = 0;
    while i < v.len()
        invariant
            i <= v@.len(),
            r@ == lower(v@.take(i as int)),
        decreases v@.len() - i,
    {
        r.push(lower_char_exec(v[i]));
        i = i + 1;
        assert(r@ =~= lower(v@.take(i as int)));
    }
    assert(v@.take(v@.len() as int) =~= v@);
    r
}

pub fn eq_ignore_case(a: &[char], b: &[char]) -> (r: bool)
    ensures
        r == (lower(a@) == lower(b@)),
{
    let x = lower_chars(a);
    let y = lower_chars(b);
    chars_eq(&x, &y)
}

// ---------------------------------------------------------------------------
// Trimming
// ---------------------------------------------------------------------------

proof fn lemma_lead_step(s: Seq<char>, p: spec_fn(char) -> bool, i: int)
    requires
        0 <= i < s.len(),
        p(s[i]),
    ensures
        lead_by(s.skip(i), p) == 1 + lead_by(s.skip(i + 1), p),
{
    assert(s.skip(i).drop_first() =~= s.skip(i + 1));
}

proof fn lemma_trail_step(s: Seq<char>, p: spec_fn(char) -> bool, j: int)
    requires
        0 < j <= s.len(),
        p(s[j - 1]),
    ensures
        trail_by(s.take(j), p) == 1 + trail_by(s.take(j - 1), p),
{
    assert(s.take(j).drop_last() =~= s.take(j - 1));
}

proof fn lemma_lead_le(s: Seq<char>, p: spec_fn(char) -> bool)
    ensures
        lead_by(s, p) <= s.len(),
    decreases s.len(),
{
    if s.len() > 0 && p(s[0]) {
        lemma_lead_le(s.drop_first(), p);
    }
}

proof fn lemma_trail_le(s: Seq<char>, p: spec_fn(char) -> bool)
    ensures
        trail_by(s, p) <= s.len(),
    decreases s.len(),
{
    if s.len() > 0 && p(s.last()) {
        lemma_trail_le(s.drop_last(), p);
    }
}

fn lead_ws(v: &[char]) -> (n: usize)
    ensures
        n == lead_by(v@, ws_pred()),
        n <= v@.len(),
{
    let mut i: usize = 0;
    proof {
        assert(v@.skip(0) =~= v@);
    }
    while i < v.len() && is_ws_char(v[i])
        invariant
            i <= v@.len(),
            lead_by(v@, ws_pred()) == i + lead_by(v@.skip(i as int), ws_pred()),
        decreases v@.len() - i,
    {
        proof {
            lemma_lead_step(v@, ws_pred(), i as int);
        }
        i = i + 1;
    }
    i
}

fn trail_ws(v: &[char]) -> (n: usize)
    ensures
        n == trail_by(v@, ws_pred()),
        n <= v@.len(),
{
    let mut j: usize = v.len();
    proof {
        assert(v@.take(v@.len() as int) =~= v@);
    }
    while j > 0 && is_ws_char(v[j - 1])
        invariant
            j <= v@.len(),
            trail_by(v@, ws_pred()) == (v@.len() - j) + trail_by(v@.take(j as int), ws_pred()),
        decreases j,
    {
        proof {
            lemma_trail_step(v@, ws_pred(), j as int);
        }
        j = j - 1;
    }
    proof {
        assert(v@.take(j as int).len() > 0 ==> v@.take(j as int).last() == v@[j - 1]);
    }
    v.len() - j
}

fn lead_char(v: &[char], c: char) -> (n: usize)
    ensures
        n == lead_by(v@, eq_pred(c)),
        n <= v@.len(),
{
    let mut i: usize = 0;
    proof {
        assert(v@.skip(0) =~= v@);
    }
    while i < v.len() && v[i] == c
        invariant
            i <= v@.len(),
            lead_by(v@, eq_pred(c)) == i + lead_by(v@.skip(i as int), eq_pred(c)),
        decreases v@.len() - i,
    {
        proof {
            lemma_lead_step(v@, eq_pred(c), i as int);
        }
        i = i + 1;
    }
    i
}

fn trail_char(v: &[char], c: char) -> (n: usize)
    ensures
        n == trail_by(v@, eq_pred(c)),
        n <= v@.len(),
{
    let mut j: usize = v.len();
    proof {
        assert(v@.take(v@.len() as int) =~= v@);
    }
    while j > 0 && v[j - 1] == c
        invariant
            j <= v@.len(),
            trail_by(v@, eq_pred(c)) == (v@.len() - j) + trail_by(v@.take(j as int), eq_pred(c)),
        decreases j,
    {
        proof {
            lemma_trail_step(v@, eq_pred(c), j as int);
        }
        j = j - 1;
    }
    proof {
        assert(v@.take(j as int).len() > 0 ==> v@.take(j as int).last() == v@[j - 1]);
    }
    v.len() - j
}

/// `str::trim`.
pub fn trim_chars(v: &[char]) -> (r: Vec<char>)
    ensures
        r@ == trim(v@),
{
    let a = lead_ws(v);
    let s = subrange(v, a, v.len());
    assert(s@ == v@.skip(a as int));
    let b = trail_ws(&s);
    let r = subrange(&s, 0, s.len() - b);
    assert(r@ =~= s@.take(s@.len() - b));
    r
}

/// `str::trim_start_matches(c)`.
pub fn trim_start_char(v: &[char], c: char) -> (r: Vec<char>)
    ensures
        r@ == trim_start_by(v@, eq_pred(c)),
{
    let a = lead_char(v, c);
    let r = subrange(v, a, v.len());
    assert(r@ =~= v@.skip(a as int));
    r
}

/// `str::trim_end_matches(c)`.
pub fn trim_end_char(v: &[char], c: char) -> (r: Vec<char>)
    ensures
        r@ == trim_end_by(v@, eq_pred(c)),
{
    let b = trail_char(v, c);
    let r = subrange(v, 0, v.len() - b);
    assert(r@ =~= v@.take(v@.len() - b));
    r
}

/// `str::trim_matches(c)`.
pub fn trim_both_char(v: &[char], c: char) -> (r: Vec<char>)
    ensures
        r@ == trim_char(v@, c),
{
    let s = trim_start_char(v, c);
    trim_end_char(&s, c)
}

pub fn trim_str(s: &str) -> (r: Vec<char>)
    ensures
        r@ == trim(s@),
{
    let v = chars_of(s);
    trim_chars(&v)
}

// ---------------------------------------------------------------------------
// Searching
// ---------------------------------------------------------------------------

pub fn starts_with_chars(s: &[char], p: &[char]) -> (r: bool)
    ensures
        r == starts_with(s@, p@),
{
    if p.len() > s.len() {
        return false;
    }
    let mut i: usize = 0;
    while i < p.len()
        invariant
            p@.len() <= s@.len(),
            i <= p@.len(),
            forall|j: int| 0 <= j < i ==> s@[j] == p@[j],
        decreases p@.len() - i,
    {
        if s[i] != p[i] {
            assert(s@.take(p@.len() as int)[i as int] != p@[i as int]);
            return false;
        }
        i = i + 1;
    }
    assert(s@.take(p@.len() as int) =~= p@);
    true
}

pub fn starts_with_str(s: &[char], p: &str) -> (r: bool)
    ensures
        r == starts_with(s@, p@),
{
    let pv = chars_of(p);
    starts_with_chars(s, &pv)
}

pub fn ends_with_chars(s: &[char], p: &[char]) -> (r: bool)
    ensures
        r == ends_with(s@, p@),
{
    if p.len() > s.len() {
        return false;
    }
    let off = s.len() - p.len();
    let mut i: usize = 0;
    while i < p.len()
        invariant
            p@.len() <= s@.len(),
            off + p@.len() == s@.len(),
            s@.len() == s.len(),
            p@.len() == p.len(),
            i <= p@.len(),
            forall|j: int| 0 <= j < i ==> s@[off + j] == p@[j],
        decreases p@.len() - i,
    {
        if s[off + i] != p[i] {
            assert(s@.skip(off as int)[i as int] != p@[i as int]);
            return false;
        }
        i = i + 1;
    }
    assert(s@.skip(off as int) =~= p@);
    true
}

/// The first occurrence of `c` is at `i` when `s[i]` is `c` and no earlier
/// character is.
pub proof fn lemma_index_of_found(s: Seq<char>, c: char, i: int)
    requires
        0 <= i < s.len(),
        s[i] == c,
        forall|j: int| 0 <= j < i ==> s[j] != c,
    ensures
        index_of(s, c) == Some(i as nat),
    decreases i,
{
    if i > 0 {
        lemma_index_of_found(s.drop_first(), c, i - 1);
    }
}

proof fn lemma_index_of_none(s: Seq<char>, c: char)
    requires
        forall|j: int| 0 <= j < s.len() ==> s[j] != c,
    ensures
        index_of(s, c) == None::<nat>,
    decreases s.len(),
{
    if s.len() > 0 {
        lemma_index_of_none(s.drop_first(), c);
    }
}

pub proof fn lemma_index_of_facts(s: Seq<char>, c: char)
    ensures
        index_of(s, c) matches Some(i) ==> i < s.len() && s[i as int] == c && forall|j: int|
            0 <= j < i ==> s[j] != c,
        index_of(s, c) is None ==> forall|j: int| 0 <= j < s.len() ==> s[j] != c,
    decreases s.len(),
{
    if s.len() > 0 && s[0] != c {
        lemma_index_of_facts(s.drop_first(), c);
        if index_of(s.drop_first(), c) is None {
            assert forall|j: int| 0 <= j < s.len() implies s[j] != c by {
                if j > 0 {
                    assert(s.drop_first()[j - 1] == s[j]);
                }
            }
        } else {
            let i = index_of(s.drop_first(), c)->0;
            assert forall|j: int| 0 <= j < i + 1 implies s[j] != c by {
                if j > 0 {
                    assert(s.drop_first()[j - 1] == s[j]);
                }
            }
        }
    }
}

pub fn find_char(s: &[char], c: char) -> (r: Option<usize>)
    ensures
        r matches Some(i) ==> index_of(s@, c) == Some(i as nat),
        r is None ==> index_of(s@, c) is None,
        r matches Some(i) ==> i < s@.len() && s@[i as int] == c,
{
    let mut i: usize = 0;
    while i < s.len()
        invariant
            i <= s@.len(),
            forall|j: int| 0 <= j < i ==> s@[j] != c,
        decreases s@.len() - i,
    {
        if s[i] == c {
            proof {
                lemma_index_of_found(s@, c, i as int);
            }
            return Some(i);
        }
        i = i + 1;
    }
    proof {
        lemma_index_of_none(s@, c);
    }
    None
}

proof fn lemma_last_index_of_found(s: Seq<char>, c: char, i: int)
    requires
        0 <= i < s.len(),
        s[i] == c,
        forall|j: int| i < j < s.len() ==> s[j] != c,
    ensures
        last_index_of(s, c) == Some(i as nat),
    decreases s.len(),
{
    if s.last() != c {
        lemma_last_index_of_found(s.drop_last(), c, i);
    }
}

proof fn lemma_last_index_of_none(s: Seq<char>, c: char)
    requires
        forall|j: int| 0 <= j < s.len() ==> s[j] != c,
    ensures
        last_index_of(s, c) == None::<nat>,
    decreases s.len(),
{
    if s.len() > 0 {
        lemma_last_index_of_none(s.drop_last(), c);
    }
}

pub fn rfind_char(s: &[char], c: char) -> (r: Option<usize>)
    ensures
        r matches Some(i) ==> last_index_of(s@, c) == Some(i as nat) && i < s@.len() && s@[i as int]
            == c,
        r is None ==> last_index_of(s@, c) is None,
{
    let mut j: usize = s.len();
    while j > 0
        invariant
            j <= s@.len(),
            forall|k: int| j <= k < s@.len() ==> s@[k] != c,
        decreases j,
    {
        if s[j - 1] == c {
            proof {
                lemma_last_index_of_found(s@, c, j - 1);
            }
            return Some(j - 1);
        }
        j = j - 1;
    }
    proof {
        lemma_last_index_of_none(s@, c);
    }
    None
}

pub fn contains_char(s: &[char], c: char) -> (r: bool)
    ensures
        r == s@.contains(c),
{
    let f = find_char(s, c);
    proof {
        lemma_index_of_facts(s@, c);
        if f is None {
            assert forall|j: int| 0 <= j < s@.len() implies s@[j] != c by {}
        }
    }
    f.is_some()
}

pub fn split_once_char(s: &[char], c: char) -> (r: Option<(Vec<char>, Vec<char>)>)
    ensures
        r matches Some(p) ==> split_once(s@, c) == Some((p.0@, p.1@)),
        r is None ==> split_once(s@, c) is None,
{
    match find_char(s, c) {
        Some(i) => {
            assert(i < s.len());
            let a = subrange(s, 0, i);
            let b = subrange(s, i + 1, s.len());
            assert(a@ =~= s@.take(i as int));
            assert(b@ =~= s@.skip(i + 1));
            Some((a, b))
        },
        None => None,
    }
}

/// Strips `p` from the front of `s` when `s` starts with it.
pub fn strip_prefix_str(s: &[char], p: &str) -> (r: Option<Vec<char>>)
    ensures
        r matches Some(rest) ==> starts_with(s@, p@) && rest@ == s@.skip(p@.len() as int),
        r is None ==> !starts_with(s@, p@),
{
    let pv = chars_of(p);
    if starts_with_chars(s, &pv) {
        let rest = subrange(s, pv.len(), s.len());
        assert(rest@ =~= s@.skip(p@.len() as int));
        Some(rest)
    } else {
        None
    }
}

// ---------------------------------------------------------------------------
// Splitting and joining
// ---------------------------------------------------------------------------

pub fn split_char(s: &[char], c: char) -> (r: Vec<Vec<char>>)
    ensures
        texts(r@) == split(s@, c),
    decreases s@.len(),
{
    match find_char(s, c) {
        Some(i) => {
            assert(i < s.len());
            let head = subrange(s, 0, i);
            let tail = subrange(s, i + 1, s.len());
            assert(tail@ =~= s@.skip(i + 1));
            let rest = split_char(&tail, c);
            let mut r: Vec<Vec<char>> = Vec::new();
            r.push(head);
            assert(texts(r@) =~= seq![s@.take(i as int)]);
            let mut k: usize = 0;
            while k < rest.len()
                invariant
                    k <= rest@.len(),
                    texts(r@) == seq![s@.take(i as int)] + texts(rest@).take(k as int),
                decreases rest@.len() - k,
            {
                let piece = copy_chars(&rest[k]);
                let ghost before = texts(r@);
                r.push(piece);
                k = k + 1;
                assert(texts(r@) =~= before.push(piece@));
                assert(texts(r@) =~= seq![s@.take(i as int)] + texts(rest@).take(k as int));
            }
            assert(texts(rest@).take(rest@.len() as int) =~= texts(rest@));
            r
        },
        None => {
            let mut r: Vec<Vec<char>> = Vec::new();
            r.push(copy_chars(s));
            assert(texts(r@) =~= seq![s@]);
            r
        },
    }
}

/// Joins texts with a separator.
pub fn join_chars(parts: &Vec<Vec<char>>, sep: &[char]) -> (r: Vec<char>)
    ensures
        r@ == join(texts(parts@), sep@),
{
    let mut r: Vec<char> = Vec::new();
    let mut i: usize = 0;
    assert(texts(parts@).take(0) =~= Seq::<Seq<char>>::empty());
    while i < parts.len()
        invariant
            i <= parts@.len(),
            r@ == join(texts(parts@).take(i as int), sep@),
        decreases parts@.len() - i,
    {
        if i > 0 {
            append(&mut r, sep);
        }
        append(&mut r, &parts[i]);
        i = i + 1;
        proof {
            let t = texts(parts@).take(i as int);
            assert(t.drop_last() =~= texts(parts@).take(i - 1));
            assert(t.last() == parts@[i - 1]@);
            if i == 1 {
                assert(r@ =~= parts@[0]@);
            }
        }
    }
    assert(texts(parts@).take(parts@.len() as int) =~= texts(parts@));
    r
}

pub fn replace_char_chars(s: &[char], from: char, to: char) -> (r: Vec<char>)
    ensures
        r@ == replace_char(s@, from, to),
{
    let mut r: Vec<char> = Vec::new();
    let mut i: usize = 0;
    while i < s.len()
        invariant
            i <= s@.len(),
            r@ == replace_char(s@.take(i as int), from, to),
        decreases s@.len() - i,
    {
        if s[i] == from {
            r.push(to);
        } else {
            r.push(s[i]);
        }
        i = i + 1;
        assert(r@ =~= replace_char(s@.take(i as int), from, to));
    }
    assert(s@.take(s@.len() as int) =~= s@);
    r
}

pub fn collapse_underscores_chars(s: &[char]) -> (r: Vec<char>)
    ensures
        r@ == collapse_underscores(s@),
{
    let mut r: Vec<char> = Vec::new();
    let mut i: usize = 0;
    while i < s.len()
        invariant
            i <= s@.len(),
            r@ == collapse_underscores(s@.take(i as int)),
        decreases s@.len() - i,
    {
        proof {
            assert(s@.take(i + 1).drop_last() =~= s@.take(i as int));
        }
        let keep = !(s[i] == '_' && r.len() > 0 && r[r.len() - 1] == '_');
        if keep {
            r.push(s[i]);
        }
        i = i + 1;
    }
    assert(s@.take(s@.len() as int) =~= s@);
    r
}

/// The pieces of a split that are not empty.
pub fn nonempty_parts(parts: &Vec<Vec<char>>) -> (r: Vec<Vec<char>>)
    ensures
        texts(r@) == nonempty(texts(parts@)),
{
    let mut r: Vec<Vec<char>> = Vec::new();
    let mut i: usize = 0;
    while i < parts.len()
        invariant
            i <= parts@.len(),
            texts(r@) == nonempty(texts(parts@).take(i as int)),
        decreases parts@.len() - i,
    {
        let ghost t = texts(parts@).take(i + 1);
        let ghost before = texts(r@);
        proof {
            assert(t.drop_last() =~= texts(parts@).take(i as int));
            assert(t.last() == parts@[i as int]@);
        }
        if parts[i].len() > 0 {
            r.push(copy_chars(&parts[i]));
            proof {
                reveal(Seq::filter);
                assert(texts(r@) =~= before.push(parts@[i as int]@));
                assert(texts(r@) =~= nonempty(t));
            }
        } else {
            proof {
                reveal(Seq::filter);
                assert(texts(r@) =~= nonempty(t));
            }
        }
        i = i + 1;
    }
    assert(texts(parts@).take(parts@.len() as int) =~= texts(parts@));
    r
}

/// All pieces but the first.
pub fn drop_first_part(parts: &Vec<Vec<char>>) -> (r: Vec<Vec<char>>)
    requires
        parts@.len() >= 1,
    ensures
        texts(r@) == texts(parts@).skip(1),
{
    let mut r: Vec<Vec<char>> = Vec::new();
    let mut i: usize = 1;
    while i < parts.len()
        invariant
            1 <= i <= parts@.len(),
            texts(r@) == texts(parts@).subrange(1, i as int),
        decreases parts@.len() - i,
    {
        let ghost before = texts(r@);
        r.push(copy_chars(&parts[i]));
        i = i + 1;
        assert(texts(r@) =~= before.push(parts@[i - 1]@));
        assert(texts(r@) =~= texts(parts@).subrange(1, i as int));
    }
    assert(texts(parts@).subrange(1, parts@.len() as int) =~= texts(parts@).skip(1));
    r
}

// ---------------------------------------------------------------------------
// Character classes used as separators
// ---------------------------------------------------------------------------

/// The separator classes that paths and words are split on.
#[derive(Debug, Clone, Copy, PartialEq, Eq, Structural)]
pub enum CharClass {
    /// Unicode white space, as `split_whitespace` uses it.
    Whitespace,
    /// `\` and `/`.
    PathSeparator,
}

pub open spec fn in_class(c: char, k: CharClass) -> bool {
    match k {
        CharClass::Whitespace => is_ws(c),
        CharClass::PathSeparator => c == '\\' || c == '/',
    }
}

pub open spec fn class_pred(k: CharClass) -> spec_fn(char) -> bool {
    |c: char| in_class(c, k)
}

pub fn in_class_exec(c: char, k: CharClass) -> (r: bool)
    ensures
        r == in_class(c, k),
{
    match k {
        CharClass::Whitespace => is_ws_char(c),
        CharClass::PathSeparator => c == '\\' || c == '/',
    }
}

/// Index of the first character of class `k`.
pub open spec fn index_in(s: Seq<char>, k: CharClass) -> Option<nat>
    decreases s.len(),
{
    if s.len() == 0 {
        None
    } else if in_class(s[0], k) {
        Some(0)
    } else {
        match index_in(s.drop_first(), k) {
            Some(i) => Some(i + 1),
            None => None,
        }
    }
}

/// `str::split` on a character class: every piece between separators.
pub open spec fn split_in(s: Seq<char>, k: CharClass) -> Seq<Seq<char>>
    decreases s.len(),
{
    match index_in(s, k) {
        Some(i) => {
            if i < s.len() {
                seq![s.take(i as int)] + split_in(s.skip((i + 1) as int), k)
            } else {
                seq![s]
            }
        },
        None => seq![s],
    }
}

/// `str::split_whitespace`.
pub open spec fn words(s: Seq<char>) -> Seq<Seq<char>> {
    nonempty(split_in(s, CharClass::Whitespace))
}

pub proof fn lemma_index_in_facts(s: Seq<char>, k: CharClass)
    ensures
        index_in(s, k) matches Some(i) ==> i < s.len() && in_class(s[i as int], k) && forall|j: int|
            0 <= j < i ==> !in_class(s[j], k),
        index_in(s, k) is None ==> forall|j: int| 0 <= j < s.len() ==> !in_class(s[j], k),
    decreases s.len(),
{
    if s.len() > 0 && !in_class(s[0], k) {
        lemma_index_in_facts(s.drop_first(), k);
        if index_in(s.drop_first(), k) is None {
            assert forall|j: int| 0 <= j < s.len() implies !in_class(s[j], k) by {
                if j > 0 {
                    assert(s.drop_first()[j - 1] == s[j]);
                }
            }
        } else {
            let i = index_in(s.drop_first(), k)->0;
            assert forall|j: int| 0 <= j < i + 1 implies !in_class(s[j], k) by {
                if j > 0 {
                    assert(s.drop_first()[j - 1] == s[j]);
                }
            }
        }
    }
}

proof fn lemma_index_in_found(s: Seq<char>, k: CharClass, i: int)
    requires
        0 <= i < s.len(),
        in_class(s[i], k),
        forall|j: int| 0 <= j < i ==> !in_class(s[j], k),
    ensures
        index_in(s, k) == Some(i as nat),
    decreases i,
{
    if i > 0 {
        lemma_index_in_found(s.drop_first(), k, i - 1);
    }
}

proof fn lemma_index_in_none(s: Seq<char>, k: CharClass)
    requires
        forall|j: int| 0 <= j < s.len() ==> !in_class(s[j], k),
    ensures
        index_in(s, k) == None::<nat>,
    decreases s.len(),
{
    if s.len() > 0 {
        lemma_index_in_none(s.drop_first(), k);
    }
}

pub fn find_in_class(s: &[char], k: CharClass) -> (r: Option<usize>)
    ensures
        r matches Some(i) ==> index_in(s@, k) == Some(i as nat) && i < s@.len(),
        r is None ==> index_in(s@, k) is None,
{
    let mut i: usize = 0;
    while i < s.len()
        invariant
            i <= s@.len(),
            forall|j: int| 0 <= j < i ==> !in_class(s@[j], k),
        decreases s@.len() - i,
    {
        if in_class_exec(s[i], k) {
            proof {
                lemma_index_in_found(s@, k, i as int);
            }
            return Some(i);
        }
        i = i + 1;
    }
    proof {
        lemma_index_in_none(s@, k);
    }
    None
}

/// Splits on every character of class `k`.
pub fn split_in_class(s: &[char], k: CharClass) -> (r: Vec<Vec<char>>)
    ensures
        texts(r@) == split_in(s@, k),
    decreases s@.len(),
{
    match find_in_class(s, k) {
        Some(i) => {
            assert(i < s.len());
            let head = subrange(s, 0, i);
            let tail = subrange(s, i + 1, s.len());
            assert(tail@ =~= s@.skip(i + 1));
            let rest = split_in_class(&tail, k);
            let mut r: Vec<Vec<char>> = Vec::new();
            r.push(head);
            assert(texts(r@) =~= seq![s@.take(i as int)]);
            let mut j: usize = 0;
            while j < rest.len()
                invariant
                    j <= rest@.len(),
                    texts(r@) == seq![s@.take(i as int)] + texts(rest@).take(j as int),
                decreases rest@.len() - j,
            {
                let piece = copy_chars(&rest[j]);
                let ghost before = texts(r@);
                r.push(piece);
                j = j + 1;
                assert(texts(r@) =~= before.push(piece@));
                assert(texts(r@) =~= seq![s@.take(i as int)] + texts(rest@).take(j as int));
            }
            assert(texts(rest@).take(rest@.len() as int) =~= texts(rest@));
            r
        },
        None => {
            let mut r: Vec<Vec<char>> = Vec::new();
            r.push(copy_chars(s));
            assert(texts(r@) =~= seq![s@]);
            r
        },
    }
}

/// `str::split_whitespace`.
pub fn words_of(s: &[char]) -> (r: Vec<Vec<char>>)
    ensures
        texts(r@) == words(s@),
{
    let pieces = split_in_class(s, CharClass::Whitespace);
    nonempty_parts(&pieces)
}

/// Trims characters of class `k` from both ends.
pub open spec fn trim_class(s: Seq<char>, k: CharClass) -> Seq<char> {
    trim_by(s, class_pred(k))
}

pub open spec fn trim_end_class(s: Seq<char>, k: CharClass) -> Seq<char> {
    trim_end_by(s, class_pred(k))
}

pub open spec fn trim_start_class(s: Seq<char>, k: CharClass) -> Seq<char> {
    trim_start_by(s, class_pred(k))
}

fn lead_class(v: &[char], k: CharClass) -> (n: usize)
    ensures
        n == lead_by(v@, class_pred(k)),
        n <= v@.len(),
{
    let mut i: usize = 0;
    proof {
        assert(v@.skip(0) =~= v@);
    }
    while i < v.len() && in_class_exec(v[i], k)
        invariant
            i <= v@.len(),
            lead_by(v@, class_pred(k)) == i + lead_by(v@.skip(i as int), class_pred(k)),
        decreases v@.len() - i,
    {
        proof {
            lemma_lead_step(v@, class_pred(k), i as int);
        }
        i = i + 1;
    }
    i
}

fn trail_class(v: &[char], k: CharClass) -> (n: usize)
    ensures
        n == trail_by(v@, class_pred(k)),
        n <= v@.len(),
{
    let mut j: usize = v.len();
    proof {
        assert(v@.take(v@.len() as int) =~= v@);
    }
    while j > 0 && in_class_exec(v[j - 1], k)
        invariant
            j <= v@.len(),
            trail_by(v@, class_pred(k)) == (v@.len() - j) + trail_by(
                v@.take(j as int),
                class_pred(k),
            ),
        decreases j,
    {
        proof {
            lemma_trail_step(v@, class_pred(k), j as int);
        }
        j = j - 1;
    }
    proof {
        assert(v@.take(j as int).len() > 0 ==> v@.take(j as int).last() == v@[j - 1]);
    }
    v.len() - j
}

pub fn trim_start_in_class(v: &[char], k: CharClass) -> (r: Vec<char>)
    ensures
        r@ == trim_start_class(v@, k),
{
    let a = lead_class(v, k);
    subrange(v, a, v.len())
}

pub fn trim_end_in_class(v: &[char], k: CharClass) -> (r: Vec<char>)
    ensures
        r@ == trim_end_class(v@, k),
{
    let b = trail_class(v, k);
    let r = subrange(v, 0, v.len() - b);
    assert(r@ =~= v@.take(v@.len() - b));
    r
}

pub fn trim_in_class(v: &[char], k: CharClass) -> (r: Vec<char>)
    ensures
        r@ == trim_class(v@, k),
{
    let s = trim_start_in_class(v, k);
    trim_end_in_class(&s, k)
}

// ---------------------------------------------------------------------------
// Facts about trimming and collapsing
// ---------------------------------------------------------------------------

pub proof fn lemma_lead_stop(s: Seq<char>, p: spec_fn(char) -> bool)
    ensures
        lead_by(s, p) <= s.len(),
        lead_by(s, p) < s.len() ==> !p(s[lead_by(s, p) as int]),
    decreases s.len(),
{
    if s.len() > 0 && p(s[0]) {
        lemma_lead_stop(s.drop_first(), p);
        if lead_by(s.drop_first(), p) < s.drop_first().len() {
            assert(s.drop_first()[lead_by(s.drop_first(), p) as int] == s[lead_by(s, p) as int]);
        }
    }
}

pub proof fn lemma_trail_stop(s: Seq<char>, p: spec_fn(char) -> bool)
    ensures
        trail_by(s, p) <= s.len(),
        trail_by(s, p) < s.len() ==> !p(s[s.len() - 1 - trail_by(s, p)]),
    decreases s.len(),
{
    if s.len() > 0 && p(s.last()) {
        lemma_trail_stop(s.drop_last(), p);
        if trail_by(s.drop_last(), p) < s.drop_last().len() {
            assert(s.drop_last()[s.drop_last().len() - 1 - trail_by(s.drop_last(), p)] == s[s.len()
                - 1 - trail_by(s, p)]);
        }
    }
}

/// Trimming by `p` leaves no character of `p` at either end, and keeps a
/// contiguous part of the text.
pub proof fn lemma_trim_by_ends(s: Seq<char>, p: spec_fn(char) -> bool)
    ensures
        trim_by(s, p).len() > 0 ==> !p(trim_by(s, p)[0]) && !p(trim_by(s, p).last()),
        exists|a: int, b: int|
            0 <= a <= b <= s.len() && #[trigger] trim_by(s, p) == s.subrange(a, b),
{
    let t = trim_start_by(s, p);
    lemma_lead_stop(s, p);
    lemma_trail_stop(t, p);
    let a = lead_by(s, p) as int;
    let b = a + t.len() - trail_by(t, p);
    assert(trim_by(s, p) =~= s.subrange(a, b));
    if trim_by(s, p).len() > 0 {
        assert(trim_by(s, p)[0] == t[0]);
        assert(t[0] == s[a]);
    }
}

/// A property of every character survives collapsing `_` runs.
pub proof fn lemma_collapse_keeps(s: Seq<char>, q: spec_fn(char) -> bool)
    requires
        forall|i: int| 0 <= i < s.len() ==> q(#[trigger] s[i]),
    ensures
        forall|i: int|
            0 <= i < collapse_underscores(s).len() ==> q(#[trigger] collapse_underscores(s)[i]),
    decreases s.len(),
{
    if s.len() > 0 {
        assert forall|i: int| 0 <= i < s.drop_last().len() implies q(
            #[trigger] s.drop_last()[i],
        ) by {
            assert(s.drop_last()[i] == s[i]);
        }
        lemma_collapse_keeps(s.drop_last(), q);
        assert(q(s[s.len() - 1]));
        let r = collapse_underscores(s.drop_last());
        let c = collapse_underscores(s);
        assert forall|i: int| 0 <= i < c.len() implies q(#[trigger] c[i]) by {
            if i < r.len() {
                assert(c[i] == r[i]);
            } else {
                assert(c[i] == s.last());
            }
        }
    }
}

/// After collapsing, no two `_` are adjacent.
pub proof fn lemma_collapse_no_double(s: Seq<char>)
    ensures
        forall|i: int|
            0 <= i < collapse_underscores(s).len() - 1 ==> !(#[trigger] collapse_underscores(s)[i]
                == '_' && collapse_underscores(s)[i + 1] == '_'),
    decreases s.len(),
{
    if s.len() > 0 {
        lemma_collapse_no_double(s.drop_last());
        let r = collapse_underscores(s.drop_last());
        if !(s.last() == '_' && r.len() > 0 && r.last() == '_') {
            let c = r.push(s.last());
            assert forall|i: int| 0 <= i < c.len() - 1 implies !(#[trigger] c[i] == '_' && c[i + 1]
                == '_') by {
                if i < r.len() - 1 {
                    assert(c[i] == r[i] && c[i + 1] == r[i + 1]);
                }
            }
        }
    }
}

/// Every character of the trailing run that `trail_by` counts satisfies `p`.
pub proof fn lemma_trail_all(s: Seq<char>, p: spec_fn(char) -> bool)
    ensures
        trail_by(s, p) <= s.len(),
        forall|i: int| s.len() - trail_by(s, p) <= i < s.len() ==> p(#[trigger] s[i]),
    decreases s.len(),
{
    if s.len() > 0 && p(s.last()) {
        lemma_trail_all(s.drop_last(), p);
        assert forall|i: int| s.len() - trail_by(s, p) <= i < s.len() implies p(#[trigger] s[i]) by {
            if i < s.len() - 1 {
                assert(s[i] == s.drop_last()[i]);
            }
        }
    }
}

/// The trailing run of `a + b` is that of `b` when `b` has a character
/// outside `p`.
pub proof fn lemma_trail_append(a: Seq<char>, b: Seq<char>, p: spec_fn(char) -> bool)
    requires
        trail_by(b, p) < b.len(),
    ensures
        trail_by(a + b, p) == trail_by(b, p),
    decreases b.len(),
{
    assert((a + b).last() == b.last());
    if p(b.last()) {
        assert((a + b).drop_last() =~= a + b.drop_last());
        lemma_trail_append(a, b.drop_last(), p);
    }
}

/// The leading run after one more character at the end.
pub proof fn lemma_lead_push(s: Seq<char>, p: spec_fn(char) -> bool, c: char)
    ensures
        lead_by(s, p) < s.len() ==> lead_by(s.push(c), p) == lead_by(s, p),
        lead_by(s, p) == s.len() ==> lead_by(s.push(c), p) == s.len() + if p(c) {
            1nat
        } else {
            0nat
        },
    decreases s.len(),
{
    lemma_lead_stop(s, p);
    if s.len() > 0 {
        assert(s.push(c).drop_first() =~= s.drop_first().push(c));
        assert(s.push(c)[0] == s[0]);
        lemma_lead_push(s.drop_first(), p, c);
    } else {
        assert(s.push(c).drop_first() =~= Seq::<char>::empty());
        assert(s.push(c)[0] == c);
        assert(lead_by(s.push(c).drop_first(), p) == 0);
    }
}

/// Trimming by `p` does not see a character of `p` pushed at the end.
pub proof fn lemma_trim_by_push(s: Seq<char>, p: spec_fn(char) -> bool, c: char)
    requires
        p(c),
    ensures
        trim_by(s.push(c), p) == trim_by(s, p),
{
    lemma_lead_push(s, p, c);
    lemma_lead_stop(s, p);
    let a = lead_by(s, p);
    if a < s.len() {
        let t = trim_start_by(s, p);
        assert(trim_start_by(s.push(c), p) =~= t.push(c));
        assert(t.push(c).drop_last() =~= t);
        assert(t.push(c).last() == c);
        lemma_trail_stop(t, p);
        assert(trim_end_by(t.push(c), p) =~= trim_end_by(t, p));
    } else {
        assert(trim_start_by(s.push(c), p) =~= Seq::<char>::empty());
        assert(trim_start_by(s, p) =~= Seq::<char>::empty());
    }
}

/// A trimmed text has nothing more to trim.
pub proof fn lemma_trim_by_idem(s: Seq<char>, p: spec_fn(char) -> bool)
    ensures
        trim_by(trim_by(s, p), p) == trim_by(s, p),
{
    lemma_trim_by_ends(s, p);
    let t = trim_by(s, p);
    if t.len() > 0 {
        assert(lead_by(t, p) == 0);
        assert(trim_start_by(t, p) =~= t);
        assert(trail_by(t, p) == 0);
        assert(trim_end_by(t, p) =~= t);
    } else {
        assert(trim_start_by(t, p) =~= t);
        assert(trim_end_by(trim_start_by(t, p), p) =~= t);
    }
}

/// The leading run of `a + b` is that of `a` when `a` has a character
/// outside `p`.
pub proof fn lemma_lead_append(a: Seq<char>, b: Seq<char>, p: spec_fn(char) -> bool)
    requires
        lead_by(a, p) < a.len(),
    ensures
        lead_by(a + b, p) == lead_by(a, p),
    decreases a.len(),
{
    assert((a + b)[0] == a[0]);
    if p(a[0]) {
        assert((a + b).drop_first() =~= a.drop_first() + b);
        lemma_lead_append(a.drop_first(), b, p);
    }
}

} // verus!
