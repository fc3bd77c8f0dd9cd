//! Manifest codec: a deterministic, stably field-ordered JSON rendering of
//! the plugin manifest and the marketplace index, and a whitespace-tolerant
//! parser for the same documents. Both directions are specified exactly by
//! spec-level functions over character sequences.

use vstd::prelude::*;
use crate::strutil::push_char;
use vstd::seq_lib::lemma_concat_associative;

verus! {

/// Why a document failed to decode.
#[derive(Clone, Copy, Debug, PartialEq, Eq, Structural)]
pub enum DecodeError {
    /// The input was empty or held only whitespace.
    Empty,
    /// The input was not a well-formed document of the expected shape.
    Malformed,
}

/// JSON insignificant whitespace.
pub open spec fn is_ws(c: char) -> bool {
    c == ' ' || c == '\n' || c == '\t' || c == '\r'
}

/// Drops leading whitespace.
pub open spec fn skip_ws(s: Seq<char>) -> Seq<char>
    decreases s.len(),
{
    if s.len() > 0 && is_ws(s[0]) {
        skip_ws(s.skip(1))
    } else {
        s
    }
}

/// Lower-case hexadecimal digit character for a value below sixteen.
pub open spec fn hex_char(d: nat) -> char
    recommends
        d < 16,
{
    if d < 10 {
        ((48 + d) as u8) as char
    } else {
        ((87 + d) as u8) as char
    }
}

/// The numeric value of a hexadecimal digit character, if it is one.
pub open spec fn hex_val(c: char) -> Option<nat> {
    let i = (c as u32) as int;
    if 48 <= i <= 57 {
        Some((i - 48) as nat)
    } else if 97 <= i <= 102 {
        Some((i - 87) as nat)
    } else if 65 <= i <= 70 {
        Some((i - 55) as nat)
    } else {
        None
    }
}

/// How one character is written inside a quoted string.
pub open spec fn esc_char(c: char) -> Seq<char> {
    if c == '"' {
        seq!['\\', '"']
    } else if c == '\\' {
        seq!['\\', '\\']
    } else if c == '\n' {
        seq!['\\', 'n']
    } else if c == '\r' {
        seq!['\\', 'r']
    } else if c == '\t' {
        seq!['\\', 't']
    } else if (c as u32) < 32 {
        seq!['\\', 'u', '0', '0', hex_char((((c as u32) as int) / 16) as nat), hex_char((((c as u32) as int) % 16) as nat)]
    } else {
        seq![c]
    }
}

/// The escaped body of a quoted string.
pub open spec fn esc_seq(s: Seq<char>) -> Seq<char>
    decreases s.len(),
{
    if s.len() == 0 {
        Seq::empty()
    } else {
        esc_char(s[0]) + esc_seq(s.skip(1))
    }
}

/// A full quoted string.
pub open spec fn enc_string(s: Seq<char>) -> Seq<char> {
    seq!['"'] + esc_seq(s) + seq!['"']
}

/// The single character an escape letter stands for, if it is one.
pub open spec fn unesc_char(e: char) -> Option<char> {
    if e == '"' {
        Some('"')
    } else if e == '\\' {
        Some('\\')
    } else if e == '/' {
        Some('/')
    } else if e == 'n' {
        Some('\n')
    } else if e == 'r' {
        Some('\r')
    } else if e == 't' {
        Some('\t')
    } else if e == 'b' {
        Some('\u{0008}')
    } else if e == 'f' {
        Some('\u{000C}')
    } else {
        None
    }
}

/// Prepends one decoded character to a partial string-parse result.
pub open spec fn psb_cons(c: char, r: Option<(Seq<char>, Seq<char>)>) -> Option<
    (Seq<char>, Seq<char>),
> {
    match r {
        Some(p) => Some((seq![c] + p.0, p.1)),
        None => None,
    }
}

/// Parses the body of a quoted string, after the opening quote: yields the
/// decoded content and the input after the closing quote. Raw control
/// characters and escapes this codec does not write are rejected; `\uXXXX`
/// escapes are accepted for codes below 128.
pub open spec fn parse_str_body(s: Seq<char>) -> Option<(Seq<char>, Seq<char>)>
    decreases s.len(),
{
    if s.len() == 0 {
        None
    } else if s[0] == '"' {
        Some((Seq::empty(), s.skip(1)))
    } else if s[0] == '\\' {
        if s.len() < 2 {
            None
        } else if s[1] == 'u' {
            if s.len() < 6 {
                None
            } else {
                match (hex_val(s[2]), hex_val(s[3]), hex_val(s[4]), hex_val(s[5])) {
                    (Some(h0), Some(h1), Some(h2), Some(h3)) => {
                        let code = h0 * 4096 + h1 * 256 + h2 * 16 + h3;
                        if code < 128 {
                            psb_cons((code as u32) as char, parse_str_body(s.skip(6)))
                        } else {
                            None
                        }
                    },
                    _ => None,
                }
            }
        } else {
            match unesc_char(s[1]) {
                Some(c) => psb_cons(c, parse_str_body(s.skip(2))),
                None => None,
            }
        }
    } else if (s[0] as u32) < 32 {
        None
    } else {
        psb_cons(s[0], parse_str_body(s.skip(1)))
    }
}

/// Skips leading whitespace, then parses a quoted string.
pub open spec fn parse_string(s: Seq<char>) -> Option<(Seq<char>, Seq<char>)> {
    let t = skip_ws(s);
    if t.len() > 0 && t[0] == '"' {
        parse_str_body(t.skip(1))
    } else {
        None
    }
}

/// Appends one decoded character to a partial string-parse result.
pub open spec fn psb_comb(out: Seq<char>, r: Option<(Seq<char>, Seq<char>)>) -> Option<
    (Seq<char>, Seq<char>),
> {
    match r {
        Some(p) => Some((out + p.0, p.1)),
        None => None,
    }
}

proof fn lemma_comb_empty(r: Option<(Seq<char>, Seq<char>)>)
    ensures
        psb_comb(Seq::empty(), r) == r,
{
    match r {
        Some(p) => {
            assert(Seq::<char>::empty() + p.0 =~= p.0);
        },
        None => {},
    }
}

proof fn lemma_comb_push(out: Seq<char>, c: char, r: Option<(Seq<char>, Seq<char>)>)
    ensures
        psb_comb(out, psb_cons(c, r)) == psb_comb(out.push(c), r),
{
    match r {
        Some(p) => {
            assert(out + (seq![c] + p.0) =~= out.push(c) + p.0);
        },
        None => {},
    }
}

/// Skips whitespace from `i` on; returns the first non-whitespace position.
pub fn p_ws(v: &Vec<char>, i: usize) -> (j: usize)
    requires
        i <= v@.len(),
    ensures
        i <= j <= v@.len(),
        skip_ws(v@.skip(i as int)) == v@.skip(j as int),
        j < v@.len() ==> !is_ws(v@[j as int]),
    decreases v@.len() - i,
{
    if i < v.len() {
        let c = v[i];
        if c == ' ' || c == '\n' || c == '\t' || c == '\r' {
            assert(v@.skip(i as int).skip(1) =~= v@.skip(i as int + 1));
            return p_ws(v, i + 1);
        }
    }
    assert(skip_ws(v@.skip(i as int)) == v@.skip(i as int));
    i
}

/// Whether a character is an unescaped control character.
fn is_control(c: char) -> (r: bool)
    ensures
        r == ((c as u32) < 32),
{
    let code = c as u32;
    code < 32
}

/// The numeric value of a hexadecimal digit character, if it is one.
fn p_hex_val(c: char) -> (r: Option<u8>)
    ensures
        match r {
            Some(d) => hex_val(c) == Some(d as nat) && d < 16,
            None => hex_val(c) is None,
        },
{
    let i = c as u32;
    if 48 <= i && i <= 57 {
        Some((i - 48) as u8)
    } else if 97 <= i && i <= 102 {
        Some((i - 87) as u8)
    } else if 65 <= i && i <= 70 {
        Some((i - 55) as u8)
    } else {
        None
    }
}

/// Parses a quoted string body starting at `i` (just past the opening
/// quote), matching `parse_str_body`.
pub fn p_str_body(v: &Vec<char>, start: usize) -> (r: Option<(String, usize)>)
    requires
        start <= v@.len(),
    ensures
        match r {
            Some(p) => p.1 <= v@.len() && parse_str_body(v@.skip(start as int)) == Some(
                (p.0@, v@.skip(p.1 as int)),
            ),
            None => parse_str_body(v@.skip(start as int)) is None,
        },
{
    let mut out = String::new();
    let mut i: usize = start;
    proof {
        lemma_comb_empty(parse_str_body(v@.skip(start as int)));
    }
    loop
        invariant
            start <= i <= v@.len(),
            parse_str_body(v@.skip(start as int)) == psb_comb(out@, parse_str_body(v@.skip(i as int))),
        decreases v@.len() - i,
    {
        if i == v.len() {
            return None;
        }
        let c = v[i];
        assert(v@.skip(i as int)[0] == c);
        assert(v@.skip(i as int).len() == v@.len() - i);
        if c == '"' {
            assert(parse_str_body(v@.skip(i as int)) == Some((Seq::<char>::empty(), v@.skip(i as int).skip(1))));
            assert(v@.skip(i as int).skip(1) =~= v@.skip(i as int + 1));
            assert(out@ + Seq::<char>::empty() =~= out@);
            return Some((out, i + 1));
        } else if c == '\\' {
            if i + 1 == v.len() {
                return None;
            }
            let e = v[i + 1];
            if e == 'u' {
                if v.len() - i < 6 {
                    return None;
                }
                let h0 = p_hex_val(v[i + 2]);
                let h1 = p_hex_val(v[i + 3]);
                let h2 = p_hex_val(v[i + 4]);
                let h3 = p_hex_val(v[i + 5]);
                assert(v@.skip(i as int)[1] == e);
                assert(v@.skip(i as int)[2] == v@[i as int + 2]);
                assert(v@.skip(i as int)[3] == v@[i as int + 3]);
                assert(v@.skip(i as int)[4] == v@[i as int + 4]);
                assert(v@.skip(i as int)[5] == v@[i as int + 5]);
                match (h0, h1, h2, h3) {
                    (Some(d0), Some(d1), Some(d2), Some(d3)) => {
                        let code: u32 = (d0 as u32) * 4096 + (d1 as u32) * 256 + (d2 as u32) * 16
                            + (d3 as u32);
                        if code < 128 {
                            let ch = (code as u8) as char;
                            proof {
                                lemma_comb_push(out@, ch, parse_str_body(v@.skip(i as int + 6)));
                                assert(v@.skip(i as int).skip(6) =~= v@.skip(i as int + 6));
                            }
                            push_char(&mut out, ch);
                            i = i + 6;
                        } else {
                            return None;
                        }
                    },
                    _ => {
                        return None;
                    },
                }
            } else {
                assert(v@.skip(i as int)[1] == e);
                let u = match e {
                    '"' => Some('"'),
                    '\\' => Some('\\'),
                    '/' => Some('/'),
                    'n' => Some('\n'),
                    'r' => Some('\r'),
                    't' => Some('\t'),
                    'b' => Some('\u{0008}'),
                    'f' => Some('\u{000C}'),
                    _ => None,
                };
                assert(u == unesc_char(e));
                match u {
                    Some(ch) => {
                        proof {
                            lemma_comb_push(out@, ch, parse_str_body(v@.skip(i as int + 2)));
                            assert(v@.skip(i as int).skip(2) =~= v@.skip(i as int + 2));
                        }
                        push_char(&mut out, ch);
                        i = i + 2;
                    },
                    None => {
                        return None;
                    },
                }
            }
        } else if is_control(c) {
            return None;
        } else {
            proof {
                lemma_comb_push(out@, c, parse_str_body(v@.skip(i as int + 1)));
                assert(v@.skip(i as int).skip(1) =~= v@.skip(i as int + 1));
            }
            push_char(&mut out, c);
            i = i + 1;
        }
    }
}

/// Skips whitespace, then parses a quoted string, matching `parse_string`.
pub fn p_string(v: &Vec<char>, i: usize) -> (r: Option<(String, usize)>)
    requires
        i <= v@.len(),
    ensures
        match r {
            Some(p) => p.1 <= v@.len() && parse_string(v@.skip(i as int)) == Some(
                (p.0@, v@.skip(p.1 as int)),
            ),
            None => parse_string(v@.skip(i as int)) is None,
        },
{
    let j = p_ws(v, i);
    if j < v.len() && v[j] == '"' {
        assert(v@.skip(j as int)[0] == '"');
        assert(v@.skip(j as int).skip(1) =~= v@.skip(j as int + 1));
        p_str_body(v, j + 1)
    } else {
        None
    }
}

/// Appends the escaped form of one character.
fn push_esc_char(out: &mut String, c: char)
    ensures
        final(out)@ == old(out)@ + esc_char(c),
{
    if c == '"' {
        push_char(out, '\\');
        push_char(out, '"');
        assert(final(out)@ =~= old(out)@ + esc_char(c));
    } else if c == '\\' {
        push_char(out, '\\');
        push_char(out, '\\');
        assert(final(out)@ =~= old(out)@ + esc_char(c));
    } else if c == '\n' {
        push_char(out, '\\');
        push_char(out, 'n');
        assert(final(out)@ =~= old(out)@ + esc_char(c));
    } else if c == '\r' {
        push_char(out, '\\');
        push_char(out, 'r');
        assert(final(out)@ =~= old(out)@ + esc_char(c));
    } else if c == '\t' {
        push_char(out, '\\');
        push_char(out, 't');
        assert(final(out)@ =~= old(out)@ + esc_char(c));
    } else if (c as u32) < 32 {
        let code = c as u32;
        let hi = (code / 16) as u8;
        let lo = (code % 16) as u8;
        let hic = if hi < 10 {
            (48 + hi) as char
        } else {
            (87 + hi) as char
        };
        let loc = if lo < 10 {
            (48 + lo) as char
        } else {
            (87 + lo) as char
        };
        push_char(out, '\\');
        push_char(out, 'u');
        push_char(out, '0');
        push_char(out, '0');
        push_char(out, hic);
        push_char(out, loc);
        assert(hic == hex_char(((c as int) / 16) as nat));
        assert(loc == hex_char(((c as int) % 16) as nat));
        assert(final(out)@ =~= old(out)@ + esc_char(c));
    } else {
        push_char(out, c);
        assert(final(out)@ =~= old(out)@ + esc_char(c));
    }
}

proof fn lemma_esc_seq_snoc(s: Seq<char>, c: char)
    ensures
        esc_seq(s.push(c)) == esc_seq(s) + esc_char(c),
    decreases s.len(),
{
    if s.len() == 0 {
        assert(s.push(c).len() == 1);
        assert(s.push(c)[0] == c);
        assert(s.push(c).skip(1) =~= Seq::<char>::empty());
        assert(esc_seq(s.push(c)) == esc_char(c) + esc_seq(Seq::<char>::empty()));
        assert(esc_seq(Seq::<char>::empty()) == Seq::<char>::empty());
        assert(esc_seq(s) == Seq::<char>::empty());
        assert(esc_char(c) + Seq::<char>::empty() =~= Seq::<char>::empty() + esc_char(c));
    } else {
        lemma_esc_seq_snoc(s.skip(1), c);
        assert(s.push(c).skip(1) =~= s.skip(1).push(c));
        assert(s.push(c)[0] == s[0]);
        assert(esc_char(s[0]) + (esc_seq(s.skip(1)) + esc_char(c)) =~= (esc_char(s[0]) + esc_seq(
            s.skip(1),
        )) + esc_char(c));
    }
}

/// Appends the quoted, escaped form of `s`.
pub fn push_quoted(out: &mut String, s: &str)
    ensures
        final(out)@ == old(out)@ + enc_string(s@),
{
    push_char(out, '"');
    let n: usize = s.unicode_len();
    let mut i: usize = 0;
    assert(s@.subrange(0, 0) =~= Seq::<char>::empty());
    assert(esc_seq(s@.subrange(0, 0)) =~= Seq::<char>::empty());
    while i < n
        invariant
            i <= n,
            n == s@.len(),
            out@ =~= old(out)@ + seq!['"'] + esc_seq(s@.subrange(0, i as int)),
        decreases n - i,
    {
        let c = s.get_char(i);
        proof {
            lemma_esc_seq_snoc(s@.subrange(0, i as int), c);
            assert(s@.subrange(0, i as int).push(c) =~= s@.subrange(0, i as int + 1));
        }
        push_esc_char(out, c);
        i = i + 1;
    }
    assert(s@.subrange(0, n as int) =~= s@);
    push_char(out, '"');
    assert(final(out)@ =~= old(out)@ + enc_string(s@));
}

} // verus!

use crate::types::{AuthorView, EntryView, ManifestView, MarketplaceView, opt_view};

verus! {

/// The four characters of the `null` literal.
pub open spec fn lit_null() -> Seq<char> {
    seq!['n', 'u', 'l', 'l']
}

/// Whether the input begins with the `null` literal.
pub open spec fn starts_null(s: Seq<char>) -> bool {
    s.len() >= 4 && s[0] == 'n' && s[1] == 'u' && s[2] == 'l' && s[3] == 'l'
}

/// Parses a string or the `null` literal, after optional whitespace.
pub open spec fn parse_opt_string(s: Seq<char>) -> Option<(Option<Seq<char>>, Seq<char>)> {
    let t = skip_ws(s);
    if t.len() > 0 && t[0] == '"' {
        match parse_str_body(t.skip(1)) {
            Some(p) => Some((Some(p.0), p.1)),
            None => None,
        }
    } else if starts_null(t) {
        Some((None, t.skip(4)))
    } else {
        None
    }
}

/// A character that may stand in an unquoted scalar such as a number,
/// `true`, `false` or `null`.
pub open spec fn is_atom_char(c: char) -> bool {
    !is_ws(c) && c != ',' && c != '}' && c != ']' && c != '{' && c != '[' && c != '"' && c != ':'
}

/// Drops a leading run of atom characters.
pub open spec fn drop_atom(s: Seq<char>) -> Seq<char>
    decreases s.len(),
{
    if s.len() > 0 && is_atom_char(s[0]) {
        drop_atom(s.skip(1))
    } else {
        s
    }
}

/// Skips one scalar value (string or atom) in a position to be ignored.
pub open spec fn skip_scalar(s: Seq<char>) -> Option<Seq<char>> {
    let t = skip_ws(s);
    if t.len() > 0 && t[0] == '"' {
        match parse_str_body(t.skip(1)) {
            Some(p) => Some(p.1),
            None => None,
        }
    } else if t.len() > 0 && is_atom_char(t[0]) {
        Some(drop_atom(t))
    } else {
        None
    }
}

/// Skips the remaining scalar elements of an ignored array.
pub open spec fn skip_arr_items(s: Seq<char>, fuel: nat) -> Option<Seq<char>>
    decreases fuel,
{
    if fuel == 0 {
        None
    } else {
        match skip_scalar(s) {
            None => None,
            Some(r) => {
                let t = skip_ws(r);
                if t.len() == 0 {
                    None
                } else if t[0] == ',' {
                    skip_arr_items(t.skip(1), (fuel - 1) as nat)
                } else if t[0] == ']' {
                    Some(t.skip(1))
                } else {
                    None
                }
            },
        }
    }
}

/// Skips one ignored value: a string, an atom, or an array of scalars.
pub open spec fn skip_value(s: Seq<char>) -> Option<Seq<char>> {
    let t = skip_ws(s);
    if t.len() > 0 && t[0] == '"' {
        match parse_str_body(t.skip(1)) {
            Some(p) => Some(p.1),
            None => None,
        }
    } else if t.len() > 0 && t[0] == '[' {
        let u = skip_ws(t.skip(1));
        if u.len() > 0 && u[0] == ']' {
            Some(u.skip(1))
        } else {
            skip_arr_items(t.skip(1), t.len())
        }
    } else if t.len() > 0 && is_atom_char(t[0]) {
        Some(drop_atom(t))
    } else {
        None
    }
}

/// Parses the remaining elements of a non-empty string array.
pub open spec fn parse_str_items(s: Seq<char>, acc: Seq<Seq<char>>, fuel: nat) -> Option<
    (Seq<Seq<char>>, Seq<char>),
>
    decreases fuel,
{
    if fuel == 0 {
        None
    } else {
        match parse_string(s) {
            None => None,
            Some(p) => {
                let t = skip_ws(p.1);
                if t.len() == 0 {
                    None
                } else if t[0] == ',' {
                    parse_str_items(t.skip(1), acc.push(p.0), (fuel - 1) as nat)
                } else if t[0] == ']' {
                    Some((acc.push(p.0), t.skip(1)))
                } else {
                    None
                }
            },
        }
    }
}

/// Parses a string array, after optional whitespace.
pub open spec fn parse_str_array(s: Seq<char>) -> Option<(Seq<Seq<char>>, Seq<char>)> {
    let t = skip_ws(s);
    if t.len() > 0 && t[0] == '[' {
        let u = skip_ws(t.skip(1));
        if u.len() > 0 && u[0] == ']' {
            Some((Seq::empty(), u.skip(1)))
        } else {
            parse_str_items(t.skip(1), Seq::empty(), t.len())
        }
    } else {
        None
    }
}

/// Parses a string array or the `null` literal.
pub open spec fn parse_keywords(s: Seq<char>) -> Option<(Option<Seq<Seq<char>>>, Seq<char>)> {
    let t = skip_ws(s);
    if t.len() > 0 && t[0] == '[' {
        match parse_str_array(s) {
            Some(p) => Some((Some(p.0), p.1)),
            None => None,
        }
    } else if starts_null(t) {
        Some((None, t.skip(4)))
    } else {
        None
    }
}

/// Partial author object while its fields are being read.
#[verifier::ext_equal]
pub ghost struct AuthorAcc {
    pub name: Option<Seq<char>>,
    pub email: Option<Seq<char>>,
    pub url: Option<Seq<char>>,
}

/// The author accumulator before any field has been read.
pub open spec fn author_acc0() -> AuthorAcc {
    AuthorAcc { name: None, email: None, url: None }
}

/// Applies one author field to the accumulator and consumes its value.
pub open spec fn author_val(fname: Seq<char>, s: Seq<char>, acc: AuthorAcc) -> Option<
    (AuthorAcc, Seq<char>),
> {
    if fname == "name"@ {
        match parse_string(s) {
            Some(p) => Some((AuthorAcc { name: Some(p.0), ..acc }, p.1)),
            None => None,
        }
    } else if fname == "email"@ {
        match parse_opt_string(s) {
            Some(p) => Some((AuthorAcc { email: p.0, ..acc }, p.1)),
            None => None,
        }
    } else if fname == "url"@ {
        match parse_opt_string(s) {
            Some(p) => Some((AuthorAcc { url: p.0, ..acc }, p.1)),
            None => None,
        }
    } else {
        match skip_value(s) {
            Some(r) => Some((acc, r)),
            None => None,
        }
    }
}

/// Reads author fields until the closing brace.
pub open spec fn author_fields(s: Seq<char>, acc: AuthorAcc, fuel: nat) -> Option<
    (AuthorAcc, Seq<char>),
>
    decreases fuel,
{
    if fuel == 0 {
        None
    } else {
        match parse_string(s) {
            None => None,
            Some(p) => {
                let r2 = skip_ws(p.1);
                if r2.len() == 0 || r2[0] != ':' {
                    None
                } else {
                    match author_val(p.0, r2.skip(1), acc) {
                        None => None,
                        Some(q) => {
                            let r5 = skip_ws(q.1);
                            if r5.len() == 0 {
                                None
                            } else if r5[0] == ',' {
                                author_fields(r5.skip(1), q.0, (fuel - 1) as nat)
                            } else if r5[0] == '}' {
                                Some((q.0, r5.skip(1)))
                            } else {
                                None
                            }
                        },
                    }
                }
            },
        }
    }
}

/// The finished author, if its required field was present.
pub open spec fn author_fin(acc: AuthorAcc) -> Option<AuthorView> {
    match acc.name {
        Some(n) => Some(AuthorView { name: n, email: acc.email, url: acc.url }),
        None => None,
    }
}

/// Parses an author object, after optional whitespace.
pub open spec fn parse_author(s: Seq<char>) -> Option<(AuthorView, Seq<char>)> {
    let t = skip_ws(s);
    if t.len() > 0 && t[0] == '{' {
        match author_fields(t.skip(1), author_acc0(), t.len()) {
            Some(p) => match author_fin(p.0) {
                Some(a) => Some((a, p.1)),
                None => None,
            },
            None => None,
        }
    } else {
        None
    }
}

/// Partial marketplace entry while its fields are being read.
#[verifier::ext_equal]
pub ghost struct EntryAcc {
    pub name: Option<Seq<char>>,
    pub source: Option<Seq<char>>,
    pub description: Option<Seq<char>>,
}

/// The entry accumulator before any field has been read.
pub open spec fn entry_acc0() -> EntryAcc {
    EntryAcc { name: None, source: None, description: None }
}

/// Applies one entry field to the accumulator and consumes its value.
pub open spec fn entry_val(fname: Seq<char>, s: Seq<char>, acc: EntryAcc) -> Option<
    (EntryAcc, Seq<char>),
> {
    if fname == "name"@ {
        match parse_string(s) {
            Some(p) => Some((EntryAcc { name: Some(p.0), ..acc }, p.1)),
            None => None,
        }
    } else if fname == "source"@ {
        match parse_string(s) {
            Some(p) => Some((EntryAcc { source: Some(p.0), ..acc }, p.1)),
            None => None,
        }
    } else if fname == "description"@ {
        match parse_opt_string(s) {
            Some(p) => Some((EntryAcc { description: p.0, ..acc }, p.1)),
            None => None,
        }
    } else {
        match skip_value(s) {
            Some(r) => Some((acc, r)),
            None => None,
        }
    }
}

/// Reads entry fields until the closing brace.
pub open spec fn entry_fields(s: Seq<char>, acc: EntryAcc, fuel: nat) -> Option<
    (EntryAcc, Seq<char>),
>
    decreases fuel,
{
    if fuel == 0 {
        None
    } else {
        match parse_string(s) {
            None => None,
            Some(p) => {
                let r2 = skip_ws(p.1);
                if r2.len() == 0 || r2[0] != ':' {
                    None
                } else {
                    match entry_val(p.0, r2.skip(1), acc) {
                        None => None,
                        Some(q) => {
                            let r5 = skip_ws(q.1);
                            if r5.len() == 0 {
                                None
                            } else if r5[0] == ',' {
                                entry_fields(r5.skip(1), q.0, (fuel - 1) as nat)
                            } else if r5[0] == '}' {
                                Some((q.0, r5.skip(1)))
                            } else {
                                None
                            }
                        },
                    }
                }
            },
        }
    }
}

/// The finished entry, if its required fields were present.
pub open spec fn entry_fin(acc: EntryAcc) -> Option<EntryView> {
    match (acc.name, acc.source) {
        (Some(n), Some(src)) => Some(
            EntryView { name: n, source: src, description: acc.description },
        ),
        _ => None,
    }
}

/// Parses one marketplace entry object, after optional whitespace.
pub open spec fn parse_entry(s: Seq<char>) -> Option<(EntryView, Seq<char>)> {
    let t = skip_ws(s);
    if t.len() > 0 && t[0] == '{' {
        match entry_fields(t.skip(1), entry_acc0(), t.len()) {
            Some(p) => match entry_fin(p.0) {
                Some(e) => Some((e, p.1)),
                None => None,
            },
            None => None,
        }
    } else {
        None
    }
}

/// Parses the remaining elements of a non-empty entry array.
pub open spec fn parse_entry_items(s: Seq<char>, acc: Seq<EntryView>, fuel: nat) -> Option<
    (Seq<EntryView>, Seq<char>),
>
    decreases fuel,
{
    if fuel == 0 {
        None
    } else {
        match parse_entry(s) {
            None => None,
            Some(p) => {
                let t = skip_ws(p.1);
                if t.len() == 0 {
                    None
                } else if t[0] == ',' {
                    parse_entry_items(t.skip(1), acc.push(p.0), (fuel - 1) as nat)
                } else if t[0] == ']' {
                    Some((acc.push(p.0), t.skip(1)))
                } else {
                    None
                }
            },
        }
    }
}

/// Parses the plugins array, after optional whitespace.
pub open spec fn parse_entries(s: Seq<char>) -> Option<(Seq<EntryView>, Seq<char>)> {
    let t = skip_ws(s);
    if t.len() > 0 && t[0] == '[' {
        let u = skip_ws(t.skip(1));
        if u.len() > 0 && u[0] == ']' {
            Some((Seq::empty(), u.skip(1)))
        } else {
            parse_entry_items(t.skip(1), Seq::empty(), t.len())
        }
    } else {
        None
    }
}

} // verus!

verus! {

/// Partial plugin manifest while its fields are being read.
#[verifier::ext_equal]
pub ghost struct ManifestAcc {
    pub name: Option<Seq<char>>,
    pub description: Option<Seq<char>>,
    pub version: Option<Seq<char>>,
    pub author: Option<AuthorView>,
    pub homepage: Option<Seq<char>>,
    pub keywords: Option<Seq<Seq<char>>>,
    pub commands: Option<Seq<char>>,
    pub agents: Option<Seq<char>>,
    pub skills: Option<Seq<char>>,
    pub hooks: Option<Seq<char>>,
}

/// The manifest accumulator before any field has been read.
pub open spec fn manifest_acc0() -> ManifestAcc {
    ManifestAcc {
        name: None,
        description: None,
        version: None,
        author: None,
        homepage: None,
        keywords: None,
        commands: None,
        agents: None,
        skills: None,
        hooks: None,
    }
}

/// Applies one manifest field to the accumulator and consumes its value.
pub open spec fn manifest_val(fname: Seq<char>, s: Seq<char>, acc: ManifestAcc) -> Option<
    (ManifestAcc, Seq<char>),
> {
    if fname == "name"@ {
        match parse_string(s) {
            Some(p) => Some((ManifestAcc { name: Some(p.0), ..acc }, p.1)),
            None => None,
        }
    } else if fname == "description"@ {
        match parse_string(s) {
            Some(p) => Some((ManifestAcc { description: Some(p.0), ..acc }, p.1)),
            None => None,
        }
    } else if fname == "version"@ {
        match parse_string(s) {
            Some(p) => Some((ManifestAcc { version: Some(p.0), ..acc }, p.1)),
            None => None,
        }
    } else if fname == "author"@ {
        match parse_author(s) {
            Some(p) => Some((ManifestAcc { author: Some(p.0), ..acc }, p.1)),
            None => None,
        }
    } else if fname == "homepage"@ {
        match parse_opt_string(s) {
            Some(p) => Some((ManifestAcc { homepage: p.0, ..acc }, p.1)),
            None => None,
        }
    } else if fname == "keywords"@ {
        match parse_keywords(s) {
            Some(p) => Some((ManifestAcc { keywords: p.0, ..acc }, p.1)),
            None => None,
        }
    } else if fname == "commands"@ {
        match parse_opt_string(s) {
            Some(p) => Some((ManifestAcc { commands: p.0, ..acc }, p.1)),
            None => None,
        }
    } else if fname == "agents"@ {
        match parse_opt_string(s) {
            Some(p) => Some((ManifestAcc { agents: p.0, ..acc }, p.1)),
            None => None,
        }
    } else if fname == "skills"@ {
        match parse_opt_string(s) {
            Some(p) => Some((ManifestAcc { skills: p.0, ..acc }, p.1)),
            None => None,
        }
    } else if fname == "hooks"@ {
        match parse_opt_string(s) {
            Some(p) => Some((ManifestAcc { hooks: p.0, ..acc }, p.1)),
            None => None,
        }
    } else {
        match skip_value(s) {
            Some(r) => Some((acc, r)),
            None => None,
        }
    }
}

/// Reads manifest fields until the closing brace.
pub open spec fn manifest_fields(s: Seq<char>, acc: ManifestAcc, fuel: nat) -> Option<
    (ManifestAcc, Seq<char>),
>
    decreases fuel,
{
    if fuel == 0 {
        None
    } else {
        match parse_string(s) {
            None => None,
            Some(p) => {
                let r2 = skip_ws(p.1);
                if r2.len() == 0 || r2[0] != ':' {
                    None
                } else {
                    match manifest_val(p.0, r2.skip(1), acc) {
                        None => None,
                        Some(q) => {
                            let r5 = skip_ws(q.1);
                            if r5.len() == 0 {
                                None
                            } else if r5[0] == ',' {
                                manifest_fields(r5.skip(1), q.0, (fuel - 1) as nat)
                            } else if r5[0] == '}' {
                                Some((q.0, r5.skip(1)))
                            } else {
                                None
                            }
                        },
                    }
                }
            },
        }
    }
}

/// The finished manifest, if all required fields were present.
pub open spec fn manifest_fin(acc: ManifestAcc) -> Option<ManifestView> {
    match (acc.name, acc.description, acc.version, acc.author) {
        (Some(n), Some(d), Some(ver), Some(a)) => Some(
            ManifestView {
                name: n,
                description: d,
                version: ver,
                author: a,
                homepage: acc.homepage,
                keywords: acc.keywords,
                commands: acc.commands,
                agents: acc.agents,
                skills: acc.skills,
                hooks: acc.hooks,
            },
        ),
        _ => None,
    }
}

/// Partial marketplace while its fields are being read.
#[verifier::ext_equal]
pub ghost struct MarketAcc {
    pub name: Option<Seq<char>>,
    pub owner_name: Option<Seq<char>>,
    pub plugins: Option<Seq<EntryView>>,
}

/// The marketplace accumulator before any field has been read.
pub open spec fn market_acc0() -> MarketAcc {
    MarketAcc { name: None, owner_name: None, plugins: None }
}

/// Partial owner object while its fields are being read.
#[verifier::ext_equal]
pub ghost struct OwnerAcc {
    pub name: Option<Seq<char>>,
}

/// Applies one owner field to the accumulator and consumes its value.
pub open spec fn owner_val(fname: Seq<char>, s: Seq<char>, acc: OwnerAcc) -> Option<
    (OwnerAcc, Seq<char>),
> {
    if fname == "name"@ {
        match parse_string(s) {
            Some(p) => Some((OwnerAcc { name: Some(p.0) }, p.1)),
            None => None,
        }
    } else {
        match skip_value(s) {
            Some(r) => Some((acc, r)),
            None => None,
        }
    }
}

/// Reads owner fields until the closing brace.
pub open spec fn owner_fields(s: Seq<char>, acc: OwnerAcc, fuel: nat) -> Option<
    (OwnerAcc, Seq<char>),
>
    decreases fuel,
{
    if fuel == 0 {
        None
    } else {
        match parse_string(s) {
            None => None,
            Some(p) => {
                let r2 = skip_ws(p.1);
                if r2.len() == 0 || r2[0] != ':' {
                    None
                } else {
                    match owner_val(p.0, r2.skip(1), acc) {
                        None => None,
                        Some(q) => {
                            let r5 = skip_ws(q.1);
                            if r5.len() == 0 {
                                None
                            } else if r5[0] == ',' {
                                owner_fields(r5.skip(1), q.0, (fuel - 1) as nat)
                            } else if r5[0] == '}' {
                                Some((q.0, r5.skip(1)))
                            } else {
                                None
                            }
                        },
                    }
                }
            },
        }
    }
}

/// Parses the owner object, after optional whitespace; yields its name.
pub open spec fn parse_owner(s: Seq<char>) -> Option<(Seq<char>, Seq<char>)> {
    let t = skip_ws(s);
    if t.len() > 0 && t[0] == '{' {
        match owner_fields(t.skip(1), OwnerAcc { name: None }, t.len()) {
            Some(p) => match p.0.name {
                Some(n) => Some((n, p.1)),
                None => None,
            },
            None => None,
        }
    } else {
        None
    }
}

/// Applies one marketplace field to the accumulator and consumes its value.
pub open spec fn market_val(fname: Seq<char>, s: Seq<char>, acc: MarketAcc) -> Option<
    (MarketAcc, Seq<char>),
> {
    if fname == "name"@ {
        match parse_string(s) {
            Some(p) => Some((MarketAcc { name: Some(p.0), ..acc }, p.1)),
            None => None,
        }
    } else if fname == "owner"@ {
        match parse_owner(s) {
            Some(p) => Some((MarketAcc { owner_name: Some(p.0), ..acc }, p.1)),
            None => None,
        }
    } else if fname == "plugins"@ {
        match parse_entries(s) {
            Some(p) => Some((MarketAcc { plugins: Some(p.0), ..acc }, p.1)),
            None => None,
        }
    } else {
        match skip_value(s) {
            Some(r) => Some((acc, r)),
            None => None,
        }
    }
}

/// Reads marketplace fields until the closing brace.
pub open spec fn market_fields(s: Seq<char>, acc: MarketAcc, fuel: nat) -> Option<
    (MarketAcc, Seq<char>),
>
    decreases fuel,
{
    if fuel == 0 {
        None
    } else {
        match parse_string(s) {
            None => None,
            Some(p) => {
                let r2 = skip_ws(p.1);
                if r2.len() == 0 || r2[0] != ':' {
                    None
                } else {
                    match market_val(p.0, r2.skip(1), acc) {
                        None => None,
                        Some(q) => {
                            let r5 = skip_ws(q.1);
                            if r5.len() == 0 {
                                None
                            } else if r5[0] == ',' {
                                market_fields(r5.skip(1), q.0, (fuel - 1) as nat)
                            } else if r5[0] == '}' {
                                Some((q.0, r5.skip(1)))
                            } else {
                                None
                            }
                        },
                    }
                }
            },
        }
    }
}

/// The finished marketplace, if all required fields were present.
pub open spec fn market_fin(acc: MarketAcc) -> Option<MarketplaceView> {
    match (acc.name, acc.owner_name, acc.plugins) {
        (Some(n), Some(o), Some(ps)) => Some(
            MarketplaceView { name: n, owner_name: o, plugins: ps },
        ),
        _ => None,
    }
}

/// The exact decoding of a plugin manifest document.
pub open spec fn spec_decode_manifest(s: Seq<char>) -> Result<ManifestView, DecodeError> {
    let t = skip_ws(s);
    if t.len() == 0 {
        Err(DecodeError::Empty)
    } else if t[0] != '{' {
        Err(DecodeError::Malformed)
    } else {
        match manifest_fields(t.skip(1), manifest_acc0(), t.len()) {
            Some(p) => {
                if skip_ws(p.1).len() != 0 {
                    Err(DecodeError::Malformed)
                } else {
                    match manifest_fin(p.0) {
                        Some(m) => Ok(m),
                        None => Err(DecodeError::Malformed),
                    }
                }
            },
            None => Err(DecodeError::Malformed),
        }
    }
}

/// The exact decoding of a marketplace index document.
pub open spec fn spec_decode_marketplace(s: Seq<char>) -> Result<MarketplaceView, DecodeError> {
    let t = skip_ws(s);
    if t.len() == 0 {
        Err(DecodeError::Empty)
    } else if t[0] != '{' {
        Err(DecodeError::Malformed)
    } else {
        match market_fields(t.skip(1), market_acc0(), t.len()) {
            Some(p) => {
                if skip_ws(p.1).len() != 0 {
                    Err(DecodeError::Malformed)
                } else {
                    match market_fin(p.0) {
                        Some(m) => Ok(m),
                        None => Err(DecodeError::Malformed),
                    }
                }
            },
            None => Err(DecodeError::Malformed),
        }
    }
}

/// A `name: value` member with the fixed separator this codec writes.
pub open spec fn enc_field(name: Seq<char>, val: Seq<char>) -> Seq<char> {
    enc_string(name) + seq![':', ' '] + val
}

/// The separator between top-level members: comma, newline, indent.
pub open spec fn fsep() -> Seq<char> {
    seq![',', '\n', ' ', ' ']
}

/// A string value or `null`.
pub open spec fn enc_opt_string(o: Option<Seq<char>>) -> Seq<char> {
    match o {
        None => lit_null(),
        Some(s) => enc_string(s),
    }
}

/// The author object, written inline.
pub open spec fn enc_author(a: AuthorView) -> Seq<char> {
    seq!['{'] + enc_field("name"@, enc_string(a.name)) + seq![',', ' '] + enc_field(
        "email"@,
        enc_opt_string(a.email),
    ) + seq![',', ' '] + enc_field("url"@, enc_opt_string(a.url)) + seq!['}']
}

/// The elements of a string array, comma separated.
pub open spec fn enc_str_items(xs: Seq<Seq<char>>) -> Seq<char>
    decreases xs.len(),
{
    if xs.len() == 0 {
        Seq::empty()
    } else if xs.len() == 1 {
        enc_string(xs[0])
    } else {
        enc_string(xs[0]) + seq![',', ' '] + enc_str_items(xs.skip(1))
    }
}

/// A keyword list value or `null`.
pub open spec fn enc_keywords(o: Option<Seq<Seq<char>>>) -> Seq<char> {
    match o {
        None => lit_null(),
        Some(xs) => seq!['['] + enc_str_items(xs) + seq![']'],
    }
}

/// The exact encoding of a plugin manifest document.
pub open spec fn enc_manifest(m: ManifestView) -> Seq<char> {
    seq!['{', '\n', ' ', ' '] + enc_field("name"@, enc_string(m.name)) + fsep() + enc_field(
        "description"@,
        enc_string(m.description),
    ) + fsep() + enc_field("version"@, enc_string(m.version)) + fsep() + enc_field(
        "author"@,
        enc_author(m.author),
    ) + fsep() + enc_field("homepage"@, enc_opt_string(m.homepage)) + fsep() + enc_field(
        "keywords"@,
        enc_keywords(m.keywords),
    ) + fsep() + enc_field("commands"@, enc_opt_string(m.commands)) + fsep() + enc_field(
        "agents"@,
        enc_opt_string(m.agents),
    ) + fsep() + enc_field("skills"@, enc_opt_string(m.skills)) + fsep() + enc_field(
        "hooks"@,
        enc_opt_string(m.hooks),
    ) + seq!['\n', '}']
}

/// One marketplace entry object, written inline.
pub open spec fn enc_entry(e: EntryView) -> Seq<char> {
    seq!['{'] + enc_field("name"@, enc_string(e.name)) + seq![',', ' '] + enc_field(
        "source"@,
        enc_string(e.source),
    ) + seq![',', ' '] + enc_field("description"@, enc_opt_string(e.description)) + seq!['}']
}

/// The entry separator inside the plugins array: comma, newline, indent.
pub open spec fn esep() -> Seq<char> {
    seq![',', '\n', ' ', ' ', ' ', ' ']
}

/// The elements of the plugins array, one per line.
pub open spec fn enc_entry_items(xs: Seq<EntryView>) -> Seq<char>
    decreases xs.len(),
{
    if xs.len() == 0 {
        Seq::empty()
    } else if xs.len() == 1 {
        enc_entry(xs[0])
    } else {
        enc_entry(xs[0]) + esep() + enc_entry_items(xs.skip(1))
    }
}

/// The plugins array value.
pub open spec fn enc_plugins(xs: Seq<EntryView>) -> Seq<char> {
    if xs.len() == 0 {
        seq!['[', ']']
    } else {
        seq!['[', '\n', ' ', ' ', ' ', ' '] + enc_entry_items(xs) + seq!['\n', ' ', ' ', ']']
    }
}

/// The owner object, written inline.
pub open spec fn enc_owner(name: Seq<char>) -> Seq<char> {
    seq!['{'] + enc_field("name"@, enc_string(name)) + seq!['}']
}

/// The exact encoding of a marketplace index document.
pub open spec fn enc_marketplace(m: MarketplaceView) -> Seq<char> {
    seq!['{', '\n', ' ', ' '] + enc_field("name"@, enc_string(m.name)) + fsep() + enc_field(
        "owner"@,
        enc_owner(m.owner_name),
    ) + fsep() + enc_field("plugins"@, enc_plugins(m.plugins)) + seq!['\n', '}']
}

} // verus!

verus! {

/// Whether the `null` literal stands at position `j`.
fn p_null_at(v: &Vec<char>, j: usize) -> (r: bool)
    requires
        j <= v@.len(),
    ensures
        r == starts_null(v@.skip(j as int)),
{
    if v.len() - j >= 4 {
        assert(v@.skip(j as int)[0] == v@[j as int]);
        assert(v@.skip(j as int)[1] == v@[j as int + 1]);
        assert(v@.skip(j as int)[2] == v@[j as int + 2]);
        assert(v@.skip(j as int)[3] == v@[j as int + 3]);
        v[j] == 'n' && v[j + 1] == 'u' && v[j + 2] == 'l' && v[j + 3] == 'l'
    } else {
        false
    }
}

/// Executable test for `is_atom_char`.
fn at_char(c: char) -> (r: bool)
    ensures
        r == is_atom_char(c),
{
    c != ' ' && c != '\n' && c != '\t' && c != '\r' && c != ',' && c != '}' && c != ']' && c != '{'
        && c != '[' && c != '"' && c != ':'
}

/// Consumes a run of atom characters, matching `drop_atom`.
fn p_atom_end(v: &Vec<char>, i: usize) -> (j: usize)
    requires
        i <= v@.len(),
    ensures
        i <= j <= v@.len(),
        drop_atom(v@.skip(i as int)) == v@.skip(j as int),
    decreases v@.len() - i,
{
    if i < v.len() {
        let c = v[i];
        assert(v@.skip(i as int)[0] == c);
        if at_char(c) {
            assert(v@.skip(i as int).skip(1) =~= v@.skip(i as int + 1));
            return p_atom_end(v, i + 1);
        }
    }
    assert(drop_atom(v@.skip(i as int)) == v@.skip(i as int));
    i
}

/// Skips one scalar, matching `skip_scalar`.
fn p_skip_scalar(v: &Vec<char>, i: usize) -> (r: Option<usize>)
    requires
        i <= v@.len(),
    ensures
        match r {
            Some(j) => j <= v@.len() && skip_scalar(v@.skip(i as int)) == Some(v@.skip(j as int)),
            None => skip_scalar(v@.skip(i as int)) is None,
        },
{
    let j = p_ws(v, i);
    if j < v.len() && v[j] == '"' {
        assert(v@.skip(j as int)[0] == '"');
        assert(v@.skip(j as int).skip(1) =~= v@.skip(j as int + 1));
        match p_str_body(v, j + 1) {
            Some(p) => Some(p.1),
            None => None,
        }
    } else if j < v.len() && at_char(v[j]) {
        assert(v@.skip(j as int)[0] == v@[j as int]);
        Some(p_atom_end(v, j))
    } else {
        if j < v.len() {
            assert(v@.skip(j as int)[0] == v@[j as int]);
        }
        None
    }
}

/// Skips the remaining elements of an ignored array, matching
/// `skip_arr_items`.
fn p_skip_arr_items(v: &Vec<char>, i: usize, fuel: usize) -> (r: Option<usize>)
    requires
        i <= v@.len(),
    ensures
        match r {
            Some(j) => j <= v@.len() && skip_arr_items(v@.skip(i as int), fuel as nat) == Some(
                v@.skip(j as int),
            ),
            None => skip_arr_items(v@.skip(i as int), fuel as nat) is None,
        },
    decreases fuel,
{
    if fuel == 0 {
        return None;
    }
    match p_skip_scalar(v, i) {
        None => None,
        Some(j1) => {
            let j2 = p_ws(v, j1);
            if j2 == v.len() {
                return None;
            }
            let c = v[j2];
            assert(v@.skip(j2 as int)[0] == c);
            assert(v@.skip(j2 as int).skip(1) =~= v@.skip(j2 as int + 1));
            if c == ',' {
                p_skip_arr_items(v, j2 + 1, fuel - 1)
            } else if c == ']' {
                Some(j2 + 1)
            } else {
                None
            }
        },
    }
}

/// Skips one ignored value, matching `skip_value`.
fn p_skip_value(v: &Vec<char>, i: usize) -> (r: Option<usize>)
    requires
        i <= v@.len(),
    ensures
        match r {
            Some(j) => j <= v@.len() && skip_value(v@.skip(i as int)) == Some(v@.skip(j as int)),
            None => skip_value(v@.skip(i as int)) is None,
        },
{
    let j = p_ws(v, i);
    if j < v.len() && v[j] == '"' {
        assert(v@.skip(j as int)[0] == '"');
        assert(v@.skip(j as int).skip(1) =~= v@.skip(j as int + 1));
        match p_str_body(v, j + 1) {
            Some(p) => Some(p.1),
            None => None,
        }
    } else if j < v.len() && v[j] == '[' {
        assert(v@.skip(j as int)[0] == '[');
        assert(v@.skip(j as int).skip(1) =~= v@.skip(j as int + 1));
        let k = p_ws(v, j + 1);
        if k < v.len() && v[k] == ']' {
            assert(v@.skip(k as int)[0] == ']');
            assert(v@.skip(k as int).skip(1) =~= v@.skip(k as int + 1));
            Some(k + 1)
        } else {
            if k < v.len() {
                assert(v@.skip(k as int)[0] == v@[k as int]);
            }
            p_skip_arr_items(v, j + 1, v.len() - j)
        }
    } else if j < v.len() && at_char(v[j]) {
        assert(v@.skip(j as int)[0] == v@[j as int]);
        Some(p_atom_end(v, j))
    } else {
        if j < v.len() {
            assert(v@.skip(j as int)[0] == v@[j as int]);
        }
        None
    }
}

/// Parses a string or `null`, matching `parse_opt_string`.
fn p_opt_string(v: &Vec<char>, i: usize) -> (r: Option<(Option<String>, usize)>)
    requires
        i <= v@.len(),
    ensures
        match r {
            Some(p) => p.1 <= v@.len() && parse_opt_string(v@.skip(i as int)) == Some(
                (opt_view(p.0), v@.skip(p.1 as int)),
            ),
            None => parse_opt_string(v@.skip(i as int)) is None,
        },
{
    let j = p_ws(v, i);
    if j < v.len() && v[j] == '"' {
        assert(v@.skip(j as int)[0] == '"');
        assert(v@.skip(j as int).skip(1) =~= v@.skip(j as int + 1));
        match p_str_body(v, j + 1) {
            Some(p) => Some((Some(p.0), p.1)),
            None => None,
        }
    } else if p_null_at(v, j) {
        assert(v@.skip(j as int).skip(4) =~= v@.skip(j as int + 4));
        if j < v.len() {
            assert(v@.skip(j as int)[0] == v@[j as int]);
        }
        Some((None, j + 4))
    } else {
        if j < v.len() {
            assert(v@.skip(j as int)[0] == v@[j as int]);
        }
        None
    }
}

/// Parses the remaining elements of a non-empty string array, matching
/// `parse_str_items`.
fn p_str_items(v: &Vec<char>, i: usize, acc: Vec<String>, fuel: usize) -> (r: Option<
    (Vec<String>, usize),
>)
    requires
        i <= v@.len(),
    ensures
        match r {
            Some(p) => p.1 <= v@.len() && parse_str_items(
                v@.skip(i as int),
                acc.deep_view(),
                fuel as nat,
            ) == Some((p.0.deep_view(), v@.skip(p.1 as int))),
            None => parse_str_items(v@.skip(i as int), acc.deep_view(), fuel as nat) is None,
        },
    decreases fuel,
{
    if fuel == 0 {
        return None;
    }
    match p_string(v, i) {
        None => None,
        Some((x, j1)) => {
            let j2 = p_ws(v, j1);
            if j2 == v.len() {
                return None;
            }
            let c = v[j2];
            assert(v@.skip(j2 as int)[0] == c);
            assert(v@.skip(j2 as int).skip(1) =~= v@.skip(j2 as int + 1));
            let ghost acc0 = acc.deep_view();
            let ghost xv = x@;
            let mut acc2 = acc;
            acc2.push(x);
            proof {
                assert(acc2.deep_view() =~= acc0.push(xv));
            }
            if c == ',' {
                p_str_items(v, j2 + 1, acc2, fuel - 1)
            } else if c == ']' {
                Some((acc2, j2 + 1))
            } else {
                None
            }
        },
    }
}

/// Parses a string array, matching `parse_str_array`.
fn p_str_array(v: &Vec<char>, i: usize) -> (r: Option<(Vec<String>, usize)>)
    requires
        i <= v@.len(),
    ensures
        match r {
            Some(p) => p.1 <= v@.len() && parse_str_array(v@.skip(i as int)) == Some(
                (p.0.deep_view(), v@.skip(p.1 as int)),
            ),
            None => parse_str_array(v@.skip(i as int)) is None,
        },
{
    let j = p_ws(v, i);
    if j < v.len() && v[j] == '[' {
        assert(v@.skip(j as int)[0] == '[');
        assert(v@.skip(j as int).skip(1) =~= v@.skip(j as int + 1));
        let k = p_ws(v, j + 1);
        if k < v.len() && v[k] == ']' {
            assert(v@.skip(k as int)[0] == ']');
            assert(v@.skip(k as int).skip(1) =~= v@.skip(k as int + 1));
            let out: Vec<String> = Vec::new();
            proof {
                assert(out.deep_view() =~= Seq::<Seq<char>>::empty());
            }
            Some((out, k + 1))
        } else {
            if k < v.len() {
                assert(v@.skip(k as int)[0] == v@[k as int]);
            }
            let acc: Vec<String> = Vec::new();
            proof {
                assert(acc.deep_view() =~= Seq::<Seq<char>>::empty());
            }
            p_str_items(v, j + 1, acc, v.len() - j)
        }
    } else {
        if j < v.len() {
            assert(v@.skip(j as int)[0] == v@[j as int]);
        }
        None
    }
}

/// Parses a keyword list or `null`, matching `parse_keywords`.
fn p_keywords(v: &Vec<char>, i: usize) -> (r: Option<(Option<Vec<String>>, usize)>)
    requires
        i <= v@.len(),
    ensures
        match r {
            Some(p) => p.1 <= v@.len() && parse_keywords(v@.skip(i as int)) == Some(
                (
                    match p.0 {
                        Some(xs) => Some(xs.deep_view()),
                        None => None,
                    },
                    v@.skip(p.1 as int),
                ),
            ),
            None => parse_keywords(v@.skip(i as int)) is None,
        },
{
    let j = p_ws(v, i);
    if j < v.len() && v[j] == '[' {
        assert(v@.skip(j as int)[0] == '[');
        match p_str_array(v, i) {
            Some(p) => Some((Some(p.0), p.1)),
            None => None,
        }
    } else if p_null_at(v, j) {
        assert(v@.skip(j as int).skip(4) =~= v@.skip(j as int + 4));
        if j < v.len() {
            assert(v@.skip(j as int)[0] == v@[j as int]);
        }
        Some((None, j + 4))
    } else {
        if j < v.len() {
            assert(v@.skip(j as int)[0] == v@[j as int]);
        }
        None
    }
}

} // verus!

use crate::types::{Author, Marketplace, MarketplaceEntry, Owner, PluginManifest};
use crate::strutil::to_chars;

verus! {

/// Whether a parsed field name equals a fixed schema name.
fn str_is(a: &String, lit: &str) -> (r: bool)
    ensures
        r == (a@ == lit@),
{
    let l = String::from_str(lit);
    *a == l
}

/// Executable accumulator for an author object.
struct AuthorAccE {
    name: Option<String>,
    email: Option<String>,
    url: Option<String>,
}

impl View for AuthorAccE {
    type V = AuthorAcc;

    closed spec fn view(&self) -> AuthorAcc {
        AuthorAcc {
            name: opt_view(self.name),
            email: opt_view(self.email),
            url: opt_view(self.url),
        }
    }
}

/// Applies one author field, matching `author_val`.
fn p_author_val(v: &Vec<char>, i: usize, fname: &String, acc: AuthorAccE) -> (r: Option<
    (AuthorAccE, usize),
>)
    requires
        i <= v@.len(),
    ensures
        match r {
            Some(p) => p.1 <= v@.len() && author_val(fname@, v@.skip(i as int), acc@) == Some(
                (p.0@, v@.skip(p.1 as int)),
            ),
            None => author_val(fname@, v@.skip(i as int), acc@) is None,
        },
{
    if str_is(fname, "name") {
        match p_string(v, i) {
            Some(p) => Some((AuthorAccE { name: Some(p.0), ..acc }, p.1)),
            None => None,
        }
    } else if str_is(fname, "email") {
        match p_opt_string(v, i) {
            Some(p) => Some((AuthorAccE { email: p.0, ..acc }, p.1)),
            None => None,
        }
    } else if str_is(fname, "url") {
        match p_opt_string(v, i) {
            Some(p) => Some((AuthorAccE { url: p.0, ..acc }, p.1)),
            None => None,
        }
    } else {
        match p_skip_value(v, i) {
            Some(j) => Some((acc, j)),
            None => None,
        }
    }
}

/// Reads author fields, matching `author_fields`.
fn p_author_fields(v: &Vec<char>, i: usize, acc: AuthorAccE, fuel: usize) -> (r: Option<
    (AuthorAccE, usize),
>)
    requires
        i <= v@.len(),
    ensures
        match r {
            Some(p) => p.1 <= v@.len() && author_fields(v@.skip(i as int), acc@, fuel as nat)
                == Some((p.0@, v@.skip(p.1 as int))),
            None => author_fields(v@.skip(i as int), acc@, fuel as nat) is None,
        },
    decreases fuel,
{
    if fuel == 0 {
        return None;
    }
    match p_string(v, i) {
        None => None,
        Some((fname, j1)) => {
            let j2 = p_ws(v, j1);
            if j2 == v.len() {
                return None;
            }
            let c = v[j2];
            assert(v@.skip(j2 as int)[0] == c);
            if c != ':' {
                return None;
            }
            assert(v@.skip(j2 as int).skip(1) =~= v@.skip(j2 as int + 1));
            match p_author_val(v, j2 + 1, &fname, acc) {
                None => None,
                Some((acc2, j4)) => {
                    let j5 = p_ws(v, j4);
                    if j5 == v.len() {
                        return None;
                    }
                    let c5 = v[j5];
                    assert(v@.skip(j5 as int)[0] == c5);
                    assert(v@.skip(j5 as int).skip(1) =~= v@.skip(j5 as int + 1));
                    if c5 == ',' {
                        p_author_fields(v, j5 + 1, acc2, fuel - 1)
                    } else if c5 == '}' {
                        Some((acc2, j5 + 1))
                    } else {
                        None
                    }
                },
            }
        },
    }
}

/// Parses an author object, matching `parse_author`.
fn p_author(v: &Vec<char>, i: usize) -> (r: Option<(Author, usize)>)
    requires
        i <= v@.len(),
    ensures
        match r {
            Some(p) => p.1 <= v@.len() && parse_author(v@.skip(i as int)) == Some(
                (p.0@, v@.skip(p.1 as int)),
            ),
            None => parse_author(v@.skip(i as int)) is None,
        },
{
    let j = p_ws(v, i);
    if j == v.len() {
        return None;
    }
    let c = v[j];
    assert(v@.skip(j as int)[0] == c);
    if c != '{' {
        return None;
    }
    assert(v@.skip(j as int).skip(1) =~= v@.skip(j as int + 1));
    let acc = AuthorAccE { name: None, email: None, url: None };
    assert(acc@ =~= author_acc0());
    match p_author_fields(v, j + 1, acc, v.len() - j) {
        None => None,
        Some((acc2, j2)) => match acc2.name {
            Some(n) => Some((Author { name: n, email: acc2.email, url: acc2.url }, j2)),
            None => None,
        },
    }
}

/// Executable accumulator for a marketplace entry object.
struct EntryAccE {
    name: Option<String>,
    source: Option<String>,
    description: Option<String>,
}

impl View for EntryAccE {
    type V = EntryAcc;

    closed spec fn view(&self) -> EntryAcc {
        EntryAcc {
            name: opt_view(self.name),
            source: opt_view(self.source),
            description: opt_view(self.description),
        }
    }
}

/// Applies one entry field, matching `entry_val`.
fn p_entry_val(v: &Vec<char>, i: usize, fname: &String, acc: EntryAccE) -> (r: Option<
    (EntryAccE, usize),
>)
    requires
        i <= v@.len(),
    ensures
        match r {
            Some(p) => p.1 <= v@.len() && entry_val(fname@, v@.skip(i as int), acc@) == Some(
                (p.0@, v@.skip(p.1 as int)),
            ),
            None => entry_val(fname@, v@.skip(i as int), acc@) is None,
        },
{
    if str_is(fname, "name") {
        match p_string(v, i) {
            Some(p) => Some((EntryAccE { name: Some(p.0), ..acc }, p.1)),
            None => None,
        }
    } else if str_is(fname, "source") {
        match p_string(v, i) {
            Some(p) => Some((EntryAccE { source: Some(p.0), ..acc }, p.1)),
            None => None,
        }
    } else if str_is(fname, "description") {
        match p_opt_string(v, i) {
            Some(p) => Some((EntryAccE { description: p.0, ..acc }, p.1)),
            None => None,
        }
    } else {
        match p_skip_value(v, i) {
            Some(j) => Some((acc, j)),
            None => None,
        }
    }
}

/// Reads entry fields, matching `entry_fields`.
fn p_entry_fields(v: &Vec<char>, i: usize, acc: EntryAccE, fuel: usize) -> (r: Option<
    (EntryAccE, usize),
>)
    requires
        i <= v@.len(),
    ensures
        match r {
            Some(p) => p.1 <= v@.len() && entry_fields(v@.skip(i as int), acc@, fuel as nat)
                == Some((p.0@, v@.skip(p.1 as int))),
            None => entry_fields(v@.skip(i as int), acc@, fuel as nat) is None,
        },
    decreases fuel,
{
    if fuel == 0 {
        return None;
    }
    match p_string(v, i) {
        None => None,
        Some((fname, j1)) => {
            let j2 = p_ws(v, j1);
            if j2 == v.len() {
                return None;
            }
            let c = v[j2];
            assert(v@.skip(j2 as int)[0] == c);
            if c != ':' {
                return None;
            }
            assert(v@.skip(j2 as int).skip(1) =~= v@.skip(j2 as int + 1));
            match p_entry_val(v, j2 + 1, &fname, acc) {
                None => None,
                Some((acc2, j4)) => {
                    let j5 = p_ws(v, j4);
                    if j5 == v.len() {
                        return None;
                    }
                    let c5 = v[j5];
                    assert(v@.skip(j5 as int)[0] == c5);
                    assert(v@.skip(j5 as int).skip(1) =~= v@.skip(j5 as int + 1));
                    if c5 == ',' {
                        p_entry_fields(v, j5 + 1, acc2, fuel - 1)
                    } else if c5 == '}' {
                        Some((acc2, j5 + 1))
                    } else {
                        None
                    }
                },
            }
        },
    }
}

/// Parses one entry object, matching `parse_entry`.
fn p_entry(v: &Vec<char>, i: usize) -> (r: Option<(MarketplaceEntry, usize)>)
    requires
        i <= v@.len(),
    ensures
        match r {
            Some(p) => p.1 <= v@.len() && parse_entry(v@.skip(i as int)) == Some(
                (p.0@, v@.skip(p.1 as int)),
            ),
            None => parse_entry(v@.skip(i as int)) is None,
        },
{
    let j = p_ws(v, i);
    if j == v.len() {
        return None;
    }
    let c = v[j];
    assert(v@.skip(j as int)[0] == c);
    if c != '{' {
        return None;
    }
    assert(v@.skip(j as int).skip(1) =~= v@.skip(j as int + 1));
    let acc = EntryAccE { name: None, source: None, description: None };
    assert(acc@ =~= entry_acc0());
    match p_entry_fields(v, j + 1, acc, v.len() - j) {
        None => None,
        Some((acc2, j2)) => {
            let EntryAccE { name, source, description } = acc2;
            match (name, source) {
                (Some(n), Some(src)) => Some(
                    (MarketplaceEntry { name: n, source: src, description }, j2),
                ),
                _ => None,
            }
        },
    }
}

/// The views of a sequence of marketplace entries.
pub open spec fn evs(s: Seq<MarketplaceEntry>) -> Seq<EntryView> {
    Seq::new(s.len(), |i: int| s[i]@)
}

/// Parses the remaining elements of a non-empty entry array, matching
/// `parse_entry_items`.
fn p_entry_items(v: &Vec<char>, i: usize, acc: Vec<MarketplaceEntry>, fuel: usize) -> (r: Option<
    (Vec<MarketplaceEntry>, usize),
>)
    requires
        i <= v@.len(),
    ensures
        match r {
            Some(p) => p.1 <= v@.len() && parse_entry_items(
                v@.skip(i as int),
                evs(acc@),
                fuel as nat,
            ) == Some((evs(p.0@), v@.skip(p.1 as int))),
            None => parse_entry_items(v@.skip(i as int), evs(acc@), fuel as nat) is None,
        },
    decreases fuel,
{
    if fuel == 0 {
        return None;
    }
    match p_entry(v, i) {
        None => None,
        Some((x, j1)) => {
            let j2 = p_ws(v, j1);
            if j2 == v.len() {
                return None;
            }
            let c = v[j2];
            assert(v@.skip(j2 as int)[0] == c);
            assert(v@.skip(j2 as int).skip(1) =~= v@.skip(j2 as int + 1));
            let ghost acc0 = evs(acc@);
            let ghost xv = x@;
            let mut acc2 = acc;
            acc2.push(x);
            proof {
                assert(evs(acc2@) =~= acc0.push(xv));
            }
            if c == ',' {
                p_entry_items(v, j2 + 1, acc2, fuel - 1)
            } else if c == ']' {
                Some((acc2, j2 + 1))
            } else {
                None
            }
        },
    }
}

/// Parses the plugins array, matching `parse_entries`.
fn p_entries(v: &Vec<char>, i: usize) -> (r: Option<(Vec<MarketplaceEntry>, usize)>)
    requires
        i <= v@.len(),
    ensures
        match r {
            Some(p) => p.1 <= v@.len() && parse_entries(v@.skip(i as int)) == Some(
                (evs(p.0@), v@.skip(p.1 as int)),
            ),
            None => parse_entries(v@.skip(i as int)) is None,
        },
{
    let j = p_ws(v, i);
    if j < v.len() && v[j] == '[' {
        assert(v@.skip(j as int)[0] == '[');
        assert(v@.skip(j as int).skip(1) =~= v@.skip(j as int + 1));
        let k = p_ws(v, j + 1);
        if k < v.len() && v[k] == ']' {
            assert(v@.skip(k as int)[0] == ']');
            assert(v@.skip(k as int).skip(1) =~= v@.skip(k as int + 1));
            let out: Vec<MarketplaceEntry> = Vec::new();
            proof {
                assert(evs(out@) =~= Seq::<EntryView>::empty());
            }
            Some((out, k + 1))
        } else {
            if k < v.len() {
                assert(v@.skip(k as int)[0] == v@[k as int]);
            }
            let acc: Vec<MarketplaceEntry> = Vec::new();
            proof {
                assert(evs(acc@) =~= Seq::<EntryView>::empty());
            }
            p_entry_items(v, j + 1, acc, v.len() - j)
        }
    } else {
        if j < v.len() {
            assert(v@.skip(j as int)[0] == v@[j as int]);
        }
        None
    }
}

/// Executable accumulator for the owner object.
struct OwnerAccE {
    name: Option<String>,
}

impl View for OwnerAccE {
    type V = OwnerAcc;

    closed spec fn view(&self) -> OwnerAcc {
        OwnerAcc { name: opt_view(self.name) }
    }
}

/// Applies one owner field, matching `owner_val`.
fn p_owner_val(v: &Vec<char>, i: usize, fname: &String, acc: OwnerAccE) -> (r: Option<
    (OwnerAccE, usize),
>)
    requires
        i <= v@.len(),
    ensures
        match r {
            Some(p) => p.1 <= v@.len() && owner_val(fname@, v@.skip(i as int), acc@) == Some(
                (p.0@, v@.skip(p.1 as int)),
            ),
            None => owner_val(fname@, v@.skip(i as int), acc@) is None,
        },
{
    if str_is(fname, "name") {
        match p_string(v, i) {
            Some(p) => Some((OwnerAccE { name: Some(p.0) }, p.1)),
            None => None,
        }
    } else {
        match p_skip_value(v, i) {
            Some(j) => Some((acc, j)),
            None => None,
        }
    }
}

/// Reads owner fields, matching `owner_fields`.
fn p_owner_fields(v: &Vec<char>, i: usize, acc: OwnerAccE, fuel: usize) -> (r: Option<
    (OwnerAccE, usize),
>)
    requires
        i <= v@.len(),
    ensures
        match r {
            Some(p) => p.1 <= v@.len() && owner_fields(v@.skip(i as int), acc@, fuel as nat)
                == Some((p.0@, v@.skip(p.1 as int))),
            None => owner_fields(v@.skip(i as int), acc@, fuel as nat) is None,
        },
    decreases fuel,
{
    if fuel == 0 {
        return None;
    }
    match p_string(v, i) {
        None => None,
        Some((fname, j1)) => {
            let j2 = p_ws(v, j1);
            if j2 == v.len() {
                return None;
            }
            let c = v[j2];
            assert(v@.skip(j2 as int)[0] == c);
            if c != ':' {
                return None;
            }
            assert(v@.skip(j2 as int).skip(1) =~= v@.skip(j2 as int + 1));
            match p_owner_val(v, j2 + 1, &fname, acc) {
                None => None,
                Some((acc2, j4)) => {
                    let j5 = p_ws(v, j4);
                    if j5 == v.len() {
                        return None;
                    }
                    let c5 = v[j5];
                    assert(v@.skip(j5 as int)[0] == c5);
                    assert(v@.skip(j5 as int).skip(1) =~= v@.skip(j5 as int + 1));
                    if c5 == ',' {
                        p_owner_fields(v, j5 + 1, acc2, fuel - 1)
                    } else if c5 == '}' {
                        Some((acc2, j5 + 1))
                    } else {
                        None
                    }
                },
            }
        },
    }
}

/// Parses the owner object, matching `parse_owner`.
fn p_owner(v: &Vec<char>, i: usize) -> (r: Option<(String, usize)>)
    requires
        i <= v@.len(),
    ensures
        match r {
            Some(p) => p.1 <= v@.len() && parse_owner(v@.skip(i as int)) == Some(
                (p.0@, v@.skip(p.1 as int)),
            ),
            None => parse_owner(v@.skip(i as int)) is None,
        },
{
    let j = p_ws(v, i);
    if j == v.len() {
        return None;
    }
    let c = v[j];
    assert(v@.skip(j as int)[0] == c);
    if c != '{' {
        return None;
    }
    assert(v@.skip(j as int).skip(1) =~= v@.skip(j as int + 1));
    let acc = OwnerAccE { name: None };
    assert(acc@ =~= OwnerAcc { name: None });
    match p_owner_fields(v, j + 1, acc, v.len() - j) {
        None => None,
        Some((acc2, j2)) => match acc2.name {
            Some(n) => Some((n, j2)),
            None => None,
        },
    }
}

} // verus!

verus! {

/// Executable accumulator for a plugin manifest object.
struct ManifestAccE {
    name: Option<String>,
    description: Option<String>,
    version: Option<String>,
    author: Option<Author>,
    homepage: Option<String>,
    keywords: Option<Vec<String>>,
    commands: Option<String>,
    agents: Option<String>,
    skills: Option<String>,
    hooks: Option<String>,
}

impl View for ManifestAccE {
    type V = ManifestAcc;

    closed spec fn view(&self) -> ManifestAcc {
        ManifestAcc {
            name: opt_view(self.name),
            description: opt_view(self.description),
            version: opt_view(self.version),
            author: match self.author {
                Some(a) => Some(a@),
                None => None,
            },
            homepage: opt_view(self.homepage),
            keywords: match self.keywords {
                Some(ks) => Some(ks.deep_view()),
                None => None,
            },
            commands: opt_view(self.commands),
            agents: opt_view(self.agents),
            skills: opt_view(self.skills),
            hooks: opt_view(self.hooks),
        }
    }
}

/// Applies one manifest field, matching `manifest_val`.
fn p_manifest_val(v: &Vec<char>, i: usize, fname: &String, acc: ManifestAccE) -> (r: Option<
    (ManifestAccE, usize),
>)
    requires
        i <= v@.len(),
    ensures
        match r {
            Some(p) => p.1 <= v@.len() && manifest_val(fname@, v@.skip(i as int), acc@) == Some(
                (p.0@, v@.skip(p.1 as int)),
            ),
            None => manifest_val(fname@, v@.skip(i as int), acc@) is None,
        },
{
    if str_is(fname, "name") {
        match p_string(v, i) {
            Some(p) => Some((ManifestAccE { name: Some(p.0), ..acc }, p.1)),
            None => None,
        }
    } else if str_is(fname, "description") {
        match p_string(v, i) {
            Some(p) => Some((ManifestAccE { description: Some(p.0), ..acc }, p.1)),
            None => None,
        }
    } else if str_is(fname, "version") {
        match p_string(v, i) {
            Some(p) => Some((ManifestAccE { version: Some(p.0), ..acc }, p.1)),
            None => None,
        }
    } else if str_is(fname, "author") {
        match p_author(v, i) {
            Some(p) => Some((ManifestAccE { author: Some(p.0), ..acc }, p.1)),
            None => None,
        }
    } else if str_is(fname, "homepage") {
        match p_opt_string(v, i) {
            Some(p) => Some((ManifestAccE { homepage: p.0, ..acc }, p.1)),
            None => None,
        }
    } else if str_is(fname, "keywords") {
        match p_keywords(v, i) {
            Some(p) => Some((ManifestAccE { keywords: p.0, ..acc }, p.1)),
            None => None,
        }
    } else if str_is(fname, "commands") {
        match p_opt_string(v, i) {
            Some(p) => Some((ManifestAccE { commands: p.0, ..acc }, p.1)),
            None => None,
        }
    } else if str_is(fname, "agents") {
        match p_opt_string(v, i) {
            Some(p) => Some((ManifestAccE { agents: p.0, ..acc }, p.1)),
            None => None,
        }
    } else if str_is(fname, "skills") {
        match p_opt_string(v, i) {
            Some(p) => Some((ManifestAccE { skills: p.0, ..acc }, p.1)),
            None => None,
        }
    } else if str_is(fname, "hooks") {
        match p_opt_string(v, i) {
            Some(p) => Some((ManifestAccE { hooks: p.0, ..acc }, p.1)),
            None => None,
        }
    } else {
        match p_skip_value(v, i) {
            Some(j) => Some((acc, j)),
            None => None,
        }
    }
}

/// Reads manifest fields, matching `manifest_fields`.
fn p_manifest_fields(v: &Vec<char>, i: usize, acc: ManifestAccE, fuel: usize) -> (r: Option<
    (ManifestAccE, usize),
>)
    requires
        i <= v@.len(),
    ensures
        match r {
            Some(p) => p.1 <= v@.len() && manifest_fields(v@.skip(i as int), acc@, fuel as nat)
                == Some((p.0@, v@.skip(p.1 as int))),
            None => manifest_fields(v@.skip(i as int), acc@, fuel as nat) is None,
        },
    decreases fuel,
{
    if fuel == 0 {
        return None;
    }
    match p_string(v, i) {
        None => None,
        Some((fname, j1)) => {
            let j2 = p_ws(v, j1);
            if j2 == v.len() {
                return None;
            }
            let c = v[j2];
            assert(v@.skip(j2 as int)[0] == c);
            if c != ':' {
                return None;
            }
            assert(v@.skip(j2 as int).skip(1) =~= v@.skip(j2 as int + 1));
            match p_manifest_val(v, j2 + 1, &fname, acc) {
                None => None,
                Some((acc2, j4)) => {
                    let j5 = p_ws(v, j4);
                    if j5 == v.len() {
                        return None;
                    }
                    let c5 = v[j5];
                    assert(v@.skip(j5 as int)[0] == c5);
                    assert(v@.skip(j5 as int).skip(1) =~= v@.skip(j5 as int + 1));
                    if c5 == ',' {
                        p_manifest_fields(v, j5 + 1, acc2, fuel - 1)
                    } else if c5 == '}' {
                        Some((acc2, j5 + 1))
                    } else {
                        None
                    }
                },
            }
        },
    }
}

/// Executable accumulator for the marketplace object.
struct MarketAccE {
    name: Option<String>,
    owner_name: Option<String>,
    plugins: Option<Vec<MarketplaceEntry>>,
}

impl View for MarketAccE {
    type V = MarketAcc;

    closed spec fn view(&self) -> MarketAcc {
        MarketAcc {
            name: opt_view(self.name),
            owner_name: opt_view(self.owner_name),
            plugins: match self.plugins {
                Some(ps) => Some(evs(ps@)),
                None => None,
            },
        }
    }
}

/// Applies one marketplace field, matching `market_val`.
fn p_market_val(v: &Vec<char>, i: usize, fname: &String, acc: MarketAccE) -> (r: Option<
    (MarketAccE, usize),
>)
    requires
        i <= v@.len(),
    ensures
        match r {
            Some(p) => p.1 <= v@.len() && market_val(fname@, v@.skip(i as int), acc@) == Some(
                (p.0@, v@.skip(p.1 as int)),
            ),
            None => market_val(fname@, v@.skip(i as int), acc@) is None,
        },
{
    if str_is(fname, "name") {
        match p_string(v, i) {
            Some(p) => Some((MarketAccE { name: Some(p.0), ..acc }, p.1)),
            None => None,
        }
    } else if str_is(fname, "owner") {
        match p_owner(v, i) {
            Some(p) => Some((MarketAccE { owner_name: Some(p.0), ..acc }, p.1)),
            None => None,
        }
    } else if str_is(fname, "plugins") {
        match p_entries(v, i) {
            Some(p) => Some((MarketAccE { plugins: Some(p.0), ..acc }, p.1)),
            None => None,
        }
    } else {
        match p_skip_value(v, i) {
            Some(j) => Some((acc, j)),
            None => None,
        }
    }
}

/// Reads marketplace fields, matching `market_fields`.
fn p_market_fields(v: &Vec<char>, i: usize, acc: MarketAccE, fuel: usize) -> (r: Option<
    (MarketAccE, usize),
>)
    requires
        i <= v@.len(),
    ensures
        match r {
            Some(p) => p.1 <= v@.len() && market_fields(v@.skip(i as int), acc@, fuel as nat)
                == Some((p.0@, v@.skip(p.1 as int))),
            None => market_fields(v@.skip(i as int), acc@, fuel as nat) is None,
        },
    decreases fuel,
{
    if fuel == 0 {
        return None;
    }
    match p_string(v, i) {
        None => None,
        Some((fname, j1)) => {
            let j2 = p_ws(v, j1);
            if j2 == v.len() {
                return None;
            }
            let c = v[j2];
            assert(v@.skip(j2 as int)[0] == c);
            if c != ':' {
                return None;
            }
            assert(v@.skip(j2 as int).skip(1) =~= v@.skip(j2 as int + 1));
            match p_market_val(v, j2 + 1, &fname, acc) {
                None => None,
                Some((acc2, j4)) => {
                    let j5 = p_ws(v, j4);
                    if j5 == v.len() {
                        return None;
                    }
                    let c5 = v[j5];
                    assert(v@.skip(j5 as int)[0] == c5);
                    assert(v@.skip(j5 as int).skip(1) =~= v@.skip(j5 as int + 1));
                    if c5 == ',' {
                        p_market_fields(v, j5 + 1, acc2, fuel - 1)
                    } else if c5 == '}' {
                        Some((acc2, j5 + 1))
                    } else {
                        None
                    }
                },
            }
        },
    }
}

/// Decodes a plugin manifest document; the result is exactly
/// `spec_decode_manifest` of the input.
pub fn decode_manifest(s: &str) -> (r: Result<PluginManifest, DecodeError>)
    ensures
        match r {
            Ok(m) => spec_decode_manifest(s@) == Ok::<ManifestView, DecodeError>(m@),
            Err(e) => spec_decode_manifest(s@) == Err::<ManifestView, DecodeError>(e),
        },
{
    let v = to_chars(s);
    assert(v@.skip(0) =~= v@);
    let j = p_ws(&v, 0);
    if j == v.len() {
        return Err(DecodeError::Empty);
    }
    let c = v[j];
    assert(v@.skip(j as int)[0] == c);
    if c != '{' {
        return Err(DecodeError::Malformed);
    }
    assert(v@.skip(j as int).skip(1) =~= v@.skip(j as int + 1));
    let acc = ManifestAccE {
        name: None,
        description: None,
        version: None,
        author: None,
        homepage: None,
        keywords: None,
        commands: None,
        agents: None,
        skills: None,
        hooks: None,
    };
    assert(acc@ =~= manifest_acc0());
    match p_manifest_fields(&v, j + 1, acc, v.len() - j) {
        None => Err(DecodeError::Malformed),
        Some((acc2, j2)) => {
            let j3 = p_ws(&v, j2);
            if j3 != v.len() {
                return Err(DecodeError::Malformed);
            }
            let ManifestAccE {
                name,
                description,
                version,
                author,
                homepage,
                keywords,
                commands,
                agents,
                skills,
                hooks,
            } = acc2;
            match (name, description, version, author) {
                (Some(n), Some(d), Some(ver), Some(a)) => {
                    let m = PluginManifest {
                        name: n,
                        description: d,
                        version: ver,
                        author: a,
                        homepage,
                        keywords,
                        commands,
                        agents,
                        skills,
                        hooks,
                    };
                    assert(Some(m@) =~= manifest_fin(acc2@));
                    Ok(m)
                },
                _ => Err(DecodeError::Malformed),
            }
        },
    }
}

/// Decodes a marketplace index document; the result is exactly
/// `spec_decode_marketplace` of the input.
pub fn decode_marketplace(s: &str) -> (r: Result<Marketplace, DecodeError>)
    ensures
        match r {
            Ok(m) => spec_decode_marketplace(s@) == Ok::<MarketplaceView, DecodeError>(m@),
            Err(e) => spec_decode_marketplace(s@) == Err::<MarketplaceView, DecodeError>(e),
        },
{
    let v = to_chars(s);
    assert(v@.skip(0) =~= v@);
    let j = p_ws(&v, 0);
    if j == v.len() {
        return Err(DecodeError::Empty);
    }
    let c = v[j];
    assert(v@.skip(j as int)[0] == c);
    if c != '{' {
        return Err(DecodeError::Malformed);
    }
    assert(v@.skip(j as int).skip(1) =~= v@.skip(j as int + 1));
    let acc = MarketAccE { name: None, owner_name: None, plugins: None };
    assert(acc@ =~= market_acc0());
    match p_market_fields(&v, j + 1, acc, v.len() - j) {
        None => Err(DecodeError::Malformed),
        Some((acc2, j2)) => {
            let j3 = p_ws(&v, j2);
            if j3 != v.len() {
                return Err(DecodeError::Malformed);
            }
            let MarketAccE { name, owner_name, plugins } = acc2;
            match (name, owner_name, plugins) {
                (Some(n), Some(o), Some(ps)) => {
                    let m = Marketplace { name: n, owner: Owner { name: o }, plugins: ps };
                    assert(m@.plugins =~= evs(m.plugins@));
                    assert(Some(m@) =~= market_fin(acc2@));
                    Ok(m)
                },
                _ => Err(DecodeError::Malformed),
            }
        },
    }
}

} // verus!

verus! {

/// Appends the `null` literal.
fn push_null(out: &mut String)
    ensures
        final(out)@ == old(out)@ + lit_null(),
{
    push_char(out, 'n');
    push_char(out, 'u');
    push_char(out, 'l');
    push_char(out, 'l');
    assert(final(out)@ =~= old(out)@ + lit_null());
}

/// Appends `", "`.
fn push_comma_sp(out: &mut String)
    ensures
        final(out)@ == old(out)@ + seq![',', ' '],
{
    push_char(out, ',');
    push_char(out, ' ');
    assert(final(out)@ =~= old(out)@ + seq![',', ' ']);
}

/// Appends `": "`.
fn push_colon_sp(out: &mut String)
    ensures
        final(out)@ == old(out)@ + seq![':', ' '],
{
    push_char(out, ':');
    push_char(out, ' ');
    assert(final(out)@ =~= old(out)@ + seq![':', ' ']);
}

/// Appends the top-level member separator.
fn push_fsep(out: &mut String)
    ensures
        final(out)@ == old(out)@ + fsep(),
{
    push_char(out, ',');
    push_char(out, '\n');
    push_char(out, ' ');
    push_char(out, ' ');
    assert(final(out)@ =~= old(out)@ + fsep());
}

/// Appends the plugins-array entry separator.
fn push_esep(out: &mut String)
    ensures
        final(out)@ == old(out)@ + esep(),
{
    push_char(out, ',');
    push_char(out, '\n');
    push_char(out, ' ');
    push_char(out, ' ');
    push_char(out, ' ');
    push_char(out, ' ');
    assert(final(out)@ =~= old(out)@ + esep());
}

/// Appends a string value or `null`.
fn push_opt_quoted(out: &mut String, o: &Option<String>)
    ensures
        final(out)@ == old(out)@ + enc_opt_string(opt_view(*o)),
{
    match o {
        Some(s) => push_quoted(out, s.as_str()),
        None => push_null(out),
    }
}

/// Appends the inline author object.
fn push_author(out: &mut String, a: &Author)
    ensures
        final(out)@ == old(out)@ + enc_author(a@),
{
    push_char(out, '{');
    push_quoted(out, "name");
    push_colon_sp(out);
    push_quoted(out, a.name.as_str());
    push_comma_sp(out);
    push_quoted(out, "email");
    push_colon_sp(out);
    push_opt_quoted(out, &a.email);
    push_comma_sp(out);
    push_quoted(out, "url");
    push_colon_sp(out);
    push_opt_quoted(out, &a.url);
    push_char(out, '}');
    assert(final(out)@ =~= old(out)@ + enc_author(a@));
}

/// Appends the comma-separated elements of a keyword list, from `i` on.
fn push_str_items_from(out: &mut String, xs: &Vec<String>, i: usize)
    requires
        i <= xs@.len(),
    ensures
        final(out)@ == old(out)@ + enc_str_items(xs.deep_view().skip(i as int)),
    decreases xs@.len() - i,
{
    if i == xs.len() {
        assert(xs.deep_view().skip(i as int) =~= Seq::<Seq<char>>::empty());
        assert(enc_str_items(Seq::<Seq<char>>::empty()) == Seq::<char>::empty());
        assert(final(out)@ =~= old(out)@ + Seq::<char>::empty());
    } else {
        assert(xs.deep_view().skip(i as int)[0] == xs@[i as int]@);
        push_quoted(out, xs[i].as_str());
        if i + 1 == xs.len() {
            assert(xs.deep_view().skip(i as int).len() == 1);
            assert(final(out)@ =~= old(out)@ + enc_str_items(xs.deep_view().skip(i as int)));
        } else {
            push_comma_sp(out);
            let ghost mid = out@;
            push_str_items_from(out, xs, i + 1);
            proof {
                assert(xs.deep_view().skip(i as int).skip(1) =~= xs.deep_view().skip(i as int + 1));
                assert(final(out)@ =~= old(out)@ + enc_str_items(xs.deep_view().skip(i as int)));
            }
        }
    }
}

/// Appends a keyword list value or `null`.
fn push_keywords(out: &mut String, o: &Option<Vec<String>>)
    ensures
        final(out)@ == old(out)@ + enc_keywords(
            match *o {
                Some(ks) => Some(ks.deep_view()),
                None => None,
            },
        ),
{
    match o {
        Some(ks) => {
            push_char(out, '[');
            push_str_items_from(out, ks, 0);
            push_char(out, ']');
            assert(ks.deep_view().skip(0) =~= ks.deep_view());
            assert(final(out)@ =~= old(out)@ + enc_keywords(Some(ks.deep_view())));
        },
        None => push_null(out),
    }
}

/// Encodes a plugin manifest as its canonical document; the result is
/// exactly `enc_manifest` of the manifest's view.
#[verifier::rlimit(80)]
pub fn encode_manifest(m: &PluginManifest) -> (r: String)
    ensures
        r@ == enc_manifest(m@),
{
    let mut out = String::new();
    push_char(&mut out, '{');
    push_char(&mut out, '\n');
    push_char(&mut out, ' ');
    push_char(&mut out, ' ');
    let ghost mut want: Seq<char> = seq!['{', '\n', ' ', ' '];
    assert(out@ =~= want);
    push_quoted(&mut out, "name");
    push_colon_sp(&mut out);
    push_quoted(&mut out, m.name.as_str());
    proof {
        want = want + enc_field("name"@, enc_string(m@.name));
    }
    assert(out@ =~= want);
    push_fsep(&mut out);
    proof {
        want = want + fsep();
    }
    push_quoted(&mut out, "description");
    push_colon_sp(&mut out);
    push_quoted(&mut out, m.description.as_str());
    proof {
        want = want + enc_field("description"@, enc_string(m@.description));
    }
    assert(out@ =~= want);
    push_fsep(&mut out);
    proof {
        want = want + fsep();
    }
    push_quoted(&mut out, "version");
    push_colon_sp(&mut out);
    push_quoted(&mut out, m.version.as_str());
    proof {
        want = want + enc_field("version"@, enc_string(m@.version));
    }
    assert(out@ =~= want);
    push_fsep(&mut out);
    proof {
        want = want + fsep();
    }
    push_quoted(&mut out, "author");
    push_colon_sp(&mut out);
    push_author(&mut out, &m.author);
    proof {
        want = want + enc_field("author"@, enc_author(m@.author));
    }
    assert(out@ =~= want);
    push_fsep(&mut out);
    proof {
        want = want + fsep();
    }
    push_quoted(&mut out, "homepage");
    push_colon_sp(&mut out);
    push_opt_quoted(&mut out, &m.homepage);
    proof {
        want = want + enc_field("homepage"@, enc_opt_string(m@.homepage));
    }
    assert(out@ =~= want);
    push_fsep(&mut out);
    proof {
        want = want + fsep();
    }
    push_quoted(&mut out, "keywords");
    push_colon_sp(&mut out);
    push_keywords(&mut out, &m.keywords);
    proof {
        want = want + enc_field("keywords"@, enc_keywords(m@.keywords));
    }
    assert(out@ =~= want);
    push_fsep(&mut out);
    proof {
        want = want + fsep();
    }
    push_quoted(&mut out, "commands");
    push_colon_sp(&mut out);
    push_opt_quoted(&mut out, &m.commands);
    proof {
        want = want + enc_field("commands"@, enc_opt_string(m@.commands));
    }
    assert(out@ =~= want);
    push_fsep(&mut out);
    proof {
        want = want + fsep();
    }
    push_quoted(&mut out, "agents");
    push_colon_sp(&mut out);
    push_opt_quoted(&mut out, &m.agents);
    proof {
        want = want + enc_field("agents"@, enc_opt_string(m@.agents));
    }
    assert(out@ =~= want);
    push_fsep(&mut out);
    proof {
        want = want + fsep();
    }
    push_quoted(&mut out, "skills");
    push_colon_sp(&mut out);
    push_opt_quoted(&mut out, &m.skills);
    proof {
        want = want + enc_field("skills"@, enc_opt_string(m@.skills));
    }
    assert(out@ =~= want);
    push_fsep(&mut out);
    proof {
        want = want + fsep();
    }
    push_quoted(&mut out, "hooks");
    push_colon_sp(&mut out);
    push_opt_quoted(&mut out, &m.hooks);
    proof {
        want = want + enc_field("hooks"@, enc_opt_string(m@.hooks));
    }
    assert(out@ =~= want);
    push_char(&mut out, '\n');
    push_char(&mut out, '}');
    proof {
        want = want + seq!['\n', '}'];
    }
    assert(out@ =~= want);
    assert(want =~= enc_manifest(m@));
    out
}

/// Appends one inline marketplace entry object.
fn push_entry(out: &mut String, e: &MarketplaceEntry)
    ensures
        final(out)@ == old(out)@ + enc_entry(e@),
{
    push_char(out, '{');
    push_quoted(out, "name");
    push_colon_sp(out);
    push_quoted(out, e.name.as_str());
    push_comma_sp(out);
    push_quoted(out, "source");
    push_colon_sp(out);
    push_quoted(out, e.source.as_str());
    push_comma_sp(out);
    push_quoted(out, "description");
    push_colon_sp(out);
    push_opt_quoted(out, &e.description);
    push_char(out, '}');
    assert(final(out)@ =~= old(out)@ + enc_entry(e@));
}

/// Appends the separated elements of the plugins array, from `i` on.
fn push_entry_items_from(out: &mut String, xs: &Vec<MarketplaceEntry>, i: usize)
    requires
        i <= xs@.len(),
    ensures
        final(out)@ == old(out)@ + enc_entry_items(evs(xs@).skip(i as int)),
    decreases xs@.len() - i,
{
    if i == xs.len() {
        assert(evs(xs@).skip(i as int) =~= Seq::<EntryView>::empty());
        assert(enc_entry_items(Seq::<EntryView>::empty()) == Seq::<char>::empty());
        assert(final(out)@ =~= old(out)@ + Seq::<char>::empty());
    } else {
        assert(evs(xs@).skip(i as int)[0] == xs@[i as int]@);
        push_entry(out, &xs[i]);
        if i + 1 == xs.len() {
            assert(evs(xs@).skip(i as int).len() == 1);
            assert(final(out)@ =~= old(out)@ + enc_entry_items(evs(xs@).skip(i as int)));
        } else {
            push_esep(out);
            push_entry_items_from(out, xs, i + 1);
            proof {
                assert(evs(xs@).skip(i as int).skip(1) =~= evs(xs@).skip(i as int + 1));
                assert(final(out)@ =~= old(out)@ + enc_entry_items(evs(xs@).skip(i as int)));
            }
        }
    }
}

/// Appends the plugins array value.
fn push_plugins(out: &mut String, xs: &Vec<MarketplaceEntry>)
    ensures
        final(out)@ == old(out)@ + enc_plugins(evs(xs@)),
{
    if xs.len() == 0 {
        push_char(out, '[');
        push_char(out, ']');
        assert(final(out)@ =~= old(out)@ + enc_plugins(evs(xs@)));
    } else {
        push_char(out, '[');
        push_char(out, '\n');
        push_char(out, ' ');
        push_char(out, ' ');
        push_char(out, ' ');
        push_char(out, ' ');
        push_entry_items_from(out, xs, 0);
        push_char(out, '\n');
        push_char(out, ' ');
        push_char(out, ' ');
        push_char(out, ']');
        assert(evs(xs@).skip(0) =~= evs(xs@));
        assert(final(out)@ =~= old(out)@ + enc_plugins(evs(xs@)));
    }
}

/// Encodes a marketplace index as its canonical document; the result is
/// exactly `enc_marketplace` of the marketplace's view.
pub fn encode_marketplace(m: &Marketplace) -> (r: String)
    ensures
        r@ == enc_marketplace(m@),
{
    let mut out = String::new();
    push_char(&mut out, '{');
    push_char(&mut out, '\n');
    push_char(&mut out, ' ');
    push_char(&mut out, ' ');
    push_quoted(&mut out, "name");
    push_colon_sp(&mut out);
    push_quoted(&mut out, m.name.as_str());
    push_fsep(&mut out);
    push_quoted(&mut out, "owner");
    push_colon_sp(&mut out);
    push_char(&mut out, '{');
    push_quoted(&mut out, "name");
    push_colon_sp(&mut out);
    push_quoted(&mut out, m.owner.name.as_str());
    push_char(&mut out, '}');
    push_fsep(&mut out);
    push_quoted(&mut out, "plugins");
    push_colon_sp(&mut out);
    push_plugins(&mut out, &m.plugins);
    push_char(&mut out, '\n');
    push_char(&mut out, '}');
    assert(m@.plugins =~= evs(m.plugins@));
    assert(out@ =~= enc_marketplace(m@));
    out
}

} // verus!

verus! {

/// Every character whitespace.
pub open spec fn all_ws(s: Seq<char>) -> bool {
    forall|i: int| 0 <= i < s.len() ==> is_ws(#[trigger] s[i])
}

proof fn lemma_skip_ws_pre(a: Seq<char>, b: Seq<char>)
    requires
        all_ws(a),
    ensures
        skip_ws(a + b) == skip_ws(b),
    decreases a.len(),
{
    if a.len() == 0 {
        assert(a + b =~= b);
    } else {
        assert((a + b)[0] == a[0]);
        assert((a + b).skip(1) =~= a.skip(1) + b);
        assert(all_ws(a.skip(1)));
        lemma_skip_ws_pre(a.skip(1), b);
    }
}

proof fn lemma_hex_rt(d: nat)
    requires
        d < 16,
    ensures
        hex_val(hex_char(d)) == Some(d),
{
    if d < 10 {
        assert((((48 + d) as u8) as char) as u32 == 48 + d);
    } else {
        assert((((87 + d) as u8) as char) as u32 == 87 + d);
    }
}

#[verifier::rlimit(100)]
#[verifier::spinoff_prover]
proof fn lemma_esc_rt(s: Seq<char>, rest: Seq<char>)
    ensures
        parse_str_body(esc_seq(s) + seq!['"'] + rest) == Some::<(Seq<char>, Seq<char>)>((s, rest)),
    decreases s.len(),
{
    let x = esc_seq(s) + seq!['"'] + rest;
    if s.len() == 0 {
        assert(x =~= seq!['"'] + rest);
        assert(x[0] == '"');
        assert(x.skip(1) =~= rest);
        assert(s =~= Seq::<char>::empty());
    } else {
        let c = s[0];
        let s2 = s.skip(1);
        let y = esc_seq(s2) + seq!['"'] + rest;
        lemma_esc_rt(s2, rest);
        assert(esc_seq(s) == esc_char(c) + esc_seq(s2));
        assert(x =~= esc_char(c) + y);
        assert(seq![c] + s2 =~= s);
        if c == '"' {
            assert(x[0] == '\\');
            assert(x[1] == '"');
            assert(x.skip(2) =~= y);
            assert(parse_str_body(x) == psb_cons(c, parse_str_body(y)));
        } else if c == '\\' {
            assert(x[0] == '\\');
            assert(x[1] == '\\');
            assert(x.skip(2) =~= y);
            assert(parse_str_body(x) == psb_cons(c, parse_str_body(y)));
        } else if c == '\n' {
            assert(x[0] == '\\');
            assert(x[1] == 'n');
            assert(x.skip(2) =~= y);
            assert(unesc_char('n') == Some('\n'));
            assert(parse_str_body(x) == psb_cons(c, parse_str_body(y)));
        } else if c == '\r' {
            assert(x[0] == '\\');
            assert(x[1] == 'r');
            assert(x.skip(2) =~= y);
            assert(parse_str_body(x) == psb_cons(c, parse_str_body(y)));
        } else if c == '\t' {
            assert(x[0] == '\\');
            assert(x[1] == 't');
            assert(x.skip(2) =~= y);
            assert(parse_str_body(x) == psb_cons(c, parse_str_body(y)));
        } else if (c as u32) < 32 {
            let code = (c as u32) as int;
            let hi = code / 16;
            let lo = code % 16;
            assert(x[0] == '\\');
            assert(x[1] == 'u');
            assert(x[2] == '0');
            assert(x[3] == '0');
            assert(x[4] == hex_char(hi as nat));
            assert(x[5] == hex_char(lo as nat));
            assert(x.len() >= 6);
            assert(hex_val('0') == Some(0nat));
            assert(0 <= code < 32);
            assert(0 <= hi < 2) by (nonlinear_arith)
                requires 0 <= code < 32 && hi == code / 16;
            assert(0 <= lo < 16) by (nonlinear_arith)
                requires 0 <= code && lo == code % 16;
            lemma_hex_rt(hi as nat);
            lemma_hex_rt(lo as nat);
            assert(hi * 16 + lo == code) by (nonlinear_arith)
                requires hi == code / 16 && lo == code % 16;
            assert(0 * 4096 + 0 * 256 + hi * 16 + lo == code);
            assert(((code as u32) as int) == code);
            assert(code as u32 == c as u32);
            vstd::utf8::char_u32_cast(c, code as u32);
            assert((code as u32) as char == c);
            assert(x.skip(6) =~= y);
            assert(parse_str_body(x) == psb_cons(c, parse_str_body(y)));
        } else {
            assert(x[0] == c);
            assert(x.skip(1) =~= y);
            assert(parse_str_body(x) == psb_cons(c, parse_str_body(y)));
        }
        assert(parse_str_body(x) == Some::<(Seq<char>, Seq<char>)>((s, rest)));
    }
}

proof fn lemma_qstring(pre: Seq<char>, s: Seq<char>, rest: Seq<char>)
    requires
        all_ws(pre),
    ensures
        parse_string(pre + (enc_string(s) + rest)) == Some::<(Seq<char>, Seq<char>)>((s, rest)),
{
    let body = enc_string(s) + rest;
    lemma_skip_ws_pre(pre, body);
    assert(body[0] == '"');
    assert(!is_ws('"'));
    assert(skip_ws(body) == body);
    assert(body.skip(1) =~= esc_seq(s) + seq!['"'] + rest);
    lemma_esc_rt(s, rest);
}

proof fn lemma_null_parse(pre: Seq<char>, rest: Seq<char>)
    requires
        all_ws(pre),
    ensures
        skip_ws(pre + (lit_null() + rest)) == lit_null() + rest,
        starts_null(lit_null() + rest),
        (lit_null() + rest).skip(4) == rest,
        (lit_null() + rest)[0] == 'n',
{
    let t = lit_null() + rest;
    lemma_skip_ws_pre(pre, t);
    assert(t[0] == 'n');
    assert(!is_ws('n'));
    assert(skip_ws(t) == t);
    assert(t[1] == 'u');
    assert(t[2] == 'l');
    assert(t[3] == 'l');
    assert(t.skip(4) =~= rest);
}

proof fn lemma_opt_string(pre: Seq<char>, o: Option<Seq<char>>, rest: Seq<char>)
    requires
        all_ws(pre),
    ensures
        parse_opt_string(pre + (enc_opt_string(o) + rest)) == Some::<
            (Option<Seq<char>>, Seq<char>),
        >((o, rest)),
{
    match o {
        Some(s) => {
            let body = enc_string(s) + rest;
            assert(pre + (enc_opt_string(o) + rest) =~= pre + body);
            lemma_skip_ws_pre(pre, body);
            assert(body[0] == '"');
            assert(!is_ws('"'));
            assert(skip_ws(body) == body);
            assert(body.skip(1) =~= esc_seq(s) + seq!['"'] + rest);
            lemma_esc_rt(s, rest);
        },
        None => {
            assert(pre + (enc_opt_string(o) + rest) =~= pre + (lit_null() + rest));
            lemma_null_parse(pre, rest);
            assert((lit_null() + rest)[0] != '"');
        },
    }
}

proof fn lemma_str_items_rt(xs: Seq<Seq<char>>, acc: Seq<Seq<char>>, rest: Seq<char>, fuel: nat)
    requires
        xs.len() > 0,
        fuel >= xs.len(),
    ensures
        parse_str_items(enc_str_items(xs) + (seq![']'] + rest), acc, fuel) == Some::<
            (Seq<Seq<char>>, Seq<char>),
        >((acc + xs, rest)),
    decreases xs.len(),
{
    let x = enc_str_items(xs) + (seq![']'] + rest);
    if xs.len() == 1 {
        assert(x =~= Seq::<char>::empty() + (enc_string(xs[0]) + (seq![']'] + rest)));
        lemma_qstring(Seq::empty(), xs[0], seq![']'] + rest);
        let t = seq![']'] + rest;
        assert(t[0] == ']');
        assert(!is_ws(']'));
        assert(skip_ws(t) == t);
        assert(t.skip(1) =~= rest);
        assert(acc.push(xs[0]) =~= acc + xs);
    } else {
        let tail = seq![',', ' '] + (enc_str_items(xs.skip(1)) + (seq![']'] + rest));
        assert(x =~= Seq::<char>::empty() + (enc_string(xs[0]) + tail));
        lemma_qstring(Seq::empty(), xs[0], tail);
        assert(tail[0] == ',');
        assert(!is_ws(','));
        assert(skip_ws(tail) == tail);
        assert(tail.skip(1) =~= seq![' '] + (enc_str_items(xs.skip(1)) + (seq![']'] + rest)));
        assert(seq![' '] + (enc_str_items(xs.skip(1)) + (seq![']'] + rest)) =~= (seq![' ']
            + enc_str_items(xs.skip(1))) + (seq![']'] + rest));
        lemma_str_items_pre_rt(seq![' '], xs.skip(1), acc.push(xs[0]), rest, (fuel - 1) as nat);
        assert(acc.push(xs[0]) + xs.skip(1) =~= acc + xs);
    }
}

proof fn lemma_str_items_pre_rt(
    pre: Seq<char>,
    xs: Seq<Seq<char>>,
    acc: Seq<Seq<char>>,
    rest: Seq<char>,
    fuel: nat,
)
    requires
        all_ws(pre),
        xs.len() > 0,
        fuel >= xs.len(),
    ensures
        parse_str_items(pre + (enc_str_items(xs) + (seq![']'] + rest)), acc, fuel) == Some::<
            (Seq<Seq<char>>, Seq<char>),
        >((acc + xs, rest)),
    decreases xs.len(),
{
    let x = pre + (enc_str_items(xs) + (seq![']'] + rest));
    if xs.len() == 1 {
        assert(x =~= pre + (enc_string(xs[0]) + (seq![']'] + rest)));
        lemma_qstring(pre, xs[0], seq![']'] + rest);
        let t = seq![']'] + rest;
        assert(t[0] == ']');
        assert(!is_ws(']'));
        assert(skip_ws(t) == t);
        assert(t.skip(1) =~= rest);
        assert(acc.push(xs[0]) =~= acc + xs);
    } else {
        let tail = seq![',', ' '] + (enc_str_items(xs.skip(1)) + (seq![']'] + rest));
        assert(x =~= pre + (enc_string(xs[0]) + tail));
        lemma_qstring(pre, xs[0], tail);
        assert(tail[0] == ',');
        assert(!is_ws(','));
        assert(skip_ws(tail) == tail);
        assert(tail.skip(1) =~= seq![' '] + (enc_str_items(xs.skip(1)) + (seq![']'] + rest)));
        lemma_str_items_pre_rt(seq![' '], xs.skip(1), acc.push(xs[0]), rest, (fuel - 1) as nat);
        assert(acc.push(xs[0]) + xs.skip(1) =~= acc + xs);
    }
}

proof fn lemma_enc_str_items_len(xs: Seq<Seq<char>>)
    ensures
        enc_str_items(xs).len() >= xs.len(),
    decreases xs.len(),
{
    if xs.len() <= 1 {
    } else {
        lemma_enc_str_items_len(xs.skip(1));
    }
}

proof fn lemma_keywords(pre: Seq<char>, o: Option<Seq<Seq<char>>>, rest: Seq<char>)
    requires
        all_ws(pre),
    ensures
        parse_keywords(pre + (enc_keywords(o) + rest)) == Some::<
            (Option<Seq<Seq<char>>>, Seq<char>),
        >((o, rest)),
{
    let x = pre + (enc_keywords(o) + rest);
    match o {
        None => {
            assert(x =~= pre + (lit_null() + rest));
            lemma_null_parse(pre, rest);
            assert((lit_null() + rest)[0] != '[');
        },
        Some(xs) => {
            if xs.len() == 0 {
                let body = seq!['[', ']'] + rest;
                assert(x =~= pre + body);
                lemma_skip_ws_pre(pre, body);
                assert(body[0] == '[');
                assert(!is_ws('['));
                assert(skip_ws(body) == body);
                assert(body.skip(1) =~= seq![']'] + rest);
                assert((seq![']'] + rest)[0] == ']');
                assert(!is_ws(']'));
                assert(skip_ws(seq![']'] + rest) == seq![']'] + rest);
                assert((seq![']'] + rest).skip(1) =~= rest);
                assert(Seq::<Seq<char>>::empty() =~= xs);
            } else {
                let body = seq!['['] + (enc_str_items(xs) + (seq![']'] + rest));
                assert(enc_keywords(o) =~= seq!['['] + enc_str_items(xs) + seq![']']);
                assert(x =~= pre + body);
                lemma_skip_ws_pre(pre, body);
                assert(body[0] == '[');
                assert(!is_ws('['));
                assert(skip_ws(body) == body);
                assert(body.skip(1) =~= enc_str_items(xs) + (seq![']'] + rest));
                let inner = enc_str_items(xs) + (seq![']'] + rest);
                assert(inner[0] == '"');
                assert(!is_ws('"'));
                assert(skip_ws(inner) == inner);
                assert(inner[0] != ']');
                lemma_enc_str_items_len(xs);
                assert(body.len() >= xs.len());
                lemma_str_items_rt(xs, Seq::empty(), rest, body.len());
                assert(Seq::<Seq<char>>::empty() + xs =~= xs);
            }
        },
    }
}

} // verus!


verus! {

#[verifier::rlimit(100)]
#[verifier::spinoff_prover]
proof fn author_step_name(v: Seq<char>, pre: Seq<char>, nxt: Seq<char>, acc: AuthorAcc, fuel: nat)
    requires
        all_ws(pre),
        fuel > 0,
    ensures
        author_fields(pre + (enc_string("name"@) + (seq![':', ' '] + (enc_string(v) + (seq![',', ' '] + nxt)))), acc, fuel) == author_fields(seq![' '] + nxt, AuthorAcc { name: Some(v), ..acc }, (fuel - 1) as nat),
{
    reveal_strlit("name");
    reveal_strlit("email");
    reveal_strlit("url");
    let tail = seq![',', ' '] + nxt;
    let after = seq![':', ' '] + (enc_string(v) + tail);
    let x = pre + (enc_string("name"@) + after);
    lemma_qstring(pre, "name"@, after);
    assert(parse_string(x) == Some::<(Seq<char>, Seq<char>)>(("name"@, after)));
    assert(after[0] == ':');
    assert(!is_ws(':'));
    assert(skip_ws(after) == after);
    assert(after.skip(1) =~= seq![' '] + (enc_string(v) + tail));
    lemma_qstring(seq![' '], v, tail);
    assert(author_val("name"@, after.skip(1), acc) == Some::<(AuthorAcc, Seq<char>)>((AuthorAcc { name: Some(v), ..acc }, tail)));
    assert(tail[0] == ',');
    assert(!is_ws(','));
    assert(skip_ws(tail) == tail);
    assert(tail.skip(1) =~= seq![' '] + nxt);
}

#[verifier::rlimit(100)]
#[verifier::spinoff_prover]
proof fn author_step_email(v: Option<Seq<char>>, pre: Seq<char>, nxt: Seq<char>, acc: AuthorAcc, fuel: nat)
    requires
        all_ws(pre),
        fuel > 0,
    ensures
        author_fields(pre + (enc_string("email"@) + (seq![':', ' '] + (enc_opt_string(v) + (seq![',', ' '] + nxt)))), acc, fuel) == author_fields(seq![' '] + nxt, AuthorAcc { email: v, ..acc }, (fuel - 1) as nat),
{
    reveal_strlit("email");
    reveal_strlit("name");
    reveal_strlit("url");
    let tail = seq![',', ' '] + nxt;
    let after = seq![':', ' '] + (enc_opt_string(v) + tail);
    let x = pre + (enc_string("email"@) + after);
    lemma_qstring(pre, "email"@, after);
    assert(parse_string(x) == Some::<(Seq<char>, Seq<char>)>(("email"@, after)));
    assert(after[0] == ':');
    assert(!is_ws(':'));
    assert(skip_ws(after) == after);
    assert(after.skip(1) =~= seq![' '] + (enc_opt_string(v) + tail));
    lemma_opt_string(seq![' '], v, tail);
    assert(author_val("email"@, after.skip(1), acc) == Some::<(AuthorAcc, Seq<char>)>((AuthorAcc { email: v, ..acc }, tail)));
    assert(tail[0] == ',');
    assert(!is_ws(','));
    assert(skip_ws(tail) == tail);
    assert(tail.skip(1) =~= seq![' '] + nxt);
}

#[verifier::rlimit(100)]
#[verifier::spinoff_prover]
proof fn author_step_url(v: Option<Seq<char>>, pre: Seq<char>, rest: Seq<char>, acc: AuthorAcc, fuel: nat)
    requires
        all_ws(pre),
        fuel > 0,
    ensures
        author_fields(pre + (enc_string("url"@) + (seq![':', ' '] + (enc_opt_string(v) + (seq!['}'] + rest)))), acc, fuel) == Some::<(AuthorAcc, Seq<char>)>((AuthorAcc { url: v, ..acc }, rest)),
{
    reveal_strlit("url");
    reveal_strlit("name");
    reveal_strlit("email");
    let tail = seq!['}'] + rest;
    let after = seq![':', ' '] + (enc_opt_string(v) + tail);
    let x = pre + (enc_string("url"@) + after);
    lemma_qstring(pre, "url"@, after);
    assert(parse_string(x) == Some::<(Seq<char>, Seq<char>)>(("url"@, after)));
    assert(after[0] == ':');
    assert(!is_ws(':'));
    assert(skip_ws(after) == after);
    assert(after.skip(1) =~= seq![' '] + (enc_opt_string(v) + tail));
    lemma_opt_string(seq![' '], v, tail);
    assert(author_val("url"@, after.skip(1), acc) == Some::<(AuthorAcc, Seq<char>)>((AuthorAcc { url: v, ..acc }, tail)));
    assert(tail[0] == '}');
    assert(!is_ws('}'));
    assert(skip_ws(tail) == tail);
    assert(tail.skip(1) =~= rest);
}

#[verifier::rlimit(100)]
#[verifier::spinoff_prover]
proof fn lemma_author(pre: Seq<char>, a: AuthorView, rest: Seq<char>)
    requires
        all_ws(pre),
    ensures
        parse_author(pre + (enc_author(a) + rest)) == Some::<(AuthorView, Seq<char>)>((a, rest)),
{
    let body = enc_author(a) + rest;
    let x = pre + body;
    lemma_skip_ws_pre(pre, body);
    assert(body[0] == '{');
    assert(!is_ws('{'));
    assert(skip_ws(body) == body);
    assert(skip_ws(x) == body);
    let tail3 = seq!['}'] + rest;
    let nxt2 = enc_string("url"@) + (seq![':', ' '] + (enc_opt_string(a.url) + tail3));
    let tail2 = seq![',', ' '] + nxt2;
    let nxt1 = enc_string("email"@) + (seq![':', ' '] + (enc_opt_string(a.email) + tail2));
    let tail1 = seq![',', ' '] + nxt1;
    let acc0 = author_acc0();
    let acc1 = AuthorAcc { name: Some(a.name), ..acc0 };
    let acc2 = AuthorAcc { email: a.email, ..acc1 };
    let acc3 = AuthorAcc { url: a.url, ..acc2 };
    let f0 = body.len();
    assert(f0 >= 3);
    let cur1 = body.skip(1);
    author_step_name(a.name, Seq::<char>::empty(), nxt1, acc0, (f0 - 0) as nat);
    assert(cur1 =~= Seq::<char>::empty() + (enc_string("name"@) + (seq![':', ' '] + (enc_string(a.name) + tail1))));
    let cur2 = seq![' '] + nxt1;
    author_step_email(a.email, seq![' '], nxt2, acc1, (f0 - 1) as nat);
    assert(cur2 =~= seq![' '] + (enc_string("email"@) + (seq![':', ' '] + (enc_opt_string(a.email) + tail2))));
    let cur3 = seq![' '] + nxt2;
    author_step_url(a.url, seq![' '], rest, acc2, (f0 - 2) as nat);
    assert(cur3 =~= seq![' '] + (enc_string("url"@) + (seq![':', ' '] + (enc_opt_string(a.url) + tail3))));
    assert(author_fields(cur1, acc0, (f0 - 0) as nat) == author_fields(cur2, acc1, (f0 - 1) as nat));
    assert(author_fields(cur2, acc1, (f0 - 1) as nat) == author_fields(cur3, acc2, (f0 - 2) as nat));
    assert(author_fields(cur3, acc2, (f0 - 2) as nat) == Some::<(AuthorAcc, Seq<char>)>((acc3, rest)));
    assert(author_fin(acc3) == Some::<AuthorView>(AuthorView { name: a.name, email: a.email, url: a.url }));
    assert(AuthorView { name: a.name, email: a.email, url: a.url } =~= a);
}

#[verifier::rlimit(100)]
#[verifier::spinoff_prover]
proof fn owner_step_name(v: Seq<char>, pre: Seq<char>, rest: Seq<char>, acc: OwnerAcc, fuel: nat)
    requires
        all_ws(pre),
        fuel > 0,
    ensures
        owner_fields(pre + (enc_string("name"@) + (seq![':', ' '] + (enc_string(v) + (seq!['}'] + rest)))), acc, fuel) == Some::<(OwnerAcc, Seq<char>)>((OwnerAcc { name: Some(v) }, rest)),
{
    reveal_strlit("name");
    let tail = seq!['}'] + rest;
    let after = seq![':', ' '] + (enc_string(v) + tail);
    let x = pre + (enc_string("name"@) + after);
    lemma_qstring(pre, "name"@, after);
    assert(parse_string(x) == Some::<(Seq<char>, Seq<char>)>(("name"@, after)));
    assert(after[0] == ':');
    assert(!is_ws(':'));
    assert(skip_ws(after) == after);
    assert(after.skip(1) =~= seq![' '] + (enc_string(v) + tail));
    lemma_qstring(seq![' '], v, tail);
    assert(owner_val("name"@, after.skip(1), acc) == Some::<(OwnerAcc, Seq<char>)>((OwnerAcc { name: Some(v) }, tail)));
    assert(tail[0] == '}');
    assert(!is_ws('}'));
    assert(skip_ws(tail) == tail);
    assert(tail.skip(1) =~= rest);
}

#[verifier::rlimit(100)]
#[verifier::spinoff_prover]
proof fn lemma_owner(pre: Seq<char>, a: Seq<char>, rest: Seq<char>)
    requires
        all_ws(pre),
    ensures
        parse_owner(pre + (enc_owner(a) + rest)) == Some::<(Seq<char>, Seq<char>)>((a, rest)),
{
    let body = enc_owner(a) + rest;
    let x = pre + body;
    lemma_skip_ws_pre(pre, body);
    assert(body[0] == '{');
    assert(!is_ws('{'));
    assert(skip_ws(body) == body);
    assert(skip_ws(x) == body);
    let tail1 = seq!['}'] + rest;
    let acc0 = OwnerAcc { name: None };
    let acc1 = OwnerAcc { name: Some(a) };
    let f0 = body.len();
    assert(f0 >= 1);
    let cur1 = body.skip(1);
    owner_step_name(a, Seq::<char>::empty(), rest, acc0, (f0 - 0) as nat);
    assert(cur1 =~= Seq::<char>::empty() + (enc_string("name"@) + (seq![':', ' '] + (enc_string(a) + tail1))));
    assert(owner_fields(cur1, acc0, (f0 - 0) as nat) == Some::<(OwnerAcc, Seq<char>)>((acc1, rest)));
}

#[verifier::rlimit(100)]
#[verifier::spinoff_prover]
proof fn entry_step_name(v: Seq<char>, pre: Seq<char>, nxt: Seq<char>, acc: EntryAcc, fuel: nat)
    requires
        all_ws(pre),
        fuel > 0,
    ensures
        entry_fields(pre + (enc_string("name"@) + (seq![':', ' '] + (enc_string(v) + (seq![',', ' '] + nxt)))), acc, fuel) == entry_fields(seq![' '] + nxt, EntryAcc { name: Some(v), ..acc }, (fuel - 1) as nat),
{
    reveal_strlit("name");
    reveal_strlit("source");
    reveal_strlit("description");
    let tail = seq![',', ' '] + nxt;
    let after = seq![':', ' '] + (enc_string(v) + tail);
    let x = pre + (enc_string("name"@) + after);
    lemma_qstring(pre, "name"@, after);
    assert(parse_string(x) == Some::<(Seq<char>, Seq<char>)>(("name"@, after)));
    assert(after[0] == ':');
    assert(!is_ws(':'));
    assert(skip_ws(after) == after);
    assert(after.skip(1) =~= seq![' '] + (enc_string(v) + tail));
    lemma_qstring(seq![' '], v, tail);
    assert(entry_val("name"@, after.skip(1), acc) == Some::<(EntryAcc, Seq<char>)>((EntryAcc { name: Some(v), ..acc }, tail)));
    assert(tail[0] == ',');
    assert(!is_ws(','));
    assert(skip_ws(tail) == tail);
    assert(tail.skip(1) =~= seq![' '] + nxt);
}

#[verifier::rlimit(100)]
#[verifier::spinoff_prover]
proof fn entry_step_source(v: Seq<char>, pre: Seq<char>, nxt: Seq<char>, acc: EntryAcc, fuel: nat)
    requires
        all_ws(pre),
        fuel > 0,
    ensures
        entry_fields(pre + (enc_string("source"@) + (seq![':', ' '] + (enc_string(v) + (seq![',', ' '] + nxt)))), acc, fuel) == entry_fields(seq![' '] + nxt, EntryAcc { source: Some(v), ..acc }, (fuel - 1) as nat),
{
    reveal_strlit("source");
    reveal_strlit("name");
    reveal_strlit("description");
    let tail = seq![',', ' '] + nxt;
    let after = seq![':', ' '] + (enc_string(v) + tail);
    let x = pre + (enc_string("source"@) + after);
    lemma_qstring(pre, "source"@, after);
    assert(parse_string(x) == Some::<(Seq<char>, Seq<char>)>(("source"@, after)));
    assert(after[0] == ':');
    assert(!is_ws(':'));
    assert(skip_ws(after) == after);
    assert(after.skip(1) =~= seq![' '] + (enc_string(v) + tail));
    lemma_qstring(seq![' '], v, tail);
    assert(entry_val("source"@, after.skip(1), acc) == Some::<(EntryAcc, Seq<char>)>((EntryAcc { source: Some(v), ..acc }, tail)));
    assert(tail[0] == ',');
    assert(!is_ws(','));
    assert(skip_ws(tail) == tail);
    assert(tail.skip(1) =~= seq![' '] + nxt);
}

#[verifier::rlimit(100)]
#[verifier::spinoff_prover]
proof fn entry_step_description(v: Option<Seq<char>>, pre: Seq<char>, rest: Seq<char>, acc: EntryAcc, fuel: nat)
    requires
        all_ws(pre),
        fuel > 0,
    ensures
        entry_fields(pre + (enc_string("description"@) + (seq![':', ' '] + (enc_opt_string(v) + (seq!['}'] + rest)))), acc, fuel) == Some::<(EntryAcc, Seq<char>)>((EntryAcc { description: v, ..acc }, rest)),
{
    reveal_strlit("description");
    reveal_strlit("name");
    reveal_strlit("source");
    let tail = seq!['}'] + rest;
    let after = seq![':', ' '] + (enc_opt_string(v) + tail);
    let x = pre + (enc_string("description"@) + after);
    lemma_qstring(pre, "description"@, after);
    assert(parse_string(x) == Some::<(Seq<char>, Seq<char>)>(("description"@, after)));
    assert(after[0] == ':');
    assert(!is_ws(':'));
    assert(skip_ws(after) == after);
    assert(after.skip(1) =~= seq![' '] + (enc_opt_string(v) + tail));
    lemma_opt_string(seq![' '], v, tail);
    assert(entry_val("description"@, after.skip(1), acc) == Some::<(EntryAcc, Seq<char>)>((EntryAcc { description: v, ..acc }, tail)));
    assert(tail[0] == '}');
    assert(!is_ws('}'));
    assert(skip_ws(tail) == tail);
    assert(tail.skip(1) =~= rest);
}

#[verifier::rlimit(100)]
#[verifier::spinoff_prover]
proof fn lemma_entry(pre: Seq<char>, a: EntryView, rest: Seq<char>)
    requires
        all_ws(pre),
    ensures
        parse_entry(pre + (enc_entry(a) + rest)) == Some::<(EntryView, Seq<char>)>((a, rest)),
{
    let body = enc_entry(a) + rest;
    let x = pre + body;
    lemma_skip_ws_pre(pre, body);
    assert(body[0] == '{');
    assert(!is_ws('{'));
    assert(skip_ws(body) == body);
    assert(skip_ws(x) == body);
    let tail3 = seq!['}'] + rest;
    let nxt2 = enc_string("description"@) + (seq![':', ' '] + (enc_opt_string(a.description) + tail3));
    let tail2 = seq![',', ' '] + nxt2;
    let nxt1 = enc_string("source"@) + (seq![':', ' '] + (enc_string(a.source) + tail2));
    let tail1 = seq![',', ' '] + nxt1;
    let acc0 = entry_acc0();
    let acc1 = EntryAcc { name: Some(a.name), ..acc0 };
    let acc2 = EntryAcc { source: Some(a.source), ..acc1 };
    let acc3 = EntryAcc { description: a.description, ..acc2 };
    let f0 = body.len();
    assert(f0 >= 3);
    let cur1 = body.skip(1);
    entry_step_name(a.name, Seq::<char>::empty(), nxt1, acc0, (f0 - 0) as nat);
    assert(cur1 =~= Seq::<char>::empty() + (enc_string("name"@) + (seq![':', ' '] + (enc_string(a.name) + tail1))));
    let cur2 = seq![' '] + nxt1;
    entry_step_source(a.source, seq![' '], nxt2, acc1, (f0 - 1) as nat);
    assert(cur2 =~= seq![' '] + (enc_string("source"@) + (seq![':', ' '] + (enc_string(a.source) + tail2))));
    let cur3 = seq![' '] + nxt2;
    entry_step_description(a.description, seq![' '], rest, acc2, (f0 - 2) as nat);
    assert(cur3 =~= seq![' '] + (enc_string("description"@) + (seq![':', ' '] + (enc_opt_string(a.description) + tail3))));
    assert(entry_fields(cur1, acc0, (f0 - 0) as nat) == entry_fields(cur2, acc1, (f0 - 1) as nat));
    assert(entry_fields(cur2, acc1, (f0 - 1) as nat) == entry_fields(cur3, acc2, (f0 - 2) as nat));
    assert(entry_fields(cur3, acc2, (f0 - 2) as nat) == Some::<(EntryAcc, Seq<char>)>((acc3, rest)));
    assert(entry_fin(acc3) == Some::<EntryView>(EntryView { name: a.name, source: a.source, description: a.description }));
    assert(EntryView { name: a.name, source: a.source, description: a.description } =~= a);
}

} // verus!

verus! {

proof fn lemma_enc_entry_items_len(xs: Seq<EntryView>)
    ensures
        enc_entry_items(xs).len() >= xs.len(),
    decreases xs.len(),
{
    if xs.len() <= 1 {
    } else {
        lemma_enc_entry_items_len(xs.skip(1));
    }
}

#[verifier::rlimit(100)]
#[verifier::spinoff_prover]
proof fn lemma_entry_items_pre_rt(
    pre: Seq<char>,
    xs: Seq<EntryView>,
    acc: Seq<EntryView>,
    rest: Seq<char>,
    fuel: nat,
)
    requires
        all_ws(pre),
        xs.len() > 0,
        fuel >= xs.len(),
    ensures
        parse_entry_items(pre + (enc_entry_items(xs) + (seq!['\n', ' ', ' ', ']'] + rest)), acc, fuel)
            == Some::<(Seq<EntryView>, Seq<char>)>((acc + xs, rest)),
    decreases xs.len(),
{
    let closer = seq!['\n', ' ', ' ', ']'] + rest;
    let x = pre + (enc_entry_items(xs) + closer);
    if xs.len() == 1 {
        assert(x =~= pre + (enc_entry(xs[0]) + closer));
        lemma_entry(pre, xs[0], closer);
        assert(closer =~= seq!['\n', ' ', ' '] + (seq![']'] + rest));
        lemma_skip_ws_pre(seq!['\n', ' ', ' '], seq![']'] + rest);
        assert((seq![']'] + rest)[0] == ']');
        assert(!is_ws(']'));
        assert(skip_ws(closer) == seq![']'] + rest);
        assert((seq![']'] + rest).skip(1) =~= rest);
        assert(acc.push(xs[0]) =~= acc + xs);
    } else {
        let tail = esep() + (enc_entry_items(xs.skip(1)) + closer);
        assert(x =~= pre + (enc_entry(xs[0]) + tail));
        lemma_entry(pre, xs[0], tail);
        assert(tail[0] == ',');
        assert(!is_ws(','));
        assert(skip_ws(tail) == tail);
        assert(tail.skip(1) =~= seq!['\n', ' ', ' ', ' ', ' '] + (enc_entry_items(xs.skip(1)) + closer));
        lemma_entry_items_pre_rt(
            seq!['\n', ' ', ' ', ' ', ' '],
            xs.skip(1),
            acc.push(xs[0]),
            rest,
            (fuel - 1) as nat,
        );
        assert(acc.push(xs[0]) + xs.skip(1) =~= acc + xs);
    }
}

#[verifier::rlimit(100)]
#[verifier::spinoff_prover]
proof fn lemma_plugins(pre: Seq<char>, v: Seq<EntryView>, rest: Seq<char>)
    requires
        all_ws(pre),
    ensures
        parse_entries(pre + (enc_plugins(v) + rest)) == Some::<(Seq<EntryView>, Seq<char>)>(
            (v, rest),
        ),
{
    let x = pre + (enc_plugins(v) + rest);
    if v.len() == 0 {
        let body = seq!['[', ']'] + rest;
        assert(x =~= pre + body);
        lemma_skip_ws_pre(pre, body);
        assert(body[0] == '[');
        assert(!is_ws('['));
        assert(skip_ws(body) == body);
        assert(body.skip(1) =~= seq![']'] + rest);
        assert((seq![']'] + rest)[0] == ']');
        assert(!is_ws(']'));
        assert(skip_ws(seq![']'] + rest) == seq![']'] + rest);
        assert((seq![']'] + rest).skip(1) =~= rest);
        assert(Seq::<EntryView>::empty() =~= v);
    } else {
        let closer = seq!['\n', ' ', ' ', ']'] + rest;
        let inner = enc_entry_items(v) + closer;
        let body = seq!['['] + (seq!['\n', ' ', ' ', ' ', ' '] + inner);
        assert(x =~= pre + body);
        lemma_skip_ws_pre(pre, body);
        assert(body[0] == '[');
        assert(!is_ws('['));
        assert(skip_ws(body) == body);
        assert(body.skip(1) =~= seq!['\n', ' ', ' ', ' ', ' '] + inner);
        lemma_skip_ws_pre(seq!['\n', ' ', ' ', ' ', ' '], inner);
        assert(enc_entry(v[0]).len() > 0);
        assert(inner[0] == enc_entry(v[0])[0]);
        assert(inner[0] == '{');
        assert(!is_ws('{'));
        assert(skip_ws(inner) == inner);
        assert(inner[0] != ']');
        lemma_enc_entry_items_len(v);
        assert(body.len() >= v.len());
        lemma_entry_items_pre_rt(
            seq!['\n', ' ', ' ', ' ', ' '],
            v,
            Seq::empty(),
            rest,
            body.len(),
        );
        assert(Seq::<EntryView>::empty() + v =~= v);
    }
}

#[verifier::rlimit(100)]
#[verifier::spinoff_prover]
proof fn manifest_step_name(v: Seq<char>, pre: Seq<char>, nxt: Seq<char>, acc: ManifestAcc, fuel: nat)
    requires
        all_ws(pre),
        fuel > 0,
    ensures
        manifest_fields(pre + (enc_string("name"@) + (seq![':', ' '] + (enc_string(v) + (seq![',', '\n', ' ', ' '] + nxt)))), acc, fuel) == manifest_fields(seq!['\n', ' ', ' '] + nxt, ManifestAcc { name: Some(v), ..acc }, (fuel - 1) as nat),
{
    reveal_strlit("name");
    reveal_strlit("description");
    reveal_strlit("version");
    reveal_strlit("author");
    reveal_strlit("homepage");
    reveal_strlit("keywords");
    reveal_strlit("commands");
    reveal_strlit("agents");
    reveal_strlit("skills");
    reveal_strlit("hooks");
    let tail = seq![',', '\n', ' ', ' '] + nxt;
    let after = seq![':', ' '] + (enc_string(v) + tail);
    let x = pre + (enc_string("name"@) + after);
    lemma_qstring(pre, "name"@, after);
    assert(parse_string(x) == Some::<(Seq<char>, Seq<char>)>(("name"@, after)));
    assert(after[0] == ':');
    assert(!is_ws(':'));
    assert(skip_ws(after) == after);
    assert(after.skip(1) =~= seq![' '] + (enc_string(v) + tail));
    lemma_qstring(seq![' '], v, tail);
    assert(manifest_val("name"@, after.skip(1), acc) == Some::<(ManifestAcc, Seq<char>)>((ManifestAcc { name: Some(v), ..acc }, tail)));
    assert(tail[0] == ',');
    assert(!is_ws(','));
    assert(skip_ws(tail) == tail);
    assert(tail.skip(1) =~= seq!['\n', ' ', ' '] + nxt);
}

#[verifier::rlimit(100)]
#[verifier::spinoff_prover]
proof fn manifest_step_description(v: Seq<char>, pre: Seq<char>, nxt: Seq<char>, acc: ManifestAcc, fuel: nat)
    requires
        all_ws(pre),
        fuel > 0,
    ensures
        manifest_fields(pre + (enc_string("description"@) + (seq![':', ' '] + (enc_string(v) + (seq![',', '\n', ' ', ' '] + nxt)))), acc, fuel) == manifest_fields(seq!['\n', ' ', ' '] + nxt, ManifestAcc { description: Some(v), ..acc }, (fuel - 1) as nat),
{
    reveal_strlit("name");
    reveal_strlit("description");
    reveal_strlit("version");
    reveal_strlit("author");
    reveal_strlit("homepage");
    reveal_strlit("keywords");
    reveal_strlit("commands");
    reveal_strlit("agents");
    reveal_strlit("skills");
    reveal_strlit("hooks");
    let tail = seq![',', '\n', ' ', ' '] + nxt;
    let after = seq![':', ' '] + (enc_string(v) + tail);
    let x = pre + (enc_string("description"@) + after);
    lemma_qstring(pre, "description"@, after);
    assert(parse_string(x) == Some::<(Seq<char>, Seq<char>)>(("description"@, after)));
    assert(after[0] == ':');
    assert(!is_ws(':'));
    assert(skip_ws(after) == after);
    assert(after.skip(1) =~= seq![' '] + (enc_string(v) + tail));
    lemma_qstring(seq![' '], v, tail);
    assert(manifest_val("description"@, after.skip(1), acc) == Some::<(ManifestAcc, Seq<char>)>((ManifestAcc { description: Some(v), ..acc }, tail)));
    assert(tail[0] == ',');
    assert(!is_ws(','));
    assert(skip_ws(tail) == tail);
    assert(tail.skip(1) =~= seq!['\n', ' ', ' '] + nxt);
}

#[verifier::rlimit(100)]
#[verifier::spinoff_prover]
proof fn manifest_step_version(v: Seq<char>, pre: Seq<char>, nxt: Seq<char>, acc: ManifestAcc, fuel: nat)
    requires
        all_ws(pre),
        fuel > 0,
    ensures
        manifest_fields(pre + (enc_string("version"@) + (seq![':', ' '] + (enc_string(v) + (seq![',', '\n', ' ', ' '] + nxt)))), acc, fuel) == manifest_fields(seq!['\n', ' ', ' '] + nxt, ManifestAcc { version: Some(v), ..acc }, (fuel - 1) as nat),
{
    reveal_strlit("name");
    reveal_strlit("description");
    reveal_strlit("version");
    reveal_strlit("author");
    reveal_strlit("homepage");
    reveal_strlit("keywords");
    reveal_strlit("commands");
    reveal_strlit("agents");
    reveal_strlit("skills");
    reveal_strlit("hooks");
    let tail = seq![',', '\n', ' ', ' '] + nxt;
    let after = seq![':', ' '] + (enc_string(v) + tail);
    let x = pre + (enc_string("version"@) + after);
    lemma_qstring(pre, "version"@, after);
    assert(parse_string(x) == Some::<(Seq<char>, Seq<char>)>(("version"@, after)));
    assert(after[0] == ':');
    assert(!is_ws(':'));
    assert(skip_ws(after) == after);
    assert(after.skip(1) =~= seq![' '] + (enc_string(v) + tail));
    lemma_qstring(seq![' '], v, tail);
    assert(manifest_val("version"@, after.skip(1), acc) == Some::<(ManifestAcc, Seq<char>)>((ManifestAcc { version: Some(v), ..acc }, tail)));
    assert(tail[0] == ',');
    assert(!is_ws(','));
    assert(skip_ws(tail) == tail);
    assert(tail.skip(1) =~= seq!['\n', ' ', ' '] + nxt);
}

#[verifier::rlimit(100)]
#[verifier::spinoff_prover]
proof fn manifest_step_author(v: AuthorView, pre: Seq<char>, nxt: Seq<char>, acc: ManifestAcc, fuel: nat)
    requires
        all_ws(pre),
        fuel > 0,
    ensures
        manifest_fields(pre + (enc_string("author"@) + (seq![':', ' '] + (enc_author(v) + (seq![',', '\n', ' ', ' '] + nxt)))), acc, fuel) == manifest_fields(seq!['\n', ' ', ' '] + nxt, ManifestAcc { author: Some(v), ..acc }, (fuel - 1) as nat),
{
    reveal_strlit("name");
    reveal_strlit("description");
    reveal_strlit("version");
    reveal_strlit("author");
    reveal_strlit("homepage");
    reveal_strlit("keywords");
    reveal_strlit("commands");
    reveal_strlit("agents");
    reveal_strlit("skills");
    reveal_strlit("hooks");
    let tail = seq![',', '\n', ' ', ' '] + nxt;
    let after = seq![':', ' '] + (enc_author(v) + tail);
    let x = pre + (enc_string("author"@) + after);
    lemma_qstring(pre, "author"@, after);
    assert(parse_string(x) == Some::<(Seq<char>, Seq<char>)>(("author"@, after)));
    assert(after[0] == ':');
    assert(!is_ws(':'));
    assert(skip_ws(after) == after);
    assert(after.skip(1) =~= seq![' '] + (enc_author(v) + tail));
    lemma_author(seq![' '], v, tail);
    assert(manifest_val("author"@, after.skip(1), acc) == Some::<(ManifestAcc, Seq<char>)>((ManifestAcc { author: Some(v), ..acc }, tail)));
    assert(tail[0] == ',');
    assert(!is_ws(','));
    assert(skip_ws(tail) == tail);
    assert(tail.skip(1) =~= seq!['\n', ' ', ' '] + nxt);
}

#[verifier::rlimit(100)]
#[verifier::spinoff_prover]
proof fn manifest_step_homepage(v: Option<Seq<char>>, pre: Seq<char>, nxt: Seq<char>, acc: ManifestAcc, fuel: nat)
    requires
        all_ws(pre),
        fuel > 0,
    ensures
        manifest_fields(pre + (enc_string("homepage"@) + (seq![':', ' '] + (enc_opt_string(v) + (seq![',', '\n', ' ', ' '] + nxt)))), acc, fuel) == manifest_fields(seq!['\n', ' ', ' '] + nxt, ManifestAcc { homepage: v, ..acc }, (fuel - 1) as nat),
{
    reveal_strlit("name");
    reveal_strlit("description");
    reveal_strlit("version");
    reveal_strlit("author");
    reveal_strlit("homepage");
    reveal_strlit("keywords");
    reveal_strlit("commands");
    reveal_strlit("agents");
    reveal_strlit("skills");
    reveal_strlit("hooks");
    let tail = seq![',', '\n', ' ', ' '] + nxt;
    let after = seq![':', ' '] + (enc_opt_string(v) + tail);
    let x = pre + (enc_string("homepage"@) + after);
    lemma_qstring(pre, "homepage"@, after);
    assert(parse_string(x) == Some::<(Seq<char>, Seq<char>)>(("homepage"@, after)));
    assert(after[0] == ':');
    assert(!is_ws(':'));
    assert(skip_ws(after) == after);
    assert(after.skip(1) =~= seq![' '] + (enc_opt_string(v) + tail));
    lemma_opt_string(seq![' '], v, tail);
    assert(manifest_val("homepage"@, after.skip(1), acc) == Some::<(ManifestAcc, Seq<char>)>((ManifestAcc { homepage: v, ..acc }, tail)));
    assert(tail[0] == ',');
    assert(!is_ws(','));
    assert(skip_ws(tail) == tail);
    assert(tail.skip(1) =~= seq!['\n', ' ', ' '] + nxt);
}

#[verifier::rlimit(100)]
#[verifier::spinoff_prover]
proof fn manifest_step_keywords(v: Option<Seq<Seq<char>>>, pre: Seq<char>, nxt: Seq<char>, acc: ManifestAcc, fuel: nat)
    requires
        all_ws(pre),
        fuel > 0,
    ensures
        manifest_fields(pre + (enc_string("keywords"@) + (seq![':', ' '] + (enc_keywords(v) + (seq![',', '\n', ' ', ' '] + nxt)))), acc, fuel) == manifest_fields(seq!['\n', ' ', ' '] + nxt, ManifestAcc { keywords: v, ..acc }, (fuel - 1) as nat),
{
    reveal_strlit("name");
    reveal_strlit("description");
    reveal_strlit("version");
    reveal_strlit("author");
    reveal_strlit("homepage");
    reveal_strlit("keywords");
    reveal_strlit("commands");
    reveal_strlit("agents");
    reveal_strlit("skills");
    reveal_strlit("hooks");
    let tail = seq![',', '\n', ' ', ' '] + nxt;
    let after = seq![':', ' '] + (enc_keywords(v) + tail);
    let x = pre + (enc_string("keywords"@) + after);
    lemma_qstring(pre, "keywords"@, after);
    assert(parse_string(x) == Some::<(Seq<char>, Seq<char>)>(("keywords"@, after)));
    assert(after[0] == ':');
    assert(!is_ws(':'));
    assert(skip_ws(after) == after);
    assert(after.skip(1) =~= seq![' '] + (enc_keywords(v) + tail));
    lemma_keywords(seq![' '], v, tail);
    assert(manifest_val("keywords"@, after.skip(1), acc) == Some::<(ManifestAcc, Seq<char>)>((ManifestAcc { keywords: v, ..acc }, tail)));
    assert(tail[0] == ',');
    assert(!is_ws(','));
    assert(skip_ws(tail) == tail);
    assert(tail.skip(1) =~= seq!['\n', ' ', ' '] + nxt);
}

#[verifier::rlimit(100)]
#[verifier::spinoff_prover]
proof fn manifest_step_commands(v: Option<Seq<char>>, pre: Seq<char>, nxt: Seq<char>, acc: ManifestAcc, fuel: nat)
    requires
        all_ws(pre),
        fuel > 0,
    ensures
        manifest_fields(pre + (enc_string("commands"@) + (seq![':', ' '] + (enc_opt_string(v) + (seq![',', '\n', ' ', ' '] + nxt)))), acc, fuel) == manifest_fields(seq!['\n', ' ', ' '] + nxt, ManifestAcc { commands: v, ..acc }, (fuel - 1) as nat),
{
    reveal_strlit("name");
    reveal_strlit("description");
    reveal_strlit("version");
    reveal_strlit("author");
    reveal_strlit("homepage");
    reveal_strlit("keywords");
    reveal_strlit("commands");
    reveal_strlit("agents");
    reveal_strlit("skills");
    reveal_strlit("hooks");
    let tail = seq![',', '\n', ' ', ' '] + nxt;
    let after = seq![':', ' '] + (enc_opt_string(v) + tail);
    let x = pre + (enc_string("commands"@) + after);
    lemma_qstring(pre, "commands"@, after);
    assert(parse_string(x) == Some::<(Seq<char>, Seq<char>)>(("commands"@, after)));
    assert(after[0] == ':');
    assert(!is_ws(':'));
    assert(skip_ws(after) == after);
    assert(after.skip(1) =~= seq![' '] + (enc_opt_string(v) + tail));
    lemma_opt_string(seq![' '], v, tail);
    assert(manifest_val("commands"@, after.skip(1), acc) == Some::<(ManifestAcc, Seq<char>)>((ManifestAcc { commands: v, ..acc }, tail)));
    assert(tail[0] == ',');
    assert(!is_ws(','));
    assert(skip_ws(tail) == tail);
    assert(tail.skip(1) =~= seq!['\n', ' ', ' '] + nxt);
}

#[verifier::rlimit(100)]
#[verifier::spinoff_prover]
proof fn manifest_step_agents(v: Option<Seq<char>>, pre: Seq<char>, nxt: Seq<char>, acc: ManifestAcc, fuel: nat)
    requires
        all_ws(pre),
        fuel > 0,
    ensures
        manifest_fields(pre + (enc_string("agents"@) + (seq![':', ' '] + (enc_opt_string(v) + (seq![',', '\n', ' ', ' '] + nxt)))), acc, fuel) == manifest_fields(seq!['\n', ' ', ' '] + nxt, ManifestAcc { agents: v, ..acc }, (fuel - 1) as nat),
{
    reveal_strlit("name");
    reveal_strlit("description");
    reveal_strlit("version");
    reveal_strlit("author");
    reveal_strlit("homepage");
    reveal_strlit("keywords");
    reveal_strlit("commands");
    reveal_strlit("agents");
    reveal_strlit("skills");
    reveal_strlit("hooks");
    let tail = seq![',', '\n', ' ', ' '] + nxt;
    let after = seq![':', ' '] + (enc_opt_string(v) + tail);
    let x = pre + (enc_string("agents"@) + after);
    lemma_qstring(pre, "agents"@, after);
    assert(parse_string(x) == Some::<(Seq<char>, Seq<char>)>(("agents"@, after)));
    assert(after[0] == ':');
    assert(!is_ws(':'));
    assert(skip_ws(after) == after);
    assert(after.skip(1) =~= seq![' '] + (enc_opt_string(v) + tail));
    lemma_opt_string(seq![' '], v, tail);
    assert(("agents"@)[1] != ("author"@)[1]);
    assert("agents"@ != "author"@);
    assert(manifest_val("agents"@, after.skip(1), acc) == Some::<(ManifestAcc, Seq<char>)>((ManifestAcc { agents: v, ..acc }, tail)));
    assert(tail[0] == ',');
    assert(!is_ws(','));
    assert(skip_ws(tail) == tail);
    assert(tail.skip(1) =~= seq!['\n', ' ', ' '] + nxt);
}

#[verifier::rlimit(100)]
#[verifier::spinoff_prover]
proof fn manifest_step_skills(v: Option<Seq<char>>, pre: Seq<char>, nxt: Seq<char>, acc: ManifestAcc, fuel: nat)
    requires
        all_ws(pre),
        fuel > 0,
    ensures
        manifest_fields(pre + (enc_string("skills"@) + (seq![':', ' '] + (enc_opt_string(v) + (seq![',', '\n', ' ', ' '] + nxt)))), acc, fuel) == manifest_fields(seq!['\n', ' ', ' '] + nxt, ManifestAcc { skills: v, ..acc }, (fuel - 1) as nat),
{
    reveal_strlit("name");
    reveal_strlit("description");
    reveal_strlit("version");
    reveal_strlit("author");
    reveal_strlit("homepage");
    reveal_strlit("keywords");
    reveal_strlit("commands");
    reveal_strlit("agents");
    reveal_strlit("skills");
    reveal_strlit("hooks");
    let tail = seq![',', '\n', ' ', ' '] + nxt;
    let after = seq![':', ' '] + (enc_opt_string(v) + tail);
    let x = pre + (enc_string("skills"@) + after);
    lemma_qstring(pre, "skills"@, after);
    assert(parse_string(x) == Some::<(Seq<char>, Seq<char>)>(("skills"@, after)));
    assert(after[0] == ':');
    assert(!is_ws(':'));
    assert(skip_ws(after) == after);
    assert(after.skip(1) =~= seq![' '] + (enc_opt_string(v) + tail));
    lemma_opt_string(seq![' '], v, tail);
    assert(manifest_val("skills"@, after.skip(1), acc) == Some::<(ManifestAcc, Seq<char>)>((ManifestAcc { skills: v, ..acc }, tail)));
    assert(tail[0] == ',');
    assert(!is_ws(','));
    assert(skip_ws(tail) == tail);
    assert(tail.skip(1) =~= seq!['\n', ' ', ' '] + nxt);
}

#[verifier::rlimit(100)]
#[verifier::spinoff_prover]
proof fn manifest_step_hooks(v: Option<Seq<char>>, pre: Seq<char>, rest: Seq<char>, acc: ManifestAcc, fuel: nat)
    requires
        all_ws(pre),
        fuel > 0,
    ensures
        manifest_fields(pre + (enc_string("hooks"@) + (seq![':', ' '] + (enc_opt_string(v) + (seq!['\n', '}'] + rest)))), acc, fuel) == Some::<(ManifestAcc, Seq<char>)>((ManifestAcc { hooks: v, ..acc }, rest)),
{
    reveal_strlit("name");
    reveal_strlit("description");
    reveal_strlit("version");
    reveal_strlit("author");
    reveal_strlit("homepage");
    reveal_strlit("keywords");
    reveal_strlit("commands");
    reveal_strlit("agents");
    reveal_strlit("skills");
    reveal_strlit("hooks");
    let tail = seq!['\n', '}'] + rest;
    let after = seq![':', ' '] + (enc_opt_string(v) + tail);
    let x = pre + (enc_string("hooks"@) + after);
    lemma_qstring(pre, "hooks"@, after);
    assert(parse_string(x) == Some::<(Seq<char>, Seq<char>)>(("hooks"@, after)));
    assert(after[0] == ':');
    assert(!is_ws(':'));
    assert(skip_ws(after) == after);
    assert(after.skip(1) =~= seq![' '] + (enc_opt_string(v) + tail));
    lemma_opt_string(seq![' '], v, tail);
    assert(manifest_val("hooks"@, after.skip(1), acc) == Some::<(ManifestAcc, Seq<char>)>((ManifestAcc { hooks: v, ..acc }, tail)));
    assert(tail =~= seq!['\n'] + (seq!['}'] + rest));
    lemma_skip_ws_pre(seq!['\n'], seq!['}'] + rest);
    assert((seq!['}'] + rest)[0] == '}');
    assert(!is_ws('}'));
    assert(skip_ws(tail) == seq!['}'] + rest);
    assert((seq!['}'] + rest).skip(1) =~= rest);
}

#[verifier::rlimit(100)]
#[verifier::spinoff_prover]
proof fn market_step_name(v: Seq<char>, pre: Seq<char>, nxt: Seq<char>, acc: MarketAcc, fuel: nat)
    requires
        all_ws(pre),
        fuel > 0,
    ensures
        market_fields(pre + (enc_string("name"@) + (seq![':', ' '] + (enc_string(v) + (seq![',', '\n', ' ', ' '] + nxt)))), acc, fuel) == market_fields(seq!['\n', ' ', ' '] + nxt, MarketAcc { name: Some(v), ..acc }, (fuel - 1) as nat),
{
    reveal_strlit("name");
    reveal_strlit("owner");
    reveal_strlit("plugins");
    let tail = seq![',', '\n', ' ', ' '] + nxt;
    let after = seq![':', ' '] + (enc_string(v) + tail);
    let x = pre + (enc_string("name"@) + after);
    lemma_qstring(pre, "name"@, after);
    assert(parse_string(x) == Some::<(Seq<char>, Seq<char>)>(("name"@, after)));
    assert(after[0] == ':');
    assert(!is_ws(':'));
    assert(skip_ws(after) == after);
    assert(after.skip(1) =~= seq![' '] + (enc_string(v) + tail));
    lemma_qstring(seq![' '], v, tail);
    assert(market_val("name"@, after.skip(1), acc) == Some::<(MarketAcc, Seq<char>)>((MarketAcc { name: Some(v), ..acc }, tail)));
    assert(tail[0] == ',');
    assert(!is_ws(','));
    assert(skip_ws(tail) == tail);
    assert(tail.skip(1) =~= seq!['\n', ' ', ' '] + nxt);
}

#[verifier::rlimit(100)]
#[verifier::spinoff_prover]
proof fn market_step_owner(v: Seq<char>, pre: Seq<char>, nxt: Seq<char>, acc: MarketAcc, fuel: nat)
    requires
        all_ws(pre),
        fuel > 0,
    ensures
        market_fields(pre + (enc_string("owner"@) + (seq![':', ' '] + (enc_owner(v) + (seq![',', '\n', ' ', ' '] + nxt)))), acc, fuel) == market_fields(seq!['\n', ' ', ' '] + nxt, MarketAcc { owner_name: Some(v), ..acc }, (fuel - 1) as nat),
{
    reveal_strlit("name");
    reveal_strlit("owner");
    reveal_strlit("plugins");
    let tail = seq![',', '\n', ' ', ' '] + nxt;
    let after = seq![':', ' '] + (enc_owner(v) + tail);
    let x = pre + (enc_string("owner"@) + after);
    lemma_qstring(pre, "owner"@, after);
    assert(parse_string(x) == Some::<(Seq<char>, Seq<char>)>(("owner"@, after)));
    assert(after[0] == ':');
    assert(!is_ws(':'));
    assert(skip_ws(after) == after);
    assert(after.skip(1) =~= seq![' '] + (enc_owner(v) + tail));
    lemma_owner(seq![' '], v, tail);
    assert(market_val("owner"@, after.skip(1), acc) == Some::<(MarketAcc, Seq<char>)>((MarketAcc { owner_name: Some(v), ..acc }, tail)));
    assert(tail[0] == ',');
    assert(!is_ws(','));
    assert(skip_ws(tail) == tail);
    assert(tail.skip(1) =~= seq!['\n', ' ', ' '] + nxt);
}

#[verifier::rlimit(100)]
#[verifier::spinoff_prover]
proof fn market_step_plugins(v: Seq<EntryView>, pre: Seq<char>, rest: Seq<char>, acc: MarketAcc, fuel: nat)
    requires
        all_ws(pre),
        fuel > 0,
    ensures
        market_fields(pre + (enc_string("plugins"@) + (seq![':', ' '] + (enc_plugins(v) + (seq!['\n', '}'] + rest)))), acc, fuel) == Some::<(MarketAcc, Seq<char>)>((MarketAcc { plugins: Some(v), ..acc }, rest)),
{
    reveal_strlit("name");
    reveal_strlit("owner");
    reveal_strlit("plugins");
    let tail = seq!['\n', '}'] + rest;
    let after = seq![':', ' '] + (enc_plugins(v) + tail);
    let x = pre + (enc_string("plugins"@) + after);
    lemma_qstring(pre, "plugins"@, after);
    assert(parse_string(x) == Some::<(Seq<char>, Seq<char>)>(("plugins"@, after)));
    assert(after[0] == ':');
    assert(!is_ws(':'));
    assert(skip_ws(after) == after);
    assert(after.skip(1) =~= seq![' '] + (enc_plugins(v) + tail));
    lemma_plugins(seq![' '], v, tail);
    assert(market_val("plugins"@, after.skip(1), acc) == Some::<(MarketAcc, Seq<char>)>((MarketAcc { plugins: Some(v), ..acc }, tail)));
    assert(tail =~= seq!['\n'] + (seq!['}'] + rest));
    lemma_skip_ws_pre(seq!['\n'], seq!['}'] + rest);
    assert((seq!['}'] + rest)[0] == '}');
    assert(!is_ws('}'));
    assert(skip_ws(tail) == seq!['}'] + rest);
    assert((seq!['}'] + rest).skip(1) =~= rest);
}

/// Decoding the canonical encoding yields exactly the value encoded.
#[verifier::rlimit(100)]
#[verifier::spinoff_prover]
pub proof fn lemma_marketplace_roundtrip(a: MarketplaceView)
    ensures
        spec_decode_marketplace(enc_marketplace(a)) == Ok::<MarketplaceView, DecodeError>(a),
{
    let rest = Seq::<char>::empty();
    let body = enc_marketplace(a) + rest;
    assert(body =~= enc_marketplace(a));
    assert(body[0] == '{');
    assert(!is_ws('{'));
    assert(skip_ws(body) == body);
    assert(skip_ws(enc_marketplace(a)) == enc_marketplace(a));
    let tail3 = seq!['\n', '}'] + rest;
    let nxt2 = enc_string("plugins"@) + (seq![':', ' '] + (enc_plugins(a.plugins) + tail3));
    let tail2 = seq![',', '\n', ' ', ' '] + nxt2;
    let nxt1 = enc_string("owner"@) + (seq![':', ' '] + (enc_owner(a.owner_name) + tail2));
    let tail1 = seq![',', '\n', ' ', ' '] + nxt1;
    let acc0 = market_acc0();
    let acc1 = MarketAcc { name: Some(a.name), ..acc0 };
    let acc2 = MarketAcc { owner_name: Some(a.owner_name), ..acc1 };
    let acc3 = MarketAcc { plugins: Some(a.plugins), ..acc2 };
    let f0 = body.len();
    assert(f0 >= 3);
    let cur1 = body.skip(1);
    market_step_name(a.name, seq!['\n', ' ', ' '], nxt1, acc0, (f0 - 0) as nat);
    assert(cur1 =~= seq!['\n', ' ', ' '] + (enc_string("name"@) + (seq![':', ' '] + (enc_string(a.name) + tail1))));
    let cur2 = seq!['\n', ' ', ' '] + nxt1;
    market_step_owner(a.owner_name, seq!['\n', ' ', ' '], nxt2, acc1, (f0 - 1) as nat);
    assert(cur2 =~= seq!['\n', ' ', ' '] + (enc_string("owner"@) + (seq![':', ' '] + (enc_owner(a.owner_name) + tail2))));
    let cur3 = seq!['\n', ' ', ' '] + nxt2;
    market_step_plugins(a.plugins, seq!['\n', ' ', ' '], rest, acc2, (f0 - 2) as nat);
    assert(cur3 =~= seq!['\n', ' ', ' '] + (enc_string("plugins"@) + (seq![':', ' '] + (enc_plugins(a.plugins) + tail3))));
    assert(market_fields(cur1, acc0, (f0 - 0) as nat) == market_fields(cur2, acc1, (f0 - 1) as nat));
    assert(market_fields(cur2, acc1, (f0 - 1) as nat) == market_fields(cur3, acc2, (f0 - 2) as nat));
    assert(market_fields(cur3, acc2, (f0 - 2) as nat) == Some::<(MarketAcc, Seq<char>)>((acc3, rest)));
    assert(market_fields(cur1, acc0, f0) == Some::<(MarketAcc, Seq<char>)>((acc3, rest)));
    assert(skip_ws(rest).len() == 0);
    assert(market_fin(acc3) matches Some(mm) && mm =~= a);
}

} // verus!


verus! {

/// The encoded run of members from `homepage` to the closing brace.
spec fn m_fields5to10(a: ManifestView, rest: Seq<char>) -> Seq<char> {
    let t_end = seq!['\n', '}'] + rest;
    let f_hooks = enc_string("hooks"@) + (seq![':', ' '] + (enc_opt_string(a.hooks) + t_end));
    let t_hooks = seq![',', '\n', ' ', ' '] + f_hooks;
    let f_skills = enc_string("skills"@) + (seq![':', ' '] + (enc_opt_string(a.skills) + t_hooks));
    let t_skills = seq![',', '\n', ' ', ' '] + f_skills;
    let f_agents = enc_string("agents"@) + (seq![':', ' '] + (enc_opt_string(a.agents) + t_skills));
    let t_agents = seq![',', '\n', ' ', ' '] + f_agents;
    let f_commands = enc_string("commands"@) + (seq![':', ' '] + (enc_opt_string(a.commands) + t_agents));
    let t_commands = seq![',', '\n', ' ', ' '] + f_commands;
    let f_keywords = enc_string("keywords"@) + (seq![':', ' '] + (enc_keywords(a.keywords) + t_commands));
    let t_keywords = seq![',', '\n', ' ', ' '] + f_keywords;
    enc_string("homepage"@) + (seq![':', ' '] + (enc_opt_string(a.homepage) + t_keywords))
}

#[verifier::rlimit(100)]
#[verifier::spinoff_prover]
proof fn lemma_manifest_last6(a: ManifestView, acc: ManifestAcc, rest: Seq<char>, fuel: nat)
    requires
        fuel >= 6,
    ensures
        manifest_fields(seq!['\n', ' ', ' '] + m_fields5to10(a, rest), acc, fuel) == Some::<
            (ManifestAcc, Seq<char>),
        >(
            (
                ManifestAcc {
                    homepage: a.homepage,
                    keywords: a.keywords,
                    commands: a.commands,
                    agents: a.agents,
                    skills: a.skills,
                    hooks: a.hooks,
                    ..acc
                },
                rest,
            ),
        ),
{
    let tail6 = seq!['\n', '}'] + rest;
    let nxt5 = enc_string("hooks"@) + (seq![':', ' '] + (enc_opt_string(a.hooks) + tail6));
    let tail5 = seq![',', '\n', ' ', ' '] + nxt5;
    let nxt4 = enc_string("skills"@) + (seq![':', ' '] + (enc_opt_string(a.skills) + tail5));
    let tail4 = seq![',', '\n', ' ', ' '] + nxt4;
    let nxt3 = enc_string("agents"@) + (seq![':', ' '] + (enc_opt_string(a.agents) + tail4));
    let tail3 = seq![',', '\n', ' ', ' '] + nxt3;
    let nxt2 = enc_string("commands"@) + (seq![':', ' '] + (enc_opt_string(a.commands) + tail3));
    let tail2 = seq![',', '\n', ' ', ' '] + nxt2;
    let nxt1 = enc_string("keywords"@) + (seq![':', ' '] + (enc_keywords(a.keywords) + tail2));
    let tail1 = seq![',', '\n', ' ', ' '] + nxt1;
    assert(m_fields5to10(a, rest) =~= enc_string("homepage"@) + (seq![':', ' '] + (enc_opt_string(a.homepage) + tail1)));
    let cur1 = seq!['\n', ' ', ' '] + m_fields5to10(a, rest);
    let acc1 = ManifestAcc { homepage: a.homepage, ..acc };
    let acc2 = ManifestAcc { keywords: a.keywords, ..acc1 };
    let acc3 = ManifestAcc { commands: a.commands, ..acc2 };
    let acc4 = ManifestAcc { agents: a.agents, ..acc3 };
    let acc5 = ManifestAcc { skills: a.skills, ..acc4 };
    let acc6 = ManifestAcc { hooks: a.hooks, ..acc5 };
    manifest_step_homepage(a.homepage, seq!['\n', ' ', ' '], nxt1, acc, (fuel - 0) as nat);
    assert(cur1 =~= seq!['\n', ' ', ' '] + (enc_string("homepage"@) + (seq![':', ' '] + (enc_opt_string(a.homepage) + tail1))));
    let cur2 = seq!['\n', ' ', ' '] + nxt1;
    manifest_step_keywords(a.keywords, seq!['\n', ' ', ' '], nxt2, acc1, (fuel - 1) as nat);
    assert(cur2 =~= seq!['\n', ' ', ' '] + (enc_string("keywords"@) + (seq![':', ' '] + (enc_keywords(a.keywords) + tail2))));
    let cur3 = seq!['\n', ' ', ' '] + nxt2;
    manifest_step_commands(a.commands, seq!['\n', ' ', ' '], nxt3, acc2, (fuel - 2) as nat);
    assert(cur3 =~= seq!['\n', ' ', ' '] + (enc_string("commands"@) + (seq![':', ' '] + (enc_opt_string(a.commands) + tail3))));
    let cur4 = seq!['\n', ' ', ' '] + nxt3;
    manifest_step_agents(a.agents, seq!['\n', ' ', ' '], nxt4, acc3, (fuel - 3) as nat);
    assert(cur4 =~= seq!['\n', ' ', ' '] + (enc_string("agents"@) + (seq![':', ' '] + (enc_opt_string(a.agents) + tail4))));
    let cur5 = seq!['\n', ' ', ' '] + nxt4;
    manifest_step_skills(a.skills, seq!['\n', ' ', ' '], nxt5, acc4, (fuel - 4) as nat);
    assert(cur5 =~= seq!['\n', ' ', ' '] + (enc_string("skills"@) + (seq![':', ' '] + (enc_opt_string(a.skills) + tail5))));
    let cur6 = seq!['\n', ' ', ' '] + nxt5;
    manifest_step_hooks(a.hooks, seq!['\n', ' ', ' '], rest, acc5, (fuel - 5) as nat);
    assert(cur6 =~= seq!['\n', ' ', ' '] + (enc_string("hooks"@) + (seq![':', ' '] + (enc_opt_string(a.hooks) + tail6))));
    assert(manifest_fields(cur1, acc, (fuel - 0) as nat) == manifest_fields(cur2, acc1, (fuel - 1) as nat));
    assert(manifest_fields(cur2, acc1, (fuel - 1) as nat) == manifest_fields(cur3, acc2, (fuel - 2) as nat));
    assert(manifest_fields(cur3, acc2, (fuel - 2) as nat) == manifest_fields(cur4, acc3, (fuel - 3) as nat));
    assert(manifest_fields(cur4, acc3, (fuel - 3) as nat) == manifest_fields(cur5, acc4, (fuel - 4) as nat));
    assert(manifest_fields(cur5, acc4, (fuel - 4) as nat) == manifest_fields(cur6, acc5, (fuel - 5) as nat));
    assert(manifest_fields(cur6, acc5, (fuel - 5) as nat) == Some::<(ManifestAcc, Seq<char>)>((acc6, rest)));
    assert(acc6 =~= ManifestAcc { homepage: a.homepage, keywords: a.keywords, commands: a.commands, agents: a.agents, skills: a.skills, hooks: a.hooks, ..acc });
}

/// The encoded run of members from `name` to `author`, before `nxt`.
spec fn m_fields1to4(a: ManifestView, nxt: Seq<char>) -> Seq<char> {
    let t_author = seq![',', '\n', ' ', ' '] + nxt;
    let f_author = enc_string("author"@) + (seq![':', ' '] + (enc_author(a.author) + t_author));
    let t_version = seq![',', '\n', ' ', ' '] + f_author;
    let f_version = enc_string("version"@) + (seq![':', ' '] + (enc_string(a.version) + t_version));
    let t_description = seq![',', '\n', ' ', ' '] + f_version;
    let f_description = enc_string("description"@) + (seq![':', ' '] + (enc_string(a.description) + t_description));
    let t_name = seq![',', '\n', ' ', ' '] + f_description;
    enc_string("name"@) + (seq![':', ' '] + (enc_string(a.name) + t_name))
}

#[verifier::rlimit(100)]
#[verifier::spinoff_prover]
proof fn lemma_manifest_first4(a: ManifestView, acc: ManifestAcc, nxt: Seq<char>, fuel: nat)
    requires
        fuel >= 5,
    ensures
        manifest_fields(seq!['\n', ' ', ' '] + m_fields1to4(a, nxt), acc, fuel)
            == manifest_fields(
            seq!['\n', ' ', ' '] + nxt,
            ManifestAcc {
                name: Some(a.name),
                description: Some(a.description),
                version: Some(a.version),
                author: Some(a.author),
                ..acc
            },
            (fuel - 4) as nat,
        ),
{
    let nxt4 = nxt;
    let tail4 = seq![',', '\n', ' ', ' '] + nxt4;
    let nxt3 = enc_string("author"@) + (seq![':', ' '] + (enc_author(a.author) + tail4));
    let tail3 = seq![',', '\n', ' ', ' '] + nxt3;
    let nxt2 = enc_string("version"@) + (seq![':', ' '] + (enc_string(a.version) + tail3));
    let tail2 = seq![',', '\n', ' ', ' '] + nxt2;
    let nxt1 = enc_string("description"@) + (seq![':', ' '] + (enc_string(a.description) + tail2));
    let tail1 = seq![',', '\n', ' ', ' '] + nxt1;
    assert(m_fields1to4(a, nxt) =~= enc_string("name"@) + (seq![':', ' '] + (enc_string(a.name) + tail1)));
    let cur1 = seq!['\n', ' ', ' '] + m_fields1to4(a, nxt);
    let acc1 = ManifestAcc { name: Some(a.name), ..acc };
    let acc2 = ManifestAcc { description: Some(a.description), ..acc1 };
    let acc3 = ManifestAcc { version: Some(a.version), ..acc2 };
    let acc4 = ManifestAcc { author: Some(a.author), ..acc3 };
    manifest_step_name(a.name, seq!['\n', ' ', ' '], nxt1, acc, (fuel - 0) as nat);
    assert(cur1 =~= seq!['\n', ' ', ' '] + (enc_string("name"@) + (seq![':', ' '] + (enc_string(a.name) + tail1))));
    let cur2 = seq!['\n', ' ', ' '] + nxt1;
    manifest_step_description(a.description, seq!['\n', ' ', ' '], nxt2, acc1, (fuel - 1) as nat);
    assert(cur2 =~= seq!['\n', ' ', ' '] + (enc_string("description"@) + (seq![':', ' '] + (enc_string(a.description) + tail2))));
    let cur3 = seq!['\n', ' ', ' '] + nxt2;
    manifest_step_version(a.version, seq!['\n', ' ', ' '], nxt3, acc2, (fuel - 2) as nat);
    assert(cur3 =~= seq!['\n', ' ', ' '] + (enc_string("version"@) + (seq![':', ' '] + (enc_string(a.version) + tail3))));
    let cur4 = seq!['\n', ' ', ' '] + nxt3;
    manifest_step_author(a.author, seq!['\n', ' ', ' '], nxt4, acc3, (fuel - 3) as nat);
    assert(cur4 =~= seq!['\n', ' ', ' '] + (enc_string("author"@) + (seq![':', ' '] + (enc_author(a.author) + tail4))));
    let cur5 = seq!['\n', ' ', ' '] + nxt;
    assert(manifest_fields(cur1, acc, (fuel - 0) as nat) == manifest_fields(cur2, acc1, (fuel - 1) as nat));
    assert(manifest_fields(cur2, acc1, (fuel - 1) as nat) == manifest_fields(cur3, acc2, (fuel - 2) as nat));
    assert(manifest_fields(cur3, acc2, (fuel - 2) as nat) == manifest_fields(cur4, acc3, (fuel - 3) as nat));
    assert(manifest_fields(cur4, acc3, (fuel - 3) as nat) == manifest_fields(cur5, acc4, (fuel - 4) as nat));
    assert(acc4 =~= ManifestAcc { name: Some(a.name), description: Some(a.description), version: Some(a.version), author: Some(a.author), ..acc });
}

#[verifier::rlimit(100)]
#[verifier::spinoff_prover]
proof fn lemma_enc_manifest_shape(a: ManifestView)
    ensures
        enc_manifest(a).skip(1) == seq!['\n', ' ', ' '] + m_fields1to4(
            a,
            m_fields5to10(a, Seq::empty()),
        ),
{
    let p1: Seq<char> = seq!['{'];
    let p2: Seq<char> = seq!['\n', ' ', ' '];
    let p3: Seq<char> = enc_string("name"@);
    let p4: Seq<char> = seq![':', ' '];
    let p5: Seq<char> = enc_string(a.name);
    let p6: Seq<char> = fsep();
    let p7: Seq<char> = enc_string("description"@);
    let p8: Seq<char> = seq![':', ' '];
    let p9: Seq<char> = enc_string(a.description);
    let p10: Seq<char> = fsep();
    let p11: Seq<char> = enc_string("version"@);
    let p12: Seq<char> = seq![':', ' '];
    let p13: Seq<char> = enc_string(a.version);
    let p14: Seq<char> = fsep();
    let p15: Seq<char> = enc_string("author"@);
    let p16: Seq<char> = seq![':', ' '];
    let p17: Seq<char> = enc_author(a.author);
    let p18: Seq<char> = fsep();
    let p19: Seq<char> = enc_string("homepage"@);
    let p20: Seq<char> = seq![':', ' '];
    let p21: Seq<char> = enc_opt_string(a.homepage);
    let p22: Seq<char> = fsep();
    let p23: Seq<char> = enc_string("keywords"@);
    let p24: Seq<char> = seq![':', ' '];
    let p25: Seq<char> = enc_keywords(a.keywords);
    let p26: Seq<char> = fsep();
    let p27: Seq<char> = enc_string("commands"@);
    let p28: Seq<char> = seq![':', ' '];
    let p29: Seq<char> = enc_opt_string(a.commands);
    let p30: Seq<char> = fsep();
    let p31: Seq<char> = enc_string("agents"@);
    let p32: Seq<char> = seq![':', ' '];
    let p33: Seq<char> = enc_opt_string(a.agents);
    let p34: Seq<char> = fsep();
    let p35: Seq<char> = enc_string("skills"@);
    let p36: Seq<char> = seq![':', ' '];
    let p37: Seq<char> = enc_opt_string(a.skills);
    let p38: Seq<char> = fsep();
    let p39: Seq<char> = enc_string("hooks"@);
    let p40: Seq<char> = seq![':', ' '];
    let p41: Seq<char> = enc_opt_string(a.hooks);
    let p42: Seq<char> = seq!['\n', '}'];
    let t1 = p1;
    let t2 = t1 + p2;
    let t3 = t2 + p3;
    let t4 = t3 + p4;
    let t5 = t4 + p5;
    let t6 = t5 + p6;
    let t7 = t6 + p7;
    let t8 = t7 + p8;
    let t9 = t8 + p9;
    let t10 = t9 + p10;
    let t11 = t10 + p11;
    let t12 = t11 + p12;
    let t13 = t12 + p13;
    let t14 = t13 + p14;
    let t15 = t14 + p15;
    let t16 = t15 + p16;
    let t17 = t16 + p17;
    let t18 = t17 + p18;
    let t19 = t18 + p19;
    let t20 = t19 + p20;
    let t21 = t20 + p21;
    let t22 = t21 + p22;
    let t23 = t22 + p23;
    let t24 = t23 + p24;
    let t25 = t24 + p25;
    let t26 = t25 + p26;
    let t27 = t26 + p27;
    let t28 = t27 + p28;
    let t29 = t28 + p29;
    let t30 = t29 + p30;
    let t31 = t30 + p31;
    let t32 = t31 + p32;
    let t33 = t32 + p33;
    let t34 = t33 + p34;
    let t35 = t34 + p35;
    let t36 = t35 + p36;
    let t37 = t36 + p37;
    let t38 = t37 + p38;
    let t39 = t38 + p39;
    let t40 = t39 + p40;
    let t41 = t40 + p41;
    let t42 = t41 + p42;
    let s42 = p42;
    let s41 = p41 + s42;
    let s40 = p40 + s41;
    let s39 = p39 + s40;
    let s38 = p38 + s39;
    let s37 = p37 + s38;
    let s36 = p36 + s37;
    let s35 = p35 + s36;
    let s34 = p34 + s35;
    let s33 = p33 + s34;
    let s32 = p32 + s33;
    let s31 = p31 + s32;
    let s30 = p30 + s31;
    let s29 = p29 + s30;
    let s28 = p28 + s29;
    let s27 = p27 + s28;
    let s26 = p26 + s27;
    let s25 = p25 + s26;
    let s24 = p24 + s25;
    let s23 = p23 + s24;
    let s22 = p22 + s23;
    let s21 = p21 + s22;
    let s20 = p20 + s21;
    let s19 = p19 + s20;
    let s18 = p18 + s19;
    let s17 = p17 + s18;
    let s16 = p16 + s17;
    let s15 = p15 + s16;
    let s14 = p14 + s15;
    let s13 = p13 + s14;
    let s12 = p12 + s13;
    let s11 = p11 + s12;
    let s10 = p10 + s11;
    let s9 = p9 + s10;
    let s8 = p8 + s9;
    let s7 = p7 + s8;
    let s6 = p6 + s7;
    let s5 = p5 + s6;
    let s4 = p4 + s5;
    let s3 = p3 + s4;
    let s2 = p2 + s3;
    let s1 = p1 + s2;
    lemma_concat_associative(t40, p41, s42);
    lemma_concat_associative(t39, p40, s41);
    lemma_concat_associative(t38, p39, s40);
    lemma_concat_associative(t37, p38, s39);
    lemma_concat_associative(t36, p37, s38);
    lemma_concat_associative(t35, p36, s37);
    lemma_concat_associative(t34, p35, s36);
    lemma_concat_associative(t33, p34, s35);
    lemma_concat_associative(t32, p33, s34);
    lemma_concat_associative(t31, p32, s33);
    lemma_concat_associative(t30, p31, s32);
    lemma_concat_associative(t29, p30, s31);
    lemma_concat_associative(t28, p29, s30);
    lemma_concat_associative(t27, p28, s29);
    lemma_concat_associative(t26, p27, s28);
    lemma_concat_associative(t25, p26, s27);
    lemma_concat_associative(t24, p25, s26);
    lemma_concat_associative(t23, p24, s25);
    lemma_concat_associative(t22, p23, s24);
    lemma_concat_associative(t21, p22, s23);
    lemma_concat_associative(t20, p21, s22);
    lemma_concat_associative(t19, p20, s21);
    lemma_concat_associative(t18, p19, s20);
    lemma_concat_associative(t17, p18, s19);
    lemma_concat_associative(t16, p17, s18);
    lemma_concat_associative(t15, p16, s17);
    lemma_concat_associative(t14, p15, s16);
    lemma_concat_associative(t13, p14, s15);
    lemma_concat_associative(t12, p13, s14);
    lemma_concat_associative(t11, p12, s13);
    lemma_concat_associative(t10, p11, s12);
    lemma_concat_associative(t9, p10, s11);
    lemma_concat_associative(t8, p9, s10);
    lemma_concat_associative(t7, p8, s9);
    lemma_concat_associative(t6, p7, s8);
    lemma_concat_associative(t5, p6, s7);
    lemma_concat_associative(t4, p5, s6);
    lemma_concat_associative(t3, p4, s5);
    lemma_concat_associative(t2, p3, s4);
    lemma_concat_associative(t1, p2, s3);
    assert(t42 == s1);
    assert(seq!['{', '\n', ' ', ' '] =~= p1 + p2);
    let l0 = p1 + p2;
    assert(l0 == t2);
    lemma_concat_associative(l0, p3, p4);
    lemma_concat_associative(l0 + p3, p4, p5);
    let l1 = l0 + ((p3 + p4) + p5);
    assert(l1 == t5);
    let l2 = l1 + p6;
    assert(l2 == t6);
    lemma_concat_associative(l2, p7, p8);
    lemma_concat_associative(l2 + p7, p8, p9);
    let l3 = l2 + ((p7 + p8) + p9);
    assert(l3 == t9);
    let l4 = l3 + p10;
    assert(l4 == t10);
    lemma_concat_associative(l4, p11, p12);
    lemma_concat_associative(l4 + p11, p12, p13);
    let l5 = l4 + ((p11 + p12) + p13);
    assert(l5 == t13);
    let l6 = l5 + p14;
    assert(l6 == t14);
    lemma_concat_associative(l6, p15, p16);
    lemma_concat_associative(l6 + p15, p16, p17);
    let l7 = l6 + ((p15 + p16) + p17);
    assert(l7 == t17);
    let l8 = l7 + p18;
    assert(l8 == t18);
    lemma_concat_associative(l8, p19, p20);
    lemma_concat_associative(l8 + p19, p20, p21);
    let l9 = l8 + ((p19 + p20) + p21);
    assert(l9 == t21);
    let l10 = l9 + p22;
    assert(l10 == t22);
    lemma_concat_associative(l10, p23, p24);
    lemma_concat_associative(l10 + p23, p24, p25);
    let l11 = l10 + ((p23 + p24) + p25);
    assert(l11 == t25);
    let l12 = l11 + p26;
    assert(l12 == t26);
    lemma_concat_associative(l12, p27, p28);
    lemma_concat_associative(l12 + p27, p28, p29);
    let l13 = l12 + ((p27 + p28) + p29);
    assert(l13 == t29);
    let l14 = l13 + p30;
    assert(l14 == t30);
    lemma_concat_associative(l14, p31, p32);
    lemma_concat_associative(l14 + p31, p32, p33);
    let l15 = l14 + ((p31 + p32) + p33);
    assert(l15 == t33);
    let l16 = l15 + p34;
    assert(l16 == t34);
    lemma_concat_associative(l16, p35, p36);
    lemma_concat_associative(l16 + p35, p36, p37);
    let l17 = l16 + ((p35 + p36) + p37);
    assert(l17 == t37);
    let l18 = l17 + p38;
    assert(l18 == t38);
    lemma_concat_associative(l18, p39, p40);
    lemma_concat_associative(l18 + p39, p40, p41);
    let l19 = l18 + ((p39 + p40) + p41);
    assert(l19 == t41);
    let l20 = l19 + p42;
    assert(l20 == t42);
    assert(enc_manifest(a) == l20);
    let rest0: Seq<char> = Seq::empty();
    assert(p42 + rest0 =~= p42);
    assert(m_fields1to4(a, m_fields5to10(a, rest0)) == s3);
    assert((p1 + s2).skip(1) =~= s2);
    assert(enc_manifest(a).skip(1) == s2);
    assert(s2 == p2 + s3);
}

/// Decoding the canonical encoding of a plugin manifest yields exactly
/// that manifest back.
#[verifier::rlimit(100)]
#[verifier::spinoff_prover]
pub proof fn lemma_manifest_roundtrip(a: ManifestView)
    ensures
        spec_decode_manifest(enc_manifest(a)) == Ok::<ManifestView, DecodeError>(a),
{
    let rest = Seq::<char>::empty();
    let body = enc_manifest(a);
    assert(body[0] == '{');
    assert(!is_ws('{'));
    assert(skip_ws(body) == body);
    let nxt = m_fields5to10(a, rest);
    lemma_enc_manifest_shape(a);
    assert(body.skip(1) == seq!['\n', ' ', ' '] + m_fields1to4(a, nxt));
    let f0 = body.len();
    assert(f0 >= 10);
    let acc0 = manifest_acc0();
    lemma_manifest_first4(a, acc0, nxt, f0);
    let acc4 = ManifestAcc { name: Some(a.name), description: Some(a.description), version: Some(a.version), author: Some(a.author), ..acc0 };
    lemma_manifest_last6(a, acc4, rest, (f0 - 4) as nat);
    let accn = ManifestAcc { homepage: a.homepage, keywords: a.keywords, commands: a.commands, agents: a.agents, skills: a.skills, hooks: a.hooks, ..acc4 };
    assert(manifest_fields(body.skip(1), acc0, f0) == Some::<(ManifestAcc, Seq<char>)>((accn, rest)));
    assert(skip_ws(rest).len() == 0);
    assert(manifest_fin(accn) matches Some(mm) && mm =~= a);
}

} // verus!
