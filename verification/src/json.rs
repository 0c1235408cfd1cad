//! A small JSON tree and a verified writer and parser for the wire form this
//! library exchanges with the service: values are `null`, booleans, strings,
//! arrays and objects. The writer emits the compact form — no whitespace,
//! every string escaped as JSON asks. The parser tolerates insignificant
//! whitespace, reads the named escapes and `u`-escapes of the basic plane
//! back, and rejects rather than mis-reads what is outside the grammar:
//! surrogate `u`-escapes, raw control characters, and numbers, which the
//! session schema never carries.

use vstd::prelude::*;
use vstd::string::*;

verus! {

/// A JSON value. `Obj` keeps its members in order of appearance; a lookup
/// takes the first member with a matching key.
#[derive(Debug)]
pub enum Json {
    Null,
    Bool(bool),
    Str(String),
    Arr(Vec<Json>),
    Obj(Vec<(String, Json)>),
}

/// Mathematical image of `Json`: strings as character sequences.
#[verifier::ext_equal]
pub ghost enum JsonView {
    Null,
    Bool(bool),
    Str(Seq<char>),
    Arr(Seq<JsonView>),
    Obj(Seq<(Seq<char>, JsonView)>),
}

/// The image of an array's elements.
pub open spec fn arr_view(a: Seq<Json>) -> Seq<JsonView>
    decreases a,
{
    Seq::new(
        a.len(),
        |i: int|
            if 0 <= i < a.len() {
                jview(a[i])
            } else {
                JsonView::Null
            },
    )
}

/// The image of an object's members.
pub open spec fn obj_view(m: Seq<(String, Json)>) -> Seq<(Seq<char>, JsonView)>
    decreases m,
{
    Seq::new(
        m.len(),
        |i: int|
            if 0 <= i < m.len() {
                (m[i].0@, jview(m[i].1))
            } else {
                (Seq::empty(), JsonView::Null)
            },
    )
}

/// The image of a JSON tree.
pub open spec fn jview(v: Json) -> JsonView
    decreases v,
{
    match v {
        Json::Null => JsonView::Null,
        Json::Bool(b) => JsonView::Bool(b),
        Json::Str(s) => JsonView::Str(s@),
        Json::Arr(a) => JsonView::Arr(arr_view(a@)),
        Json::Obj(m) => JsonView::Obj(obj_view(m@)),
    }
}

impl View for Json {
    type V = JsonView;

    open spec fn view(&self) -> JsonView {
        jview(*self)
    }
}

/// The lower-case hexadecimal digit of a value below sixteen.
pub open spec fn hex_digit(n: int) -> char {
    if n == 0 {
        '0'
    } else if n == 1 {
        '1'
    } else if n == 2 {
        '2'
    } else if n == 3 {
        '3'
    } else if n == 4 {
        '4'
    } else if n == 5 {
        '5'
    } else if n == 6 {
        '6'
    } else if n == 7 {
        '7'
    } else if n == 8 {
        '8'
    } else if n == 9 {
        '9'
    } else if n == 10 {
        'a'
    } else if n == 11 {
        'b'
    } else if n == 12 {
        'c'
    } else if n == 13 {
        'd'
    } else if n == 14 {
        'e'
    } else if n == 15 {
        'f'
    } else {
        '0'
    }
}

/// The value of a hexadecimal digit, either case; -1 for any other character.
pub open spec fn hex_val(c: char) -> int {
    if 48 <= c as u32 <= 57 {
        c as u32 - 48
    } else if 97 <= c as u32 <= 102 {
        c as u32 - 87
    } else if 65 <= c as u32 <= 70 {
        c as u32 - 55
    } else {
        -1
    }
}

/// The character whose code is `n`, for a valid code point.
pub open spec fn char_from_code(n: int) -> char {
    choose|c: char| (#[trigger] (c as u32)) == n
}

/// How one character of string content is written: the two-character escapes
/// of JSON for the quote, the backslash and the named control characters, a
/// `u`-escape for the remaining control characters, the character itself
/// otherwise.
pub open spec fn esc_char(c: char) -> Seq<char> {
    if c == '"' {
        seq!['\\', '"']
    } else if c == '\\' {
        seq!['\\', '\\']
    } else if c as u32 == 8 {
        seq!['\\', 'b']
    } else if c as u32 == 12 {
        seq!['\\', 'f']
    } else if c == '\n' {
        seq!['\\', 'n']
    } else if c == '\r' {
        seq!['\\', 'r']
    } else if c == '\t' {
        seq!['\\', 't']
    } else if (c as u32) < 32 {
        let hi = hex_digit(c as u32 as int / 16);
        let lo = hex_digit(c as u32 as int % 16);
        seq!['\\', 'u', '0', '0', hi, lo]
    } else {
        seq![c]
    }
}

/// String content, written: each character escaped as JSON asks.
pub open spec fn esc_string(t: Seq<char>) -> Seq<char>
    decreases t.len(),
{
    if t.len() == 0 {
        Seq::empty()
    } else {
        esc_char(t[0]) + esc_string(t.drop_first())
    }
}

/// Escaping distributes over concatenation.
proof fn lemma_esc_append(a: Seq<char>, b: Seq<char>)
    ensures
        esc_string(a + b) == esc_string(a) + esc_string(b),
    decreases a.len(),
{
    if a.len() == 0 {
        assert(a + b =~= b);
        assert(esc_string(a) + esc_string(b) =~= esc_string(b));
    } else {
        lemma_esc_append(a.drop_first(), b);
        assert((a + b).drop_first() =~= a.drop_first() + b);
        assert((a + b)[0] == a[0]);
        assert(esc_char(a[0]) + (esc_string(a.drop_first()) + esc_string(b)) =~= (esc_char(a[0])
            + esc_string(a.drop_first())) + esc_string(b));
    }
}

/// Writing one more character appends its escape.
proof fn lemma_esc_snoc(t: Seq<char>, i: int)
    requires
        0 <= i < t.len(),
    ensures
        esc_string(t.take(i + 1)) == esc_string(t.take(i)) + esc_char(t[i]),
{
    assert(t.take(i + 1) =~= t.take(i) + seq![t[i]]);
    lemma_esc_append(t.take(i), seq![t[i]]);
    let u = seq![t[i]];
    assert(u.drop_first() =~= Seq::<char>::empty());
    assert(esc_string(u.drop_first()) == Seq::<char>::empty());
    assert(esc_string(u) == esc_char(u[0]) + Seq::<char>::empty());
    assert(u[0] == t[i]);
    assert(esc_char(t[i]) + Seq::<char>::empty() =~= esc_char(t[i]));
    assert(esc_string(t.take(i)) + esc_string(u) =~= esc_string(t.take(i)) + esc_char(t[i]));
}

/// A quoted string, written: the escaped content between two quotes.
pub open spec fn print_string(t: Seq<char>) -> Seq<char> {
    seq!['"'] + esc_string(t) + seq!['"']
}

/// The compact text of a JSON value: no whitespace, members in order.
pub open spec fn print_json(v: JsonView) -> Seq<char>
    decreases v, 0int, 0int,
{
    match v {
        JsonView::Null => seq!['n', 'u', 'l', 'l'],
        JsonView::Bool(b) => if b {
            seq!['t', 'r', 'u', 'e']
        } else {
            seq!['f', 'a', 'l', 's', 'e']
        },
        JsonView::Str(t) => print_string(t),
        JsonView::Arr(a) => if a.len() == 0 {
            seq!['[', ']']
        } else {
            seq!['['] + print_elems(a, 0) + seq![']']
        },
        JsonView::Obj(m) => if m.len() == 0 {
            seq!['{', '}']
        } else {
            seq!['{'] + print_members(m, 0) + seq!['}']
        },
    }
}

/// The text of elements `k..` of a non-empty array, comma-separated.
pub open spec fn print_elems(a: Seq<JsonView>, k: int) -> Seq<char>
    decreases a, a.len() - k, 1int,
{
    if 0 <= k < a.len() {
        print_json(a[k]) + (if k + 1 < a.len() {
            seq![','] + print_elems(a, k + 1)
        } else {
            Seq::empty()
        })
    } else {
        Seq::empty()
    }
}

/// The text of members `k..` of a non-empty object, comma-separated.
pub open spec fn print_members(m: Seq<(Seq<char>, JsonView)>, k: int) -> Seq<char>
    decreases m, m.len() - k, 1int,
{
    if 0 <= k < m.len() {
        print_string(m[k].0) + seq![':'] + print_json(m[k].1) + (if k + 1 < m.len() {
            seq![','] + print_members(m, k + 1)
        } else {
            Seq::empty()
        })
    } else {
        Seq::empty()
    }
}

/// Relies on String::push: appends exactly the one character.
#[verifier::external_body]
fn push_char(out: &mut String, c: char)
    ensures
        final(out)@ == old(out)@ + seq![c],
{
    out.push(c)
}

/// The lower-case hexadecimal digit of a value below sixteen.
fn hex_char(n: u8) -> (r: char)
    requires
        n < 16,
    ensures
        r == hex_digit(n as int),
{
    match n {
        0 => '0',
        1 => '1',
        2 => '2',
        3 => '3',
        4 => '4',
        5 => '5',
        6 => '6',
        7 => '7',
        8 => '8',
        9 => '9',
        10 => 'a',
        11 => 'b',
        12 => 'c',
        13 => 'd',
        14 => 'e',
        _ => 'f',
    }
}

/// Appends the escaped content of `t` to `out`.
fn write_string_content(t: &str, out: &mut String)
    ensures
        final(out)@ == old(out)@ + esc_string(t@),
{
    let n = t.unicode_len();
    let mut i: usize = 0;
    while i < n
        invariant
            n == t@.len(),
            i <= n,
            out@ == old(out)@ + esc_string(t@.take(i as int)),
        decreases n - i,
    {
        proof {
            reveal_strlit("\\\"");
            reveal_strlit("\\\\");
            reveal_strlit("\\b");
            reveal_strlit("\\f");
            reveal_strlit("\\n");
            reveal_strlit("\\r");
            reveal_strlit("\\t");
            reveal_strlit("\\u00");
        }
        let c = t.get_char(i);
        let cv = c as u32;
        if c == '"' {
            out.append("\\\"");
            assert(out@ =~= old(out)@ + esc_string(t@.take(i as int)) + esc_char(c));
        } else if c == '\\' {
            out.append("\\\\");
            assert(out@ =~= old(out)@ + esc_string(t@.take(i as int)) + esc_char(c));
        } else if cv == 8 {
            out.append("\\b");
            assert(out@ =~= old(out)@ + esc_string(t@.take(i as int)) + esc_char(c));
        } else if cv == 12 {
            out.append("\\f");
            assert(out@ =~= old(out)@ + esc_string(t@.take(i as int)) + esc_char(c));
        } else if c == '\n' {
            out.append("\\n");
            assert(out@ =~= old(out)@ + esc_string(t@.take(i as int)) + esc_char(c));
        } else if c == '\r' {
            out.append("\\r");
            assert(out@ =~= old(out)@ + esc_string(t@.take(i as int)) + esc_char(c));
        } else if c == '\t' {
            out.append("\\t");
            assert(out@ =~= old(out)@ + esc_string(t@.take(i as int)) + esc_char(c));
        } else if cv < 32 {
            out.append("\\u00");
            let hi = hex_char((cv / 16) as u8);
            let lo = hex_char((cv % 16) as u8);
            push_char(out, hi);
            push_char(out, lo);
            proof {
                assert(hi == hex_digit(c as u32 as int / 16));
                assert(lo == hex_digit(c as u32 as int % 16));
                assert(out@ =~= old(out)@ + esc_string(t@.take(i as int)) + esc_char(c));
            }
        } else {
            push_char(out, c);
            assert(out@ =~= old(out)@ + esc_string(t@.take(i as int)) + esc_char(c));
        }
        proof {
            assert(out@ =~= old(out)@ + esc_string(t@.take(i as int)) + esc_char(t@[i as int]));
            lemma_esc_snoc(t@, i as int);
            assert(out@ =~= old(out)@ + esc_string(t@.take(i as int + 1)));
        }
        i = i + 1;
    }
    proof {
        assert(t@.take(n as int) =~= t@);
    }
}

/// Appends the quoted, escaped text of `t` to `out`.
fn write_string(t: &str, out: &mut String)
    ensures
        final(out)@ == old(out)@ + print_string(t@),
{
    proof {
        reveal_strlit("\"");
    }
    out.append("\"");
    write_string_content(t, out);
    out.append("\"");
    assert(out@ =~= old(out)@ + print_string(t@));
}

/// Appends the compact text of `v` to `out`.
pub fn write_json(v: &Json, out: &mut String)
    ensures
        final(out)@ == old(out)@ + print_json(jview(*v)),
    decreases jview(*v), 1int, 0int,
{
    match v {
        Json::Null => {
            proof {
                reveal_strlit("null");
            }
            out.append("null");
            assert(out@ =~= old(out)@ + print_json(jview(*v)));
        },
        Json::Bool(b) => {
            if *b {
                proof {
                    reveal_strlit("true");
                }
                out.append("true");
            } else {
                proof {
                    reveal_strlit("false");
                }
                out.append("false");
            }
            assert(out@ =~= old(out)@ + print_json(jview(*v)));
        },
        Json::Str(s) => {
            write_string(s.as_str(), out);
            assert(out@ =~= old(out)@ + print_json(jview(*v)));
        },
        Json::Arr(a) => {
            if a.len() == 0 {
                proof {
                    reveal_strlit("[]");
                }
                out.append("[]");
                assert(out@ =~= old(out)@ + print_json(jview(*v)));
            } else {
                proof {
                    reveal_strlit("[");
                    reveal_strlit("]");
                }
                out.append("[");
                write_elems(a, 0, out);
                out.append("]");
                assert(out@ =~= old(out)@ + print_json(jview(*v)));
            }
        },
        Json::Obj(m) => {
            if m.len() == 0 {
                proof {
                    reveal_strlit("{}");
                }
                out.append("{}");
                assert(out@ =~= old(out)@ + print_json(jview(*v)));
            } else {
                proof {
                    reveal_strlit("{");
                    reveal_strlit("}");
                }
                out.append("{");
                write_members(m, 0, out);
                out.append("}");
                assert(out@ =~= old(out)@ + print_json(jview(*v)));
            }
        },
    }
}

/// Appends the text of elements `k..` of a non-empty array.
fn write_elems(a: &Vec<Json>, k: usize, out: &mut String)
    requires
        k < a@.len(),
    ensures
        final(out)@ == old(out)@ + print_elems(arr_view(a@), k as int),
    decreases arr_view(a@), a@.len() - k, 1int,
{
    proof {
        assert(arr_view(a@)[k as int] == jview(a@[k as int]));
    }
    write_json(&a[k], out);
    if k < a.len() - 1 {
        proof {
            reveal_strlit(",");
        }
        out.append(",");
        write_elems(a, k + 1, out);
    }
    assert(out@ =~= old(out)@ + print_elems(arr_view(a@), k as int));
}

/// Appends the text of members `k..` of a non-empty object.
fn write_members(m: &Vec<(String, Json)>, k: usize, out: &mut String)
    requires
        k < m@.len(),
    ensures
        final(out)@ == old(out)@ + print_members(obj_view(m@), k as int),
    decreases obj_view(m@), m@.len() - k, 1int,
{
    proof {
        assert(obj_view(m@)[k as int] == (m@[k as int].0@, jview(m@[k as int].1)));
        assert(decreases_to!(obj_view(m@) => obj_view(m@)[k as int].1));
        reveal_strlit(":");
    }
    write_string(m[k].0.as_str(), out);
    out.append(":");
    write_json(&m[k].1, out);
    if k < m.len() - 1 {
        proof {
            reveal_strlit(",");
        }
        out.append(",");
        write_members(m, k + 1, out);
    }
    assert(out@ =~= old(out)@ + print_members(obj_view(m@), k as int));
}

/// An insignificant whitespace character of JSON.
pub open spec fn is_ws(c: char) -> bool {
    c == ' ' || c == '\t' || c == '\n' || c == '\r'
}

/// The first position at or after `i` that holds no whitespace.
pub open spec fn ws_end(s: Seq<char>, i: int) -> int
    decreases s.len() - i, 0int,
{
    if 0 <= i < s.len() && is_ws(s[i]) {
        ws_end(s, i + 1)
    } else {
        i
    }
}

/// Parses one escape sequence, `i` standing just past the backslash: the
/// named escapes of JSON, and a `u`-escape of four hexadecimal digits whose
/// code is no surrogate. Yields the character and the position past the
/// sequence.
pub open spec fn sp_escape(s: Seq<char>, i: int) -> Option<(char, int)> {
    if 0 <= i < s.len() {
        let c = s[i];
        if c == '"' {
            Some(('"', i + 1))
        } else if c == '\\' {
            Some(('\\', i + 1))
        } else if c == '/' {
            Some(('/', i + 1))
        } else if c == 'b' {
            Some(('\u{8}', i + 1))
        } else if c == 'f' {
            Some(('\u{c}', i + 1))
        } else if c == 'n' {
            Some(('\n', i + 1))
        } else if c == 'r' {
            Some(('\r', i + 1))
        } else if c == 't' {
            Some(('\t', i + 1))
        } else if c == 'u' {
            if i + 5 <= s.len() && hex_val(s[i + 1]) >= 0 && hex_val(s[i + 2]) >= 0 && hex_val(
                s[i + 3],
            ) >= 0 && hex_val(s[i + 4]) >= 0 {
                let n = hex_val(s[i + 1]) * 4096 + hex_val(s[i + 2]) * 256 + hex_val(s[i + 3])
                    * 16 + hex_val(s[i + 4]);
                if 0xD800 <= n < 0xE000 {
                    None
                } else {
                    Some((char_from_code(n), i + 5))
                }
            } else {
                None
            }
        } else {
            None
        }
    } else {
        None
    }
}

/// Parses the content of a quoted string, `i` standing just past the opening
/// quote. Yields the content and the position past the closing quote; fails
/// at a raw control character, an unknown escape or a missing closing quote.
pub open spec fn sp_string(s: Seq<char>, i: int) -> Option<(Seq<char>, int)>
    decreases s.len() - i, 0int,
{
    if 0 <= i < s.len() {
        if s[i] == '"' {
            Some((Seq::empty(), i + 1))
        } else if s[i] == '\\' {
            match sp_escape(s, i + 1) {
                Some((u, j)) => if i < j {
                    match sp_string(s, j) {
                        Some((t, e)) => Some((seq![u] + t, e)),
                        None => None,
                    }
                } else {
                    None
                },
                None => None,
            }
        } else if (s[i] as u32) < 32 {
            None
        } else {
            match sp_string(s, i + 1) {
                Some((t, j)) => Some((seq![s[i]] + t, j)),
                None => None,
            }
        }
    } else {
        None
    }
}

/// Parses one JSON value starting at `i`, yielding its image and the position
/// just past it.
pub open spec fn sp_value(s: Seq<char>, i: int) -> Option<(JsonView, int)>
    decreases s.len() - i, 1int,
{
    let i0 = ws_end(s, i);
    if i <= i0 && 0 <= i0 < s.len() {
        if s[i0] == 'n' {
            if i0 + 4 <= s.len() && s[i0 + 1] == 'u' && s[i0 + 2] == 'l' && s[i0 + 3] == 'l' {
                Some((JsonView::Null, i0 + 4))
            } else {
                None
            }
        } else if s[i0] == 't' {
            if i0 + 4 <= s.len() && s[i0 + 1] == 'r' && s[i0 + 2] == 'u' && s[i0 + 3] == 'e' {
                Some((JsonView::Bool(true), i0 + 4))
            } else {
                None
            }
        } else if s[i0] == 'f' {
            if i0 + 5 <= s.len() && s[i0 + 1] == 'a' && s[i0 + 2] == 'l' && s[i0 + 3] == 's'
                && s[i0 + 4] == 'e' {
                Some((JsonView::Bool(false), i0 + 5))
            } else {
                None
            }
        } else if s[i0] == '"' {
            match sp_string(s, i0 + 1) {
                Some((t, j)) => Some((JsonView::Str(t), j)),
                None => None,
            }
        } else if s[i0] == '[' {
            let i2 = ws_end(s, i0 + 1);
            if i0 < i2 && i2 < s.len() && s[i2] == ']' {
                Some((JsonView::Arr(Seq::empty()), i2 + 1))
            } else {
                match sp_elems(s, i0 + 1) {
                    Some((a, j)) => Some((JsonView::Arr(a), j)),
                    None => None,
                }
            }
        } else if s[i0] == '{' {
            let i2 = ws_end(s, i0 + 1);
            if i0 < i2 && i2 < s.len() && s[i2] == '}' {
                Some((JsonView::Obj(Seq::empty()), i2 + 1))
            } else {
                match sp_members(s, i0 + 1) {
                    Some((m, j)) => Some((JsonView::Obj(m), j)),
                    None => None,
                }
            }
        } else {
            None
        }
    } else {
        None
    }
}

/// Parses the elements of a non-empty array, up to and including the closing
/// bracket.
pub open spec fn sp_elems(s: Seq<char>, i: int) -> Option<(Seq<JsonView>, int)>
    decreases s.len() - i, 2int,
{
    match sp_value(s, i) {
        Some((v, j)) => if i < j {
            let j2 = ws_end(s, j);
            if j <= j2 && j2 < s.len() {
                if s[j2] == ',' {
                    match sp_elems(s, j2 + 1) {
                        Some((rest, k)) => Some((seq![v] + rest, k)),
                        None => None,
                    }
                } else if s[j2] == ']' {
                    Some((seq![v], j2 + 1))
                } else {
                    None
                }
            } else {
                None
            }
        } else {
            None
        },
        None => None,
    }
}

/// Parses the members of a non-empty object, up to and including the closing
/// brace.
pub open spec fn sp_members(s: Seq<char>, i: int) -> Option<(Seq<(Seq<char>, JsonView)>, int)>
    decreases s.len() - i, 2int,
{
    let i0 = ws_end(s, i);
    if i <= i0 && 0 <= i0 < s.len() && s[i0] == '"' {
        match sp_string(s, i0 + 1) {
            Some((key, j)) => if i0 + 1 < j {
                let j2 = ws_end(s, j);
                if j <= j2 && j2 < s.len() && s[j2] == ':' {
                    match sp_value(s, j2 + 1) {
                        Some((v, k)) => if j2 + 1 < k {
                            let k2 = ws_end(s, k);
                            if k <= k2 && k2 < s.len() {
                                if s[k2] == ',' {
                                    match sp_members(s, k2 + 1) {
                                        Some((rest, e)) => Some((seq![(key, v)] + rest, e)),
                                        None => None,
                                    }
                                } else if s[k2] == '}' {
                                    Some((seq![(key, v)], k2 + 1))
                                } else {
                                    None
                                }
                            } else {
                                None
                            }
                        } else {
                            None
                        },
                        None => None,
                    }
                } else {
                    None
                }
            } else {
                None
            },
            None => None,
        }
    } else {
        None
    }
}

/// The whole text as one JSON value, with nothing left over.
pub open spec fn spec_parse_json(t: Seq<char>) -> Option<JsonView> {
    match sp_value(t, 0) {
        Some((v, j)) => if ws_end(t, j) == t.len() {
            Some(v)
        } else {
            None
        },
        None => None,
    }
}

/// Relies on char::from_u32: yields the character with that code, and
/// nothing for a surrogate or an out-of-range value.
#[verifier::external_body]
fn char_of_u32(n: u32) -> (r: Option<char>)
    ensures
        (r is Some) == (n < 0xD800 || (0xE000 <= n && n <= 0x10FFFF)),
        r matches Some(c) ==> c as u32 == n,
{
    char::from_u32(n)
}

/// The value of a hexadecimal digit, either case; -1 for any other character.
fn hex_val_of(c: char) -> (r: i32)
    ensures
        r as int == hex_val(c),
{
    let cv = c as u32;
    if 48 <= cv && cv <= 57 {
        (cv - 48) as i32
    } else if 97 <= cv && cv <= 102 {
        (cv - 87) as i32
    } else if 65 <= cv && cv <= 70 {
        (cv - 55) as i32
    } else {
        -1
    }
}

/// The first position at or after `i` that holds no whitespace.
fn skip_ws(s: &str, i: usize, n: usize) -> (r: usize)
    requires
        n == s@.len(),
        i <= n,
    ensures
        r as int == ws_end(s@, i as int),
        i <= r <= n,
{
    let mut j = i;
    loop
        invariant
            n == s@.len(),
            i <= j <= n,
            ws_end(s@, i as int) == ws_end(s@, j as int),
        decreases n - j,
    {
        if j == n {
            return j;
        }
        let c = s.get_char(j);
        if c == ' ' || c == '\t' || c == '\n' || c == '\r' {
            j = j + 1;
        } else {
            return j;
        }
    }
}

/// Parses one escape sequence; `i` stands just past the backslash.
fn parse_escape(s: &str, i: usize, n: usize) -> (r: Option<(char, usize)>)
    requires
        n == s@.len(),
        i <= n,
    ensures
        match r {
            Some((c, j)) => sp_escape(s@, i as int) == Some((c, j as int)) && i < j <= n,
            None => sp_escape(s@, i as int) is None,
        },
{
    if i == n {
        return None;
    }
    let c = s.get_char(i);
    if c == '"' {
        Some(('"', i + 1))
    } else if c == '\\' {
        Some(('\\', i + 1))
    } else if c == '/' {
        Some(('/', i + 1))
    } else if c == 'b' {
        Some(('\u{8}', i + 1))
    } else if c == 'f' {
        Some(('\u{c}', i + 1))
    } else if c == 'n' {
        Some(('\n', i + 1))
    } else if c == 'r' {
        Some(('\r', i + 1))
    } else if c == 't' {
        Some(('\t', i + 1))
    } else if c == 'u' {
        if n - i >= 5 {
            let h1 = hex_val_of(s.get_char(i + 1));
            let h2 = hex_val_of(s.get_char(i + 2));
            let h3 = hex_val_of(s.get_char(i + 3));
            let h4 = hex_val_of(s.get_char(i + 4));
            if h1 >= 0 && h2 >= 0 && h3 >= 0 && h4 >= 0 {
                let code: u32 = (h1 as u32) * 4096 + (h2 as u32) * 256 + (h3 as u32) * 16 + (
                h4 as u32);
                match char_of_u32(code) {
                    Some(u) => {
                        proof {
                            assert(u as u32 == code);
                            assert(exists|c: char| (#[trigger] (c as u32)) == code as int) by {
                                assert((u as u32) == code as int);
                            }
                            assert(char_from_code(code as int) as u32 == code as int);
                            assert(u as u32 == char_from_code(code as int) as u32);
                            lemma_char_inj(u, char_from_code(code as int));
                        }
                        Some((u, i + 5))
                    },
                    None => None,
                }
            } else {
                None
            }
        } else {
            None
        }
    } else {
        None
    }
}

/// Parses the content of a quoted string; `i` stands just past the opening
/// quote.
fn parse_string(s: &str, i: usize, n: usize) -> (r: Option<(String, usize)>)
    requires
        n == s@.len(),
        i <= n,
    ensures
        match r {
            Some((t, e)) => sp_string(s@, i as int) == Some((t@, e as int)) && i < e <= n,
            None => sp_string(s@, i as int) is None,
        },
{
    let mut acc = String::new();
    let mut j = i;
    loop
        invariant
            n == s@.len(),
            i <= j <= n,
            forall|t: Seq<char>, e: int|
                sp_string(s@, j as int) == Some((t, e)) ==> sp_string(s@, i as int) == Some(
                    (acc@ + t, e),
                ),
            (sp_string(s@, j as int) is None) ==> (sp_string(s@, i as int) is None),
        decreases n - j,
    {
        if j == n {
            assert(sp_string(s@, j as int) is None);
            return None;
        }
        let c = s.get_char(j);
        if c == '"' {
            proof {
                assert(sp_string(s@, j as int) == Some((Seq::<char>::empty(), j + 1)));
                assert(acc@ + Seq::<char>::empty() =~= acc@);
            }
            return Some((acc, j + 1));
        }
        if c == '\\' {
            match parse_escape(s, j + 1, n) {
                Some((u, j2)) => {
                    proof {
                        assert forall|t: Seq<char>, e: int|
                            sp_string(s@, j2 as int) == Some((t, e)) implies sp_string(
                            s@,
                            i as int,
                        ) == Some(((acc@ + seq![u]) + t, e)) by {
                            assert(sp_string(s@, j as int) == Some((seq![u] + t, e)));
                            assert(acc@ + (seq![u] + t) =~= (acc@ + seq![u]) + t);
                        }
                        assert((sp_string(s@, j2 as int) is None) ==> (sp_string(
                            s@,
                            j as int,
                        ) is None));
                    }
                    push_char(&mut acc, u);
                    j = j2;
                },
                None => {
                    assert(sp_string(s@, j as int) is None);
                    return None;
                },
            }
        } else {
            let cv = c as u32;
            if cv < 32 {
                assert(sp_string(s@, j as int) is None);
                return None;
            }
            proof {
                assert forall|t: Seq<char>, e: int|
                    sp_string(s@, j as int + 1) == Some((t, e)) implies sp_string(s@, i as int)
                    == Some(((acc@ + seq![c]) + t, e)) by {
                    assert(sp_string(s@, j as int) == Some((seq![c] + t, e)));
                    assert(acc@ + (seq![c] + t) =~= (acc@ + seq![c]) + t);
                }
                assert((sp_string(s@, j as int + 1) is None) ==> (sp_string(
                    s@,
                    j as int,
                ) is None));
            }
            push_char(&mut acc, c);
            j = j + 1;
        }
    }
}

/// Parses one JSON value starting at `i`.
fn parse_value(s: &str, i: usize, n: usize) -> (r: Option<(Json, usize)>)
    requires
        n == s@.len(),
        i <= n,
    ensures
        match r {
            Some((v, j)) => sp_value(s@, i as int) == Some((jview(v), j as int)) && i < j <= n,
            None => sp_value(s@, i as int) is None,
        },
    decreases s@.len() - i, 0int,
{
    let i0 = skip_ws(s, i, n);
    if i0 == n {
        return None;
    }
    let c = s.get_char(i0);
    if c == 'n' {
        if n - i0 >= 4 && s.get_char(i0 + 1) == 'u' && s.get_char(i0 + 2) == 'l' && s.get_char(
            i0 + 3,
        ) == 'l' {
            Some((Json::Null, i0 + 4))
        } else {
            None
        }
    } else if c == 't' {
        if n - i0 >= 4 && s.get_char(i0 + 1) == 'r' && s.get_char(i0 + 2) == 'u' && s.get_char(
            i0 + 3,
        ) == 'e' {
            Some((Json::Bool(true), i0 + 4))
        } else {
            None
        }
    } else if c == 'f' {
        if n - i0 >= 5 && s.get_char(i0 + 1) == 'a' && s.get_char(i0 + 2) == 'l' && s.get_char(
            i0 + 3,
        ) == 's' && s.get_char(i0 + 4) == 'e' {
            Some((Json::Bool(false), i0 + 5))
        } else {
            None
        }
    } else if c == '"' {
        match parse_string(s, i0 + 1, n) {
            Some((t, j)) => Some((Json::Str(t), j)),
            None => None,
        }
    } else if c == '[' {
        let k = skip_ws(s, i0 + 1, n);
        if k < n && s.get_char(k) == ']' {
            let a: Vec<Json> = Vec::new();
            proof {
                assert(arr_view(a@) =~= Seq::<JsonView>::empty());
            }
            Some((Json::Arr(a), k + 1))
        } else {
            match parse_elems(s, i0 + 1, n) {
                Some((a, j)) => Some((Json::Arr(a), j)),
                None => None,
            }
        }
    } else if c == '{' {
        let k = skip_ws(s, i0 + 1, n);
        if k < n && s.get_char(k) == '}' {
            let m: Vec<(String, Json)> = Vec::new();
            proof {
                assert(obj_view(m@) =~= Seq::<(Seq<char>, JsonView)>::empty());
            }
            Some((Json::Obj(m), k + 1))
        } else {
            match parse_members(s, i0 + 1, n) {
                Some((m, j)) => Some((Json::Obj(m), j)),
                None => None,
            }
        }
    } else {
        None
    }
}

/// Parses the elements of a non-empty array.
fn parse_elems(s: &str, i: usize, n: usize) -> (r: Option<(Vec<Json>, usize)>)
    requires
        n == s@.len(),
        i <= n,
    ensures
        match r {
            Some((a, j)) => sp_elems(s@, i as int) == Some((arr_view(a@), j as int)) && i < j
                <= n,
            None => sp_elems(s@, i as int) is None,
        },
    decreases s@.len() - i, 1int,
{
    match parse_value(s, i, n) {
        None => None,
        Some((v, j)) => {
            let j2 = skip_ws(s, j, n);
            if j2 == n {
                return None;
            }
            let c = s.get_char(j2);
            if c == ',' {
                match parse_elems(s, j2 + 1, n) {
                    Some((mut rest, k)) => {
                        rest.insert(0, v);
                        proof {
                            assert(arr_view(rest@) =~= seq![jview(rest@[0])] + arr_view(
                                rest@.drop_first(),
                            ));
                        }
                        Some((rest, k))
                    },
                    None => None,
                }
            } else if c == ']' {
                let mut a: Vec<Json> = Vec::new();
                a.push(v);
                proof {
                    assert(arr_view(a@) =~= seq![jview(v)]);
                }
                Some((a, j2 + 1))
            } else {
                None
            }
        },
    }
}

/// Parses the members of a non-empty object.
fn parse_members(s: &str, i: usize, n: usize) -> (r: Option<(Vec<(String, Json)>, usize)>)
    requires
        n == s@.len(),
        i <= n,
    ensures
        match r {
            Some((m, j)) => sp_members(s@, i as int) == Some((obj_view(m@), j as int)) && i < j
                <= n,
            None => sp_members(s@, i as int) is None,
        },
    decreases s@.len() - i, 1int,
{
    let i0 = skip_ws(s, i, n);
    if i0 == n {
        return None;
    }
    if s.get_char(i0) != '"' {
        return None;
    }
    match parse_string(s, i0 + 1, n) {
        None => None,
        Some((key, j)) => {
            let j2 = skip_ws(s, j, n);
            if j2 == n {
                return None;
            }
            if s.get_char(j2) != ':' {
                return None;
            }
            match parse_value(s, j2 + 1, n) {
                None => None,
                Some((v, k)) => {
                    let k2 = skip_ws(s, k, n);
                    if k2 == n {
                        return None;
                    }
                    let c = s.get_char(k2);
                    if c == ',' {
                        match parse_members(s, k2 + 1, n) {
                            Some((mut rest, e)) => {
                                rest.insert(0, (key, v));
                                proof {
                                    assert(obj_view(rest@) =~= seq![
                                        (rest@[0].0@, jview(rest@[0].1)),
                                    ] + obj_view(rest@.drop_first()));
                                }
                                Some((rest, e))
                            },
                            None => None,
                        }
                    } else if c == '}' {
                        let mut m: Vec<(String, Json)> = Vec::new();
                        m.push((key, v));
                        proof {
                            assert(obj_view(m@) =~= seq![(m@[0].0@, jview(m@[0].1))]);
                        }
                        Some((m, k2 + 1))
                    } else {
                        None
                    }
                },
            }
        },
    }
}

/// Parses the whole text as one JSON value, with nothing left over.
pub fn parse_json(s: &str) -> (r: Option<Json>)
    ensures
        match r {
            Some(v) => spec_parse_json(s@) == Some(jview(v)),
            None => spec_parse_json(s@) is None,
        },
{
    let n = s.unicode_len();
    match parse_value(s, 0, n) {
        Some((v, j)) => if skip_ws(s, j, n) == n {
            Some(v)
        } else {
            None
        },
        None => None,
    }
}

/// Character-by-character string equality, settled against the views.
pub fn str_eq(a: &str, b: &str) -> (r: bool)
    ensures
        r == (a@ == b@),
{
    let na = a.unicode_len();
    let nb = b.unicode_len();
    if na != nb {
        return false;
    }
    let mut i: usize = 0;
    while i < na
        invariant
            na == a@.len(),
            nb == b@.len(),
            na == nb,
            i <= na,
            forall|k: int| 0 <= k < i ==> a@[k] == b@[k],
        decreases na - i,
    {
        if a.get_char(i) != b.get_char(i) {
            return false;
        }
        i = i + 1;
    }
    proof {
        assert(a@ =~= b@);
    }
    true
}

/// Printed values are at least two characters and start with a character that
/// names their kind.
proof fn lemma_print_head(v: JsonView)
    ensures
        print_json(v).len() >= 2,
        print_json(v)[0] == 'n' || print_json(v)[0] == 't' || print_json(v)[0] == 'f'
            || print_json(v)[0] == '"' || print_json(v)[0] == '[' || print_json(v)[0] == '{',
{
    match v {
        JsonView::Null => {},
        JsonView::Bool(_) => {},
        JsonView::Str(t) => {
            assert(print_json(v)[0] == '"');
        },
        JsonView::Arr(a) => {
            if a.len() > 0 {
                assert(print_json(v)[0] == '[');
            }
        },
        JsonView::Obj(m) => {
            if m.len() > 0 {
                assert(print_json(v)[0] == '{');
            }
        },
    }
}

/// Two characters with one code are one character.
proof fn lemma_char_inj(c: char, d: char)
    requires
        c as u32 == d as u32,
    ensures
        c == d,
{
}

/// Every character is the character of its own code.
proof fn lemma_char_code(c: char)
    ensures
        char_from_code(c as u32 as int) == c,
{
    assert(exists|d: char| (#[trigger] (d as u32)) == c as u32 as int) by {
        assert((c as u32) == c as u32 as int);
    }
    assert(char_from_code(c as u32 as int) as u32 == c as u32 as int);
    lemma_char_inj(c, char_from_code(c as u32 as int));
}

/// Reading back a written hexadecimal digit gives its value.
proof fn lemma_hex_round(k: int)
    requires
        0 <= k < 16,
    ensures
        hex_val(hex_digit(k)) == k,
{
}

/// Parsing written string content, the closing quote included, yields the
/// content back.
proof fn lemma_parse_print_string(t: Seq<char>, pre: Seq<char>, post: Seq<char>)
    ensures
        sp_string(pre + esc_string(t) + seq!['"'] + post, pre.len() as int) == Some(
            (t, pre.len() as int + esc_string(t).len() + 1),
        ),
    decreases t.len(),
{
    let es = esc_string(t);
    let s = pre + es + seq!['"'] + post;
    let i = pre.len() as int;
    if t.len() == 0 {
        assert(es =~= Seq::<char>::empty());
        assert(s[i] == '"');
        assert(sp_string(s, i) == Some((Seq::<char>::empty(), i + 1)));
        assert(Seq::<char>::empty() =~= t);
    } else {
        let c = t[0];
        let cv = c as u32;
        let t2 = t.drop_first();
        let ec = esc_char(c);
        let es2 = esc_string(t2);
        assert(es == ec + es2);
        lemma_parse_print_string(t2, pre + ec, post);
        assert((pre + ec) + es2 + seq!['"'] + post =~= s);
        let m = i + ec.len() as int;
        assert(sp_string(s, m) == Some((t2, m + es2.len() + 1)));
        assert forall|k: int| 0 <= k < ec.len() implies s[i + k] == ec[k] by {
            assert(((pre + ec) + es2 + seq!['"'] + post)[i + k] == (pre + ec)[i + k]);
            assert((pre + ec)[i + k] == ec[k]);
        }
        if c == '"' {
            assert(s[i] == '\\' && s[i + 1] == '"');
            assert(sp_escape(s, i + 1) == Some((c, m)));
        } else if c == '\\' {
            assert(s[i] == '\\' && s[i + 1] == '\\');
            assert(sp_escape(s, i + 1) == Some((c, m)));
        } else if cv == 8 {
            assert(s[i] == '\\' && s[i + 1] == 'b');
            lemma_char_code(c);
            assert('\u{8}' == c);
            assert(sp_escape(s, i + 1) == Some((c, m)));
        } else if cv == 12 {
            assert(s[i] == '\\' && s[i + 1] == 'f');
            lemma_char_code(c);
            assert('\u{c}' == c);
            assert(sp_escape(s, i + 1) == Some((c, m)));
        } else if c == '\n' {
            assert(s[i] == '\\' && s[i + 1] == 'n');
            assert(sp_escape(s, i + 1) == Some((c, m)));
        } else if c == '\r' {
            assert(s[i] == '\\' && s[i + 1] == 'r');
            assert(sp_escape(s, i + 1) == Some((c, m)));
        } else if c == '\t' {
            assert(s[i] == '\\' && s[i + 1] == 't');
            assert(sp_escape(s, i + 1) == Some((c, m)));
        } else if cv < 32 {
            assert(s[i] == '\\' && s[i + 1] == 'u' && s[i + 2] == '0' && s[i + 3] == '0');
            assert(s[i + 4] == hex_digit(cv as int / 16) && s[i + 5] == hex_digit(cv as int % 16));
            lemma_hex_round(cv as int / 16);
            lemma_hex_round(cv as int % 16);
            assert(hex_val(s[i + 2]) == 0 && hex_val(s[i + 3]) == 0);
            assert(hex_val(s[i + 2]) * 4096 + hex_val(s[i + 3]) * 256 + hex_val(s[i + 4]) * 16
                + hex_val(s[i + 5]) == cv as int);
            lemma_char_code(c);
            assert(sp_escape(s, i + 1) == Some((c, m)));
        } else {
            assert(s[i] == c);
            assert(c != '"' && c != '\\' && !(cv < 32));
        }
        assert(sp_string(s, i) == Some((seq![c] + t2, m + es2.len() + 1)));
        assert(seq![c] + t2 =~= t);
    }
}

/// Parsing a printed value, with anything around it, consumes exactly its
/// text and yields it back.
#[verifier::rlimit(100)]
proof fn lemma_parse_print(v: JsonView, pre: Seq<char>, post: Seq<char>)
    ensures
        sp_value(pre + print_json(v) + post, pre.len() as int) == Some(
            (v, pre.len() as int + print_json(v).len()),
        ),
    decreases v, 0int, 0int,
{
    let p = print_json(v);
    let s = pre + p + post;
    let i = pre.len() as int;
    assert forall|k: int| 0 <= k < p.len() implies s[i + k] == p[k] by {
        assert((pre + p)[i + k] == p[k]);
    }
    match v {
        JsonView::Null => {
            assert(s[i] == 'n' && s[i + 1] == 'u' && s[i + 2] == 'l' && s[i + 3] == 'l');
            assert(ws_end(s, i) == i);
        },
        JsonView::Bool(b) => {
            if b {
                assert(s[i] == 't' && s[i + 1] == 'r' && s[i + 2] == 'u' && s[i + 3] == 'e');
                assert(ws_end(s, i) == i);
            } else {
                assert(s[i] == 'f' && s[i + 1] == 'a' && s[i + 2] == 'l' && s[i + 3] == 's' && s[i
                    + 4] == 'e');
                assert(ws_end(s, i) == i);
            }
        },
        JsonView::Str(t) => {
            assert(s[i] == '"');
            assert(ws_end(s, i) == i);
            lemma_parse_print_string(t, pre + seq!['"'], post);
            assert((pre + seq!['"']) + esc_string(t) + seq!['"'] + post =~= s);
            assert(sp_string(s, i + 1) == Some((t, i + 1 + esc_string(t).len() + 1)));
            assert(p.len() == esc_string(t).len() + 2);
        },
        JsonView::Arr(a) => {
            if a.len() == 0 {
                assert(s[i] == '[' && s[i + 1] == ']');
                assert(ws_end(s, i) == i);
                assert(ws_end(s, i + 1) == i + 1);
                assert(a =~= Seq::<JsonView>::empty());
            } else {
                let pe = print_elems(a, 0);
                assert(p == seq!['['] + pe + seq![']']);
                assert(s[i] == '[');
                lemma_print_head(a[0]);
                assert(pe[0] == print_json(a[0])[0]);
                assert(s[i + 1] == pe[0]);
                assert(s[i + 1] != ']');
                assert(ws_end(s, i) == i);
                assert(ws_end(s, i + 1) == i + 1);
                lemma_parse_print_elems(a, 0, pre + seq!['['], post);
                assert((pre + seq!['[']) + pe + seq![']'] + post =~= s);
                assert(sp_elems(s, i + 1) == Some((a.subrange(0, a.len() as int), i + 1 + pe.len()
                    + 1)));
                assert(a.subrange(0, a.len() as int) =~= a);
                assert(p.len() == pe.len() + 2);
            }
        },
        JsonView::Obj(m) => {
            if m.len() == 0 {
                assert(s[i] == '{' && s[i + 1] == '}');
                assert(ws_end(s, i) == i);
                assert(ws_end(s, i + 1) == i + 1);
                assert(m =~= Seq::<(Seq<char>, JsonView)>::empty());
            } else {
                let pm = print_members(m, 0);
                assert(p == seq!['{'] + pm + seq!['}']);
                assert(s[i] == '{');
                assert(pm[0] == '"');
                assert(s[i + 1] == pm[0]);
                assert(s[i + 1] != '}');
                assert(ws_end(s, i) == i);
                assert(ws_end(s, i + 1) == i + 1);
                lemma_parse_print_members(m, 0, pre + seq!['{'], post);
                assert((pre + seq!['{']) + pm + seq!['}'] + post =~= s);
                assert(sp_members(s, i + 1) == Some((m.subrange(0, m.len() as int), i + 1
                    + pm.len() + 1)));
                assert(m.subrange(0, m.len() as int) =~= m);
                assert(p.len() == pm.len() + 2);
            }
        },
    }
}

/// Parsing printed elements `k..`, the closing bracket included, yields those
/// elements back.
proof fn lemma_parse_print_elems(a: Seq<JsonView>, k: int, pre: Seq<char>, post: Seq<char>)
    requires
        0 <= k < a.len(),
    ensures
        sp_elems(pre + print_elems(a, k) + seq![']'] + post, pre.len() as int) == Some(
            (a.subrange(k, a.len() as int), pre.len() as int + print_elems(a, k).len() + 1),
        ),
    decreases a, a.len() - k, 0int,
{
    let pe = print_elems(a, k);
    let pj = print_json(a[k]);
    let s = pre + pe + seq![']'] + post;
    let i = pre.len() as int;
    lemma_print_head(a[k]);
    if k + 1 == a.len() {
        assert(pe == pj + Seq::<char>::empty());
        assert(pe =~= pj);
        lemma_parse_print(a[k], pre, seq![']'] + post);
        assert(pre + pj + (seq![']'] + post) =~= s);
        let j = i + pj.len() as int;
        assert(sp_value(s, i) == Some((a[k], j)));
        assert(s[j] == (seq![']'] + post)[0]);
        assert(s[j] == ']');
        assert(ws_end(s, j) == j);
        assert(sp_elems(s, i) == Some((seq![a[k]], j + 1)));
        assert(seq![a[k]] =~= a.subrange(k, a.len() as int));
    } else {
        let pe2 = print_elems(a, k + 1);
        assert(pe == pj + (seq![','] + pe2));
        lemma_parse_print(a[k], pre, seq![','] + pe2 + seq![']'] + post);
        assert(pre + pj + (seq![','] + pe2 + seq![']'] + post) =~= s);
        let j = i + pj.len() as int;
        assert(sp_value(s, i) == Some((a[k], j)));
        assert(s[j] == (seq![','] + pe2 + seq![']'] + post)[0]);
        assert(s[j] == ',');
        assert(ws_end(s, j) == j);
        lemma_parse_print_elems(a, k + 1, pre + pj + seq![','], post);
        assert((pre + pj + seq![',']) + pe2 + seq![']'] + post =~= s);
        let end = j + 1 + pe2.len() as int + 1;
        assert(sp_elems(s, j + 1) == Some((a.subrange(k + 1, a.len() as int), end)));
        assert(sp_elems(s, i) == Some((seq![a[k]] + a.subrange(k + 1, a.len() as int), end)));
        assert(seq![a[k]] + a.subrange(k + 1, a.len() as int) =~= a.subrange(k, a.len() as int));
        assert(pe.len() == pj.len() + 1 + pe2.len());
    }
}

/// Parsing the last printed member, the closing brace included, yields it
/// back.
#[verifier::rlimit(100)]
#[verifier::spinoff_prover]
proof fn lemma_parse_print_members_last(
    m: Seq<(Seq<char>, JsonView)>,
    k: int,
    pre: Seq<char>,
    post: Seq<char>,
)
    requires
        0 <= k < m.len(),
        k + 1 == m.len(),
    ensures
        sp_members(pre + print_members(m, k) + seq!['}'] + post, pre.len() as int) == Some(
            (m.subrange(k, m.len() as int), pre.len() as int + print_members(m, k).len() + 1),
        ),
    decreases m, m.len() - k, 0int,
{
    let key = m[k].0;
    let v = m[k].1;
    let pm = print_members(m, k);
    let pj = print_json(v);
    let s = pre + pm + seq!['}'] + post;
    let i = pre.len() as int;
    lemma_print_head(v);
    let tail: Seq<char> = if k + 1 < m.len() {
        seq![','] + print_members(m, k + 1)
    } else {
        Seq::empty()
    };
    assert(pm == print_string(key) + seq![':'] + pj + tail);
    assert(s[i] == pm[0]) by {
        assert((pre + pm)[i] == pm[0]);
    }
    assert(pm[0] == '"');
    assert(ws_end(s, i) == i);
    lemma_parse_print_string(key, pre + seq!['"'], seq![':'] + pj + tail + seq!['}'] + post);
    assert((pre + seq!['"']) + esc_string(key) + seq!['"'] + (seq![':'] + pj + tail + seq!['}']
        + post) =~= s);
    let j = i + esc_string(key).len() as int + 2;
    assert(sp_string(s, i + 1) == Some((key, j)));
    assert(s[j] == ':') by {
        assert((pre + print_string(key)) + (seq![':'] + pj + tail + seq!['}'] + post) =~= s);
        assert(s[j] == (seq![':'] + pj + tail + seq!['}'] + post)[0]);
    }
    assert(ws_end(s, j) == j);
    lemma_parse_print(v, pre + print_string(key) + seq![':'], tail + seq!['}'] + post);
    assert((pre + print_string(key) + seq![':']) + pj + (tail + seq!['}'] + post) =~= s);
    let e = j + 1 + pj.len() as int;
    assert(sp_value(s, j + 1) == Some((v, e)));
    assert(tail =~= Seq::<char>::empty());
    assert(s[e] == '}') by {
        assert((pre + print_string(key) + seq![':'] + pj) + (seq!['}'] + post) =~= s);
        assert(s[e] == (seq!['}'] + post)[0]);
    }
    assert(ws_end(s, e) == e);
    assert((key, v) == m[k]);
    assert(sp_members(s, i) == Some((seq![m[k]], e + 1)));
    assert(seq![m[k]] =~= m.subrange(k, m.len() as int));
    assert(pm.len() == esc_string(key).len() + 3 + pj.len());
}

/// Parsing a printed member followed by more members yields them all back.
#[verifier::rlimit(100)]
proof fn lemma_parse_print_members_rest(
    m: Seq<(Seq<char>, JsonView)>,
    k: int,
    pre: Seq<char>,
    post: Seq<char>,
)
    requires
        0 <= k < m.len(),
        k + 1 < m.len(),
    ensures
        sp_members(pre + print_members(m, k) + seq!['}'] + post, pre.len() as int) == Some(
            (m.subrange(k, m.len() as int), pre.len() as int + print_members(m, k).len() + 1),
        ),
    decreases m, m.len() - k, 0int,
{
    let key = m[k].0;
    let v = m[k].1;
    let pm = print_members(m, k);
    let pj = print_json(v);
    let s = pre + pm + seq!['}'] + post;
    let i = pre.len() as int;
    lemma_print_head(v);
    let tail: Seq<char> = if k + 1 < m.len() {
        seq![','] + print_members(m, k + 1)
    } else {
        Seq::empty()
    };
    assert(pm == print_string(key) + seq![':'] + pj + tail);
    assert(s[i] == pm[0]) by {
        assert((pre + pm)[i] == pm[0]);
    }
    assert(pm[0] == '"');
    assert(ws_end(s, i) == i);
    lemma_parse_print_string(key, pre + seq!['"'], seq![':'] + pj + tail + seq!['}'] + post);
    assert((pre + seq!['"']) + esc_string(key) + seq!['"'] + (seq![':'] + pj + tail + seq!['}']
        + post) =~= s);
    let j = i + esc_string(key).len() as int + 2;
    assert(sp_string(s, i + 1) == Some((key, j)));
    assert(s[j] == ':') by {
        assert((pre + print_string(key)) + (seq![':'] + pj + tail + seq!['}'] + post) =~= s);
        assert(s[j] == (seq![':'] + pj + tail + seq!['}'] + post)[0]);
    }
    assert(ws_end(s, j) == j);
    lemma_parse_print(v, pre + print_string(key) + seq![':'], tail + seq!['}'] + post);
    assert((pre + print_string(key) + seq![':']) + pj + (tail + seq!['}'] + post) =~= s);
    let e = j + 1 + pj.len() as int;
    assert(sp_value(s, j + 1) == Some((v, e)));
    let pm2 = print_members(m, k + 1);
    assert(tail == seq![','] + pm2);
    assert(s[e] == ',') by {
        assert((pre + print_string(key) + seq![':'] + pj) + (seq![','] + pm2 + seq!['}']
            + post) =~= s);
        assert(s[e] == (seq![','] + pm2 + seq!['}'] + post)[0]);
    }
    assert(ws_end(s, e) == e);
    lemma_parse_print_members(m, k + 1, pre + print_string(key) + seq![':'] + pj + seq![','],
        post);
    assert((pre + print_string(key) + seq![':'] + pj + seq![',']) + pm2 + seq!['}'] + post
        =~= s);
    let end = e + 1 + pm2.len() as int + 1;
    assert(sp_members(s, e + 1) == Some((m.subrange(k + 1, m.len() as int), end)));
    assert((key, v) == m[k]);
    assert(sp_members(s, i) == Some((seq![m[k]] + m.subrange(k + 1, m.len() as int), end)));
    assert(seq![m[k]] + m.subrange(k + 1, m.len() as int) =~= m.subrange(k, m.len() as int));
    assert(pm.len() == esc_string(key).len() + 3 + pj.len() + 1 + pm2.len());
}

/// Parsing printed members `k..`, the closing brace included, yields those
/// members back.
proof fn lemma_parse_print_members(
    m: Seq<(Seq<char>, JsonView)>,
    k: int,
    pre: Seq<char>,
    post: Seq<char>,
)
    requires
        0 <= k < m.len(),
    ensures
        sp_members(pre + print_members(m, k) + seq!['}'] + post, pre.len() as int) == Some(
            (m.subrange(k, m.len() as int), pre.len() as int + print_members(m, k).len() + 1),
        ),
    decreases m, m.len() - k, 1int,
{
    if k + 1 == m.len() {
        lemma_parse_print_members_last(m, k, pre, post);
    } else {
        lemma_parse_print_members_rest(m, k, pre, post);
    }
}

/// Law: parsing the printed text of any value yields back exactly that
/// value.
pub proof fn lemma_print_parse_round_trip(v: JsonView)
    ensures
        spec_parse_json(print_json(v)) == Some(v),
{
    lemma_parse_print(v, Seq::empty(), Seq::empty());
    assert(Seq::<char>::empty() + print_json(v) + Seq::<char>::empty() =~= print_json(v));
    assert(ws_end(print_json(v), print_json(v).len() as int) == print_json(v).len() as int);
}

/// The value under the first member with key `key`, if any.
pub open spec fn obj_get(m: Seq<(Seq<char>, JsonView)>, key: Seq<char>) -> Option<JsonView>
    decreases m.len(),
{
    if m.len() == 0 {
        None
    } else if m[0].0 == key {
        Some(m[0].1)
    } else {
        obj_get(m.drop_first(), key)
    }
}

/// A lookup that passed the first `i` members without a match may start there.
proof fn lemma_obj_get_skip(m: Seq<(Seq<char>, JsonView)>, key: Seq<char>, i: int)
    requires
        0 <= i <= m.len(),
        forall|k: int| 0 <= k < i ==> m[k].0 != key,
    ensures
        obj_get(m, key) == obj_get(m.skip(i), key),
    decreases i,
{
    if i > 0 {
        lemma_obj_get_skip(m, key, i - 1);
        assert(m.skip(i - 1).drop_first() =~= m.skip(i));
        assert(m.skip(i - 1)[0] == m[i - 1]);
    } else {
        assert(m.skip(0) =~= m);
    }
}

/// Index of the first member of `m` whose key is `key`.
pub fn obj_find(m: &Vec<(String, Json)>, key: &str) -> (r: Option<usize>)
    ensures
        match r {
            Some(idx) => idx < m@.len() && m@[idx as int].0@ == key@ && obj_get(
                obj_view(m@),
                key@,
            ) == Some(jview(m@[idx as int].1)),
            None => obj_get(obj_view(m@), key@) is None,
        },
{
    let mut i: usize = 0;
    while i < m.len()
        invariant
            i <= m@.len(),
            forall|k: int| 0 <= k < i ==> obj_view(m@)[k].0 != key@,
        decreases m@.len() - i,
    {
        if str_eq(m[i].0.as_str(), key) {
            proof {
                lemma_obj_get_skip(obj_view(m@), key@, i as int);
                assert(obj_view(m@).skip(i as int)[0] == obj_view(m@)[i as int]);
            }
            return Some(i);
        }
        i = i + 1;
    }
    proof {
        lemma_obj_get_skip(obj_view(m@), key@, m@.len() as int);
        assert(obj_view(m@).skip(m@.len() as int) =~= Seq::<(Seq<char>, JsonView)>::empty());
    }
    None
}

} // verus!

