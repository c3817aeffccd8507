//! A JSON syntax tree and a verified parser for it.
//!
//! The grammar is stated once, as spec functions over the character
//! sequence, and the executable parser is proved to return exactly what
//! the spec functions say.  A number keeps its lexeme: the typed
//! decoding layer decides which numeric values it accepts.

use crate::text::push_char;
use vstd::prelude::*;

verus! {

broadcast use vstd::seq::axiom_seq_index_decreases, vstd::std_specs::vec::axiom_vec_decreases_to_view;

/// A JSON value.  Object members are kept in document order.
pub enum Json {
    Null,
    Bool(bool),
    Num(String),
    Str(String),
    Arr(Vec<Json>),
    Obj(Vec<(String, Json)>),
}

/// The mathematical value of a `Json` tree.
pub enum JVal {
    Null,
    Bool(bool),
    Num(Seq<char>),
    Str(Seq<char>),
    Arr(Seq<JVal>),
    Obj(Seq<(Seq<char>, JVal)>),
}

/// The view of a `Json` tree.  The range guards inside the closures
/// keep the recursion on elements of the vectors, which the
/// termination check needs; out-of-range indices never occur.
pub open spec fn jview(j: Json) -> JVal
    decreases j,
{
    match j {
        Json::Null => JVal::Null,
        Json::Bool(b) => JVal::Bool(b),
        Json::Num(s) => JVal::Num(s@),
        Json::Str(s) => JVal::Str(s@),
        Json::Arr(items) => JVal::Arr(
            Seq::new(
                items@.len(),
                |i: int|
                    if 0 <= i < items@.len() {
                        jview(items@[i])
                    } else {
                        JVal::Null
                    },
            ),
        ),
        Json::Obj(members) => JVal::Obj(
            Seq::new(
                members@.len(),
                |i: int|
                    if 0 <= i < members@.len() {
                        (members@[i].0@, jview(members@[i].1))
                    } else {
                        (Seq::empty(), JVal::Null)
                    },
            ),
        ),
    }
}

impl View for Json {
    type V = JVal;

    open spec fn view(&self) -> JVal {
        jview(*self)
    }
}

/// JSON insignificant whitespace.
pub open spec fn is_ws(c: char) -> bool {
    c == ' ' || c == '\t' || c == '\n' || c == '\r'
}

/// The first index at or after `i` holding no whitespace.
pub open spec fn skip_ws(s: Seq<char>, i: int) -> int
    decreases s.len() - i,
{
    if 0 <= i < s.len() && is_ws(s[i]) {
        skip_ws(s, i + 1)
    } else {
        i
    }
}

/// An ASCII decimal digit.
pub open spec fn is_digit(c: char) -> bool {
    '0' <= c && c <= '9'
}

/// The value of a decimal digit.
pub open spec fn digit_val(c: char) -> int {
    c as int - '0' as int
}

/// An ASCII hexadecimal digit.
pub open spec fn is_hex(c: char) -> bool {
    is_digit(c) || ('a' <= c && c <= 'f') || ('A' <= c && c <= 'F')
}

/// The value of a hexadecimal digit.
pub open spec fn hex_val(c: char) -> int {
    if is_digit(c) {
        digit_val(c)
    } else if 'a' <= c && c <= 'f' {
        c as int - 'a' as int + 10
    } else {
        c as int - 'A' as int + 10
    }
}

/// Four hexadecimal digits stand at `i`.
pub open spec fn valid_hex4(s: Seq<char>, i: int) -> bool {
    &&& 0 <= i
    &&& i + 4 <= s.len()
    &&& is_hex(s[i])
    &&& is_hex(s[i + 1])
    &&& is_hex(s[i + 2])
    &&& is_hex(s[i + 3])
}

/// The value of the four hexadecimal digits at `i`.
pub open spec fn hex4_val(s: Seq<char>, i: int) -> int {
    hex_val(s[i]) * 0x1000 + hex_val(s[i + 1]) * 0x100 + hex_val(s[i + 2]) * 0x10 + hex_val(
        s[i + 3],
    )
}

/// Prepends a character to the content of a string parse.
pub open spec fn str_cons(c: char, rest: Option<(Seq<char>, int)>) -> Option<(Seq<char>, int)> {
    match rest {
        Some((cs, j)) => Some((seq![c] + cs, j)),
        None => None,
    }
}

/// Parses the body of a JSON string, starting after the opening quote;
/// yields the decoded content and the index after the closing quote.
pub open spec fn parse_str_body(s: Seq<char>, i: int) -> Option<(Seq<char>, int)>
    decreases s.len() - i,
{
    if i < 0 || i >= s.len() {
        None
    } else if s[i] == '"' {
        Some((Seq::empty(), i + 1))
    } else if s[i] == '\\' {
        if i + 1 >= s.len() {
            None
        } else {
            let e = s[i + 1];
            if e == '"' || e == '\\' || e == '/' {
                str_cons(e, parse_str_body(s, i + 2))
            } else if e == 'b' {
                str_cons('\u{8}', parse_str_body(s, i + 2))
            } else if e == 'f' {
                str_cons('\u{c}', parse_str_body(s, i + 2))
            } else if e == 'n' {
                str_cons('\n', parse_str_body(s, i + 2))
            } else if e == 'r' {
                str_cons('\r', parse_str_body(s, i + 2))
            } else if e == 't' {
                str_cons('\t', parse_str_body(s, i + 2))
            } else if e == 'u' {
                if !valid_hex4(s, i + 2) {
                    None
                } else {
                    let h = hex4_val(s, i + 2);
                    if 0xD800 <= h < 0xDC00 {
                        // a high surrogate must pair with a low one
                        if i + 12 <= s.len() && s[i + 6] == '\\' && s[i + 7] == 'u' && valid_hex4(
                            s,
                            i + 8,
                        ) {
                            let l = hex4_val(s, i + 8);
                            if 0xDC00 <= l < 0xE000 {
                                let cp = 0x10000 + (h - 0xD800) * 0x400 + (l - 0xDC00);
                                str_cons((cp as u32) as char, parse_str_body(s, i + 12))
                            } else {
                                None
                            }
                        } else {
                            None
                        }
                    } else if 0xDC00 <= h < 0xE000 {
                        // a lone low surrogate
                        None
                    } else {
                        str_cons((h as u32) as char, parse_str_body(s, i + 6))
                    }
                }
            } else {
                None
            }
        }
    } else if (s[i] as u32) < 0x20 {
        // unescaped control characters are not allowed
        None
    } else {
        str_cons(s[i], parse_str_body(s, i + 1))
    }
}

/// The first index at or after `i` holding no decimal digit.
pub open spec fn scan_digits(s: Seq<char>, i: int) -> int
    decreases s.len() - i,
{
    if 0 <= i < s.len() && is_digit(s[i]) {
        scan_digits(s, i + 1)
    } else {
        i
    }
}

/// The index just after the number starting at `i`, when a well-formed
/// JSON number starts there: an optional minus, an integer part with no
/// leading zero, an optional fraction, an optional exponent.
pub open spec fn parse_number_end(s: Seq<char>, i: int) -> Option<int> {
    if i < 0 {
        None
    } else {
        let j0 = if i < s.len() && s[i] == '-' {
            i + 1
        } else {
            i
        };
        if j0 >= s.len() || !is_digit(s[j0]) {
            None
        } else {
            let j1 = if s[j0] == '0' {
                j0 + 1
            } else {
                scan_digits(s, j0)
            };
            let frac = if j1 < s.len() && s[j1] == '.' {
                if j1 + 1 < s.len() && is_digit(s[j1 + 1]) {
                    Some(scan_digits(s, j1 + 1))
                } else {
                    None
                }
            } else {
                Some(j1)
            };
            match frac {
                None => None,
                Some(j2) => {
                    if j2 < s.len() && (s[j2] == 'e' || s[j2] == 'E') {
                        let j3 = if j2 + 1 < s.len() && (s[j2 + 1] == '+' || s[j2 + 1] == '-') {
                            j2 + 2
                        } else {
                            j2 + 1
                        };
                        if j3 < s.len() && is_digit(s[j3]) {
                            Some(scan_digits(s, j3))
                        } else {
                            None
                        }
                    } else {
                        Some(j2)
                    }
                },
            }
        }
    }
}

/// Parses the number starting at `i`: its lexeme and the index after it.
pub open spec fn parse_number(s: Seq<char>, i: int) -> Option<(Seq<char>, int)> {
    match parse_number_end(s, i) {
        Some(e) => Some((s.subrange(i, e), e)),
        None => None,
    }
}

/// Parses one JSON value starting exactly at `i` (no leading
/// whitespace): the value and the index just after it.
pub open spec fn parse_value(s: Seq<char>, i: int) -> Option<(JVal, int)>
    decreases s.len() - i, 0int,
{
    if i < 0 || i >= s.len() {
        None
    } else {
        let c = s[i];
        if c == '{' {
            let j = skip_ws(s, i + 1);
            if j <= i || j > s.len() {
                None
            } else if j < s.len() && s[j] == '}' {
                Some((JVal::Obj(Seq::empty()), j + 1))
            } else {
                match parse_members(s, j) {
                    Some((ms, k)) => Some((JVal::Obj(ms), k)),
                    None => None,
                }
            }
        } else if c == '[' {
            let j = skip_ws(s, i + 1);
            if j <= i || j > s.len() {
                None
            } else if j < s.len() && s[j] == ']' {
                Some((JVal::Arr(Seq::empty()), j + 1))
            } else {
                match parse_elements(s, j) {
                    Some((es, k)) => Some((JVal::Arr(es), k)),
                    None => None,
                }
            }
        } else if c == '"' {
            match parse_str_body(s, i + 1) {
                Some((cs, j)) => Some((JVal::Str(cs), j)),
                None => None,
            }
        } else if c == 't' {
            if i + 4 <= s.len() && s[i + 1] == 'r' && s[i + 2] == 'u' && s[i + 3] == 'e' {
                Some((JVal::Bool(true), i + 4))
            } else {
                None
            }
        } else if c == 'f' {
            if i + 5 <= s.len() && s[i + 1] == 'a' && s[i + 2] == 'l' && s[i + 3] == 's' && s[i + 4]
                == 'e' {
                Some((JVal::Bool(false), i + 5))
            } else {
                None
            }
        } else if c == 'n' {
            if i + 4 <= s.len() && s[i + 1] == 'u' && s[i + 2] == 'l' && s[i + 3] == 'l' {
                Some((JVal::Null, i + 4))
            } else {
                None
            }
        } else if c == '-' || is_digit(c) {
            match parse_number(s, i) {
                Some((cs, j)) => Some((JVal::Num(cs), j)),
                None => None,
            }
        } else {
            None
        }
    }
}

/// Parses the comma-separated values of a non-empty array, starting at
/// the first value, up to and including the closing bracket.
pub open spec fn parse_elements(s: Seq<char>, i: int) -> Option<(Seq<JVal>, int)>
    decreases s.len() - i, 1int,
{
    if i < 0 || i >= s.len() {
        None
    } else {
        match parse_value(s, i) {
            None => None,
            Some((v, j)) => {
                let k = skip_ws(s, j);
                if k < s.len() && s[k] == ',' {
                    let n = skip_ws(s, k + 1);
                    if n <= i || n > s.len() {
                        None
                    } else {
                        match parse_elements(s, n) {
                            Some((vs, m)) => Some((seq![v] + vs, m)),
                            None => None,
                        }
                    }
                } else if k < s.len() && s[k] == ']' {
                    Some((seq![v], k + 1))
                } else {
                    None
                }
            },
        }
    }
}

/// Parses the members of a non-empty object, starting at the first key's
/// opening quote, up to and including the closing brace.
pub open spec fn parse_members(s: Seq<char>, i: int) -> Option<(Seq<(Seq<char>, JVal)>, int)>
    decreases s.len() - i, 1int,
{
    if i < 0 || i >= s.len() {
        None
    } else if s[i] != '"' {
        None
    } else {
        match parse_str_body(s, i + 1) {
            None => None,
            Some((key, j)) => {
                let k = skip_ws(s, j);
                if !(k < s.len() && s[k] == ':') {
                    None
                } else {
                    let n = skip_ws(s, k + 1);
                    if n <= i || n > s.len() {
                        None
                    } else {
                        match parse_value(s, n) {
                            None => None,
                            Some((v, m)) => {
                                let p = skip_ws(s, m);
                                if p < s.len() && s[p] == ',' {
                                    let q = skip_ws(s, p + 1);
                                    if q <= i || q > s.len() {
                                        None
                                    } else {
                                        match parse_members(s, q) {
                                            Some((ms, e)) => Some((seq![(key, v)] + ms, e)),
                                            None => None,
                                        }
                                    }
                                } else if p < s.len() && s[p] == '}' {
                                    Some((seq![(key, v)], p + 1))
                                } else {
                                    None
                                }
                            },
                        }
                    }
                }
            },
        }
    }
}

/// Parses a complete JSON document: one value, surrounded by nothing
/// but whitespace.
pub open spec fn spec_parse_json(s: Seq<char>) -> Option<JVal> {
    let i = skip_ws(s, 0);
    match parse_value(s, i) {
        Some((v, j)) => {
            if skip_ws(s, j) == s.len() {
                Some(v)
            } else {
                None
            }
        },
        None => None,
    }
}

/// The views of a vector of array items.
pub open spec fn items_view(v: Seq<Json>) -> Seq<JVal> {
    Seq::new(v.len(), |i: int| jview(v[i]))
}

/// The views of a vector of object members.
pub open spec fn members_view(v: Seq<(String, Json)>) -> Seq<(Seq<char>, JVal)> {
    Seq::new(v.len(), |i: int| (v[i].0@, jview(v[i].1)))
}

/// The view of an array is the sequence of its items' views.
pub proof fn lemma_jview_arr(items: Vec<Json>)
    ensures
        jview(Json::Arr(items)) == JVal::Arr(items_view(items@)),
{
    assert(jview(Json::Arr(items))->Arr_0 =~= items_view(items@));
}

/// The view of an object is the sequence of its members' views.
pub proof fn lemma_jview_obj(members: Vec<(String, Json)>)
    ensures
        jview(Json::Obj(members)) == JVal::Obj(members_view(members@)),
{
    assert(jview(Json::Obj(members))->Obj_0 =~= members_view(members@));
}

/// The value of the first member named `key`, if any.
pub open spec fn obj_get(ms: Seq<(Seq<char>, JVal)>, key: Seq<char>) -> Option<JVal>
    decreases ms.len(),
{
    if ms.len() == 0 {
        None
    } else if ms[0].0 == key {
        Some(ms[0].1)
    } else {
        obj_get(ms.drop_first(), key)
    }
}

/// An optional string member: `Some(None)` when absent or null,
/// `Some(Some(..))` when a string, `None` when any other value.
pub open spec fn opt_str_field(ms: Seq<(Seq<char>, JVal)>, key: Seq<char>) -> Option<
    Option<Seq<char>>,
> {
    match obj_get(ms, key) {
        None => Some(None),
        Some(JVal::Null) => Some(None),
        Some(JVal::Str(s)) => Some(Some(s)),
        Some(_) => None,
    }
}

/// A mandatory string member: `Some` exactly when present as a string.
pub open spec fn req_str_field(ms: Seq<(Seq<char>, JVal)>, key: Seq<char>) -> Option<Seq<char>> {
    match obj_get(ms, key) {
        Some(JVal::Str(s)) => Some(s),
        _ => None,
    }
}

/// Every character is a decimal digit.
pub open spec fn all_digits(s: Seq<char>) -> bool {
    forall|i: int| 0 <= i < s.len() ==> is_digit(s[i])
}

/// The numeric value of a digit string, most significant digit first.
pub open spec fn digits_value(s: Seq<char>) -> int
    decreases s.len(),
{
    if s.len() == 0 {
        0
    } else {
        digits_value(s.drop_last()) * 10 + digit_val(s.last())
    }
}

/// The `usize` a lexeme denotes: defined exactly for nonempty all-digit
/// lexemes whose value fits.
pub open spec fn spec_parse_usize(s: Seq<char>) -> Option<int> {
    if s.len() > 0 && all_digits(s) && digits_value(s) <= usize::MAX {
        Some(digits_value(s))
    } else {
        None
    }
}

proof fn lemma_digits_value_nonneg(s: Seq<char>)
    requires
        all_digits(s),
    ensures
        digits_value(s) >= 0,
    decreases s.len(),
{
    if s.len() > 0 {
        assert(all_digits(s.drop_last()));
        lemma_digits_value_nonneg(s.drop_last());
    }
}

proof fn lemma_digits_prefix_le(s: Seq<char>, k: int)
    requires
        0 <= k <= s.len(),
        all_digits(s),
    ensures
        digits_value(s.take(k)) <= digits_value(s),
    decreases s.len() - k,
{
    if k < s.len() {
        assert(s.take(k + 1).drop_last() =~= s.take(k));
        assert(all_digits(s.take(k)));
        lemma_digits_value_nonneg(s.take(k));
        assert(digits_value(s.take(k + 1)) == digits_value(s.take(k)) * 10 + digit_val(s[k]));
        lemma_digits_prefix_le(s, k + 1);
    } else {
        assert(s.take(k) =~= s);
    }
}

/// Parses a nonnegative decimal integer, rejecting anything that is not
/// all digits and anything that does not fit in a `usize`.
pub fn parse_usize(s: &str) -> (r: Option<usize>)
    ensures
        spec_parse_usize(s@) matches Some(v) ==> (r matches Some(u) && u as int == v),
        spec_parse_usize(s@) is None ==> r is None,
{
    let n = s.unicode_len();
    if n == 0 {
        return None;
    }
    let q: usize = usize::MAX / 10;
    let m: usize = usize::MAX % 10;
    proof {
        vstd::arithmetic::div_mod::lemma_fundamental_div_mod(usize::MAX as int, 10);
    }
    let mut acc: usize = 0;
    let mut i: usize = 0;
    while i < n
        invariant
            i <= n,
            n == s@.len(),
            all_digits(s@.take(i as int)),
            acc as int == digits_value(s@.take(i as int)),
            q == usize::MAX / 10,
            m == usize::MAX % 10,
            usize::MAX as int == (q as int) * 10 + m as int,
        decreases n - i,
    {
        let c = s.get_char(i);
        if !is_digit_exec(c) {
            return None;
        }
        let d: usize = ((c as u32) - 48) as usize;
        proof {
            assert(d as int == digit_val(c));
            assert(s@.take(i + 1).drop_last() =~= s@.take(i as int));
            assert(s@.take(i + 1).last() == s@[i as int]);
        }
        if acc > q || (acc == q && d > m) {
            proof {
                assert((acc as int) * 10 + (d as int) > usize::MAX as int) by (nonlinear_arith)
                    requires
                        (acc as int) > (q as int) || (acc as int == q as int && (d as int) > (m as int)),
                        usize::MAX as int == (q as int) * 10 + m as int,
                        (m as int) <= 9,
                        (d as int) >= 0,
                ;
                assert(digits_value(s@.take(i + 1)) > usize::MAX);
                if all_digits(s@) {
                    lemma_digits_prefix_le(s@, i + 1);
                }
            }
            return None;
        }
        proof {
            assert((acc as int) * 10 + (d as int) <= usize::MAX as int) by (nonlinear_arith)
                requires
                    (acc as int) < (q as int) || (acc as int == q as int && (d as int) <= (m as int)),
                    usize::MAX as int == (q as int) * 10 + m as int,
                    0 <= (d as int) <= 9,
                    (acc as int) >= 0,
            ;
        }
        acc = acc * 10 + d;
        i += 1;
    }
    proof {
        assert(s@.take(n as int) =~= s@);
    }
    Some(acc)
}

/// Looks up the first member named `key`.
pub fn obj_get_exec<'a>(ms: &'a Vec<(String, Json)>, key: &str) -> (r: Option<&'a Json>)
    ensures
        obj_get(members_view(ms@), key@) is None ==> r is None,
        obj_get(members_view(ms@), key@) matches Some(jv) ==> (r matches Some(v) && jview(*v)
            == jv),
{
    let ghost mv = members_view(ms@);
    proof {
        assert(mv.skip(0) =~= mv);
    }
    let mut i: usize = 0;
    while i < ms.len()
        invariant
            i <= ms@.len(),
            mv == members_view(ms@),
            obj_get(mv, key@) == obj_get(mv.skip(i as int), key@),
        decreases ms@.len() - i,
    {
        if crate::text::str_eq(ms[i].0.as_str(), key) {
            proof {
                assert(mv.skip(i as int)[0] == mv[i as int]);
            }
            return Some(&ms[i].1);
        }
        proof {
            assert(mv.skip(i as int)[0] == mv[i as int]);
            assert(mv.skip(i as int).drop_first() =~= mv.skip(i + 1));
        }
        i += 1;
    }
    proof {
        assert(mv.skip(ms@.len() as int) =~= Seq::<(Seq<char>, JVal)>::empty());
    }
    None
}

/// Reads an optional string member: absent or null is `Some(None)`, a
/// string is cloned, any other value refuses.
pub fn opt_str_field_exec(ms: &Vec<(String, Json)>, key: &str) -> (r: Option<Option<String>>)
    ensures
        opt_str_field(members_view(ms@), key@) is None ==> r is None,
        opt_str_field(members_view(ms@), key@) matches Some(o) ==> (r matches Some(e) && (match e {
            Some(s) => o matches Some(os) && s@ == os,
            None => o is None,
        })),
{
    match obj_get_exec(ms, key) {
        None => Some(None),
        Some(v) => match v {
            Json::Null => Some(None),
            Json::Str(s) => Some(Some(s.clone())),
            _ => None,
        },
    }
}

/// Reads a mandatory string member: refuses when absent or not a
/// string.
pub fn req_str_field_exec(ms: &Vec<(String, Json)>, key: &str) -> (r: Option<String>)
    ensures
        req_str_field(members_view(ms@), key@) is None ==> r is None,
        req_str_field(members_view(ms@), key@) matches Some(cs) ==> (r matches Some(s) && s@
            == cs),
{
    match obj_get_exec(ms, key) {
        None => None,
        Some(v) => match v {
            Json::Str(s) => Some(s.clone()),
            _ => None,
        },
    }
}

fn is_ws_exec(c: char) -> (r: bool)
    ensures
        r == is_ws(c),
{
    c == ' ' || c == '\t' || c == '\n' || c == '\r'
}

fn is_digit_exec(c: char) -> (r: bool)
    ensures
        r == is_digit(c),
{
    let u = c as u32;
    48 <= u && u <= 57
}

fn is_hex_exec(c: char) -> (r: bool)
    ensures
        r == is_hex(c),
{
    let u = c as u32;
    (48 <= u && u <= 57) || (97 <= u && u <= 102) || (65 <= u && u <= 70)
}

fn hex_val_exec(c: char) -> (r: u32)
    requires
        is_hex(c),
    ensures
        r as int == hex_val(c),
        r < 16,
{
    let u = c as u32;
    if 48 <= u && u <= 57 {
        u - 48
    } else if 97 <= u && u <= 102 {
        u - 97 + 10
    } else {
        u - 65 + 10
    }
}

/// Relies on char::from_u32: every Unicode scalar value (a code point
/// outside the surrogate range) is Some.
#[verifier::external_body]
fn char_from_u32(u: u32) -> (r: char)
    requires
        u < 0xD800 || (0xE000 <= u && u <= 0x10FFFF),
    ensures
        r == (u as char),
{
    char::from_u32(u).unwrap()
}

fn skip_ws_exec(s: &Vec<char>, i: usize) -> (r: usize)
    requires
        i <= s@.len(),
    ensures
        r as int == skip_ws(s@, i as int),
        i <= r <= s@.len(),
{
    let mut j = i;
    while j < s.len() && is_ws_exec(s[j])
        invariant
            i <= j <= s@.len(),
            skip_ws(s@, i as int) == skip_ws(s@, j as int),
        decreases s@.len() - j,
    {
        j += 1;
    }
    j
}

fn scan_digits_exec(s: &Vec<char>, i: usize) -> (r: usize)
    requires
        i <= s@.len(),
    ensures
        r as int == scan_digits(s@, i as int),
        i <= r <= s@.len(),
{
    let mut j = i;
    while j < s.len() && is_digit_exec(s[j])
        invariant
            i <= j <= s@.len(),
            scan_digits(s@, i as int) == scan_digits(s@, j as int),
        decreases s@.len() - j,
    {
        j += 1;
    }
    j
}

fn hex4_exec(s: &Vec<char>, i: usize) -> (r: u32)
    requires
        valid_hex4(s@, i as int),
        i + 4 <= s@.len(),
    ensures
        r as int == hex4_val(s@, i as int),
        r <= 0xFFFF,
{
    let n = s.len();
    assert(n == s@.len());
    let a = hex_val_exec(s[i]);
    let b = hex_val_exec(s[i + 1]);
    let c = hex_val_exec(s[i + 2]);
    let d = hex_val_exec(s[i + 3]);
    a * 0x1000 + b * 0x100 + c * 0x10 + d
}

fn parse_str_body_exec(s: &Vec<char>, i: usize) -> (r: Option<(String, usize)>)
    requires
        i <= s@.len(),
    ensures
        parse_str_body(s@, i as int) is None ==> r is None,
        parse_str_body(s@, i as int) matches Some((cs, j)) ==> (r matches Some(p) && p.0@ == cs
            && p.1 as int == j && p.1 <= s@.len()),
{
    let ghost orig = parse_str_body(s@, i as int);
    let mut acc = String::new();
    let mut cur = i;
    loop
        invariant
            i <= cur <= s@.len(),
            orig == parse_str_body(s@, i as int),
            match parse_str_body(s@, cur as int) {
                Some((cs, j)) => orig == Some::<(Seq<char>, int)>((acc@ + cs, j)),
                None => orig is None,
            },
        decreases s@.len() - cur,
    {
        if cur >= s.len() {
            return None;
        }
        let c = s[cur];
        let ghost acc_before = acc@;
        let ghost cur_before = cur as int;
        if c == '"' {
            proof {
                assert(acc@ + Seq::<char>::empty() =~= acc@);
            }
            return Some((acc, cur + 1));
        } else if c == '\\' {
            if cur + 1 >= s.len() {
                return None;
            }
            let e = s[cur + 1];
            if e == '"' || e == '\\' || e == '/' {
                push_char(&mut acc, e);
                cur = cur + 2;
            } else if e == 'b' {
                push_char(&mut acc, '\u{8}');
                cur = cur + 2;
            } else if e == 'f' {
                push_char(&mut acc, '\u{c}');
                cur = cur + 2;
            } else if e == 'n' {
                push_char(&mut acc, '\n');
                cur = cur + 2;
            } else if e == 'r' {
                push_char(&mut acc, '\r');
                cur = cur + 2;
            } else if e == 't' {
                push_char(&mut acc, '\t');
                cur = cur + 2;
            } else if e == 'u' {
                if s.len() - cur < 6 {
                    return None;
                }
                if !(is_hex_exec(s[cur + 2]) && is_hex_exec(s[cur + 3]) && is_hex_exec(s[cur + 4])
                    && is_hex_exec(s[cur + 5])) {
                    return None;
                }
                let h = hex4_exec(s, cur + 2);
                if 0xD800 <= h && h < 0xDC00 {
                    if s.len() - cur < 12 {
                        return None;
                    }
                    if !(s[cur + 6] == '\\' && s[cur + 7] == 'u') {
                        return None;
                    }
                    if !(is_hex_exec(s[cur + 8]) && is_hex_exec(s[cur + 9]) && is_hex_exec(
                        s[cur + 10],
                    ) && is_hex_exec(s[cur + 11])) {
                        return None;
                    }
                    let l = hex4_exec(s, cur + 8);
                    if !(0xDC00 <= l && l < 0xE000) {
                        return None;
                    }
                    let cp: u32 = 0x10000 + (h - 0xD800) * 0x400 + (l - 0xDC00);
                    let ch = char_from_u32(cp);
                    push_char(&mut acc, ch);
                    cur = cur + 12;
                } else if 0xDC00 <= h && h < 0xE000 {
                    return None;
                } else {
                    let ch = char_from_u32(h);
                    push_char(&mut acc, ch);
                    cur = cur + 6;
                }
            } else {
                return None;
            }
        } else if (c as u32) < 0x20 {
            return None;
        } else {
            push_char(&mut acc, c);
            cur = cur + 1;
        }
        proof {
            let stepped = parse_str_body(s@, cur_before);
            let after = parse_str_body(s@, cur as int);
            assert(acc@ =~= acc_before + seq![acc@.last()]);
            match after {
                Some((cs, j)) => {
                    assert(acc_before + (seq![acc@.last()] + cs) =~= acc@ + cs);
                },
                None => {},
            }
        }
    }
}

fn parse_number_exec(s: &Vec<char>, i: usize) -> (r: Option<(String, usize)>)
    requires
        i <= s@.len(),
    ensures
        parse_number(s@, i as int) is None ==> r is None,
        parse_number(s@, i as int) matches Some((cs, j)) ==> (r matches Some(p) && p.0@ == cs
            && p.1 as int == j && p.1 <= s@.len()),
{
    let j0 = if i < s.len() && s[i] == '-' {
        i + 1
    } else {
        i
    };
    if j0 >= s.len() {
        return None;
    }
    if !is_digit_exec(s[j0]) {
        return None;
    }
    let j1 = if s[j0] == '0' {
        j0 + 1
    } else {
        scan_digits_exec(s, j0)
    };
    let frac_ok: bool;
    let j2: usize;
    if j1 < s.len() && s[j1] == '.' {
        if j1 + 1 < s.len() && is_digit_exec(s[j1 + 1]) {
            j2 = scan_digits_exec(s, j1 + 1);
            frac_ok = true;
        } else {
            j2 = 0;
            frac_ok = false;
        }
    } else {
        j2 = j1;
        frac_ok = true;
    }
    if !frac_ok {
        return None;
    }
    let e: usize;
    if j2 < s.len() && (s[j2] == 'e' || s[j2] == 'E') {
        let j3 = if j2 + 1 < s.len() && (s[j2 + 1] == '+' || s[j2 + 1] == '-') {
            j2 + 2
        } else {
            j2 + 1
        };
        if j3 < s.len() && is_digit_exec(s[j3]) {
            e = scan_digits_exec(s, j3);
        } else {
            return None;
        }
    } else {
        e = j2;
    }
    let mut lex = String::new();
    let mut t = i;
    while t < e
        invariant
            i <= t <= e,
            e <= usize::MAX,
            e <= s@.len(),
            lex@ == s@.subrange(i as int, t as int),
        decreases e - t,
    {
        push_char(&mut lex, s[t]);
        proof {
            assert(lex@ =~= s@.subrange(i as int, t + 1));
        }
        t += 1;
    }
    Some((lex, e))
}

fn parse_value_exec(s: &Vec<char>, i: usize) -> (r: Option<(Json, usize)>)
    requires
        i <= s@.len(),
    ensures
        parse_value(s@, i as int) is None ==> r is None,
        parse_value(s@, i as int) matches Some((jv, j)) ==> (r matches Some(p) && p.0@ == jv
            && p.1 as int == j && p.1 <= s@.len()),
    decreases s@.len() - i, 0int,
{
    if i >= s.len() {
        return None;
    }
    let c = s[i];
    if c == '{' {
        let j = skip_ws_exec(s, i + 1);
        if j < s.len() && s[j] == '}' {
            let empty: Vec<(String, Json)> = Vec::new();
            proof {
                lemma_jview_obj(empty);
                assert(members_view(empty@) =~= Seq::<(Seq<char>, JVal)>::empty());
            }
            return Some((Json::Obj(empty), j + 1));
        }
        match parse_members_exec(s, j) {
            Some((ms, k)) => {
                proof {
                    lemma_jview_obj(ms);
                }
                Some((Json::Obj(ms), k))
            },
            None => None,
        }
    } else if c == '[' {
        let j = skip_ws_exec(s, i + 1);
        if j < s.len() && s[j] == ']' {
            let empty: Vec<Json> = Vec::new();
            proof {
                lemma_jview_arr(empty);
                assert(items_view(empty@) =~= Seq::<JVal>::empty());
            }
            return Some((Json::Arr(empty), j + 1));
        }
        match parse_elements_exec(s, j) {
            Some((es, k)) => {
                proof {
                    lemma_jview_arr(es);
                }
                Some((Json::Arr(es), k))
            },
            None => None,
        }
    } else if c == '"' {
        match parse_str_body_exec(s, i + 1) {
            Some((cs, j)) => Some((Json::Str(cs), j)),
            None => None,
        }
    } else if c == 't' {
        if s.len() - i >= 4 && s[i + 1] == 'r' && s[i + 2] == 'u' && s[i + 3] == 'e' {
            Some((Json::Bool(true), i + 4))
        } else {
            None
        }
    } else if c == 'f' {
        if s.len() - i >= 5 && s[i + 1] == 'a' && s[i + 2] == 'l' && s[i + 3] == 's' && s[i + 4]
            == 'e' {
            Some((Json::Bool(false), i + 5))
        } else {
            None
        }
    } else if c == 'n' {
        if s.len() - i >= 4 && s[i + 1] == 'u' && s[i + 2] == 'l' && s[i + 3] == 'l' {
            Some((Json::Null, i + 4))
        } else {
            None
        }
    } else if c == '-' || is_digit_exec(c) {
        match parse_number_exec(s, i) {
            Some((cs, j)) => Some((Json::Num(cs), j)),
            None => None,
        }
    } else {
        None
    }
}

fn parse_elements_exec(s: &Vec<char>, i: usize) -> (r: Option<(Vec<Json>, usize)>)
    requires
        i <= s@.len(),
    ensures
        parse_elements(s@, i as int) is None ==> r is None,
        parse_elements(s@, i as int) matches Some((vs, k)) ==> (r matches Some(p) && items_view(
            p.0@,
        ) == vs && p.1 as int == k && p.1 <= s@.len()),
    decreases s@.len() - i, 1int,
{
    if i >= s.len() {
        return None;
    }
    match parse_value_exec(s, i) {
        None => None,
        Some((v, j)) => {
            let k = skip_ws_exec(s, j);
            if k < s.len() && s[k] == ',' {
                let n = skip_ws_exec(s, k + 1);
                if n <= i {
                    return None;
                }
                match parse_elements_exec(s, n) {
                    Some((vs, m)) => {
                        let ghost tail = items_view(vs@);
                        let mut vs = vs;
                        vs.insert(0, v);
                        proof {
                            assert(items_view(vs@) =~= seq![jview(v)] + tail);
                        }
                        Some((vs, m))
                    },
                    None => None,
                }
            } else if k < s.len() && s[k] == ']' {
                let mut vs: Vec<Json> = Vec::new();
                vs.push(v);
                proof {
                    assert(items_view(vs@) =~= seq![jview(v)]);
                }
                Some((vs, k + 1))
            } else {
                None
            }
        },
    }
}

fn parse_members_exec(s: &Vec<char>, i: usize) -> (r: Option<(Vec<(String, Json)>, usize)>)
    requires
        i <= s@.len(),
    ensures
        parse_members(s@, i as int) is None ==> r is None,
        parse_members(s@, i as int) matches Some((ms, k)) ==> (r matches Some(p) && members_view(
            p.0@,
        ) == ms && p.1 as int == k && p.1 <= s@.len()),
    decreases s@.len() - i, 1int,
{
    if i >= s.len() {
        return None;
    }
    if s[i] != '"' {
        return None;
    }
    match parse_str_body_exec(s, i + 1) {
        None => None,
        Some((key, j)) => {
            let k = skip_ws_exec(s, j);
            if !(k < s.len() && s[k] == ':') {
                return None;
            }
            let n = skip_ws_exec(s, k + 1);
            if n <= i {
                return None;
            }
            match parse_value_exec(s, n) {
                None => None,
                Some((v, m)) => {
                    let p = skip_ws_exec(s, m);
                    if p < s.len() && s[p] == ',' {
                        let q = skip_ws_exec(s, p + 1);
                        if q <= i {
                            return None;
                        }
                        match parse_members_exec(s, q) {
                            Some((ms, e)) => {
                                let ghost tail = members_view(ms@);
                                let ghost kv = (key@, jview(v));
                                let mut ms = ms;
                                ms.insert(0, (key, v));
                                proof {
                                    assert(members_view(ms@) =~= seq![kv] + tail);
                                }
                                Some((ms, e))
                            },
                            None => None,
                        }
                    } else if p < s.len() && s[p] == '}' {
                        let ghost kv = (key@, jview(v));
                        let mut ms: Vec<(String, Json)> = Vec::new();
                        ms.push((key, v));
                        proof {
                            assert(members_view(ms@) =~= seq![kv]);
                        }
                        Some((ms, p + 1))
                    } else {
                        None
                    }
                },
            }
        },
    }
}

/// Parses a complete JSON document from text: exactly what
/// `spec_parse_json` says of the character sequence.
pub fn parse_json(s: &str) -> (r: Option<Json>)
    ensures
        spec_parse_json(s@) is None ==> r is None,
        spec_parse_json(s@) matches Some(jv) ==> (r matches Some(j) && j@ == jv),
{
    let n = s.unicode_len();
    let mut cs: Vec<char> = Vec::new();
    let mut t: usize = 0;
    while t < n
        invariant
            t <= n,
            n == s@.len(),
            cs@ == s@.subrange(0, t as int),
        decreases n - t,
    {
        let ch = s.get_char(t);
        cs.push(ch);
        proof {
            assert(cs@ =~= s@.subrange(0, t + 1));
        }
        t += 1;
    }
    proof {
        assert(s@.subrange(0, n as int) =~= s@);
    }
    let i = skip_ws_exec(&cs, 0);
    match parse_value_exec(&cs, i) {
        Some((v, j)) => {
            let e = skip_ws_exec(&cs, j);
            if e == cs.len() {
                Some(v)
            } else {
                None
            }
        },
        None => None,
    }
}

} // verus!
