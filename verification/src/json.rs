use vstd::prelude::*;

verus! {

broadcast use vstd::std_specs::vec::group_vec_axioms;

/// A parsed JSON value. Numbers keep their literal text: the library
/// never needs them as machine floats, and the text form is exact.
#[derive(Debug)]
pub enum Json {
    Null,
    Bool(bool),
    Num(Vec<u8>),
    Str(Vec<u8>),
    Arr(Vec<Json>),
    Obj(Vec<(Vec<u8>, Json)>),
}

/// The mathematical shadow of `Json`, used by specifications.
pub enum JVal {
    Null,
    Bool(bool),
    Num(Seq<u8>),
    Str(Seq<u8>),
    Arr(Seq<JVal>),
    Obj(Seq<(Seq<u8>, JVal)>),
}

/// The value a `Json` tree denotes.
pub open spec fn json_view(j: Json) -> JVal
    decreases j,
{
    match j {
        Json::Null => JVal::Null,
        Json::Bool(b) => JVal::Bool(b),
        Json::Num(t) => JVal::Num(t@),
        Json::Str(t) => JVal::Str(t@),
        Json::Arr(v) => JVal::Arr(json_view_arr(v@)),
        Json::Obj(v) => JVal::Obj(json_view_obj(v@)),
    }
}

pub open spec fn json_view_arr(v: Seq<Json>) -> Seq<JVal>
    decreases v,
{
    if v.len() == 0 {
        Seq::empty()
    } else {
        json_view_arr(v.drop_last()).push(json_view(v.last()))
    }
}

pub open spec fn json_view_obj(v: Seq<(Vec<u8>, Json)>) -> Seq<(Seq<u8>, JVal)>
    decreases v,
{
    if v.len() == 0 {
        Seq::empty()
    } else {
        json_view_obj(v.drop_last()).push((v.last().0@, json_view(v.last().1)))
    }
}

/// Mapping a tree's members to their views keeps length and order.
pub proof fn lemma_json_view_arr(v: Seq<Json>)
    ensures
        json_view_arr(v).len() == v.len(),
        forall|i: int| 0 <= i < v.len() ==> json_view_arr(v)[i] == json_view(v[i]),
    decreases v.len(),
{
    if v.len() > 0 {
        lemma_json_view_arr(v.drop_last());
    }
}

pub proof fn lemma_json_view_obj(v: Seq<(Vec<u8>, Json)>)
    ensures
        json_view_obj(v).len() == v.len(),
        forall|i: int|
            0 <= i < v.len() ==> json_view_obj(v)[i] == (v[i].0@, json_view(v[i].1)),
    decreases v.len(),
{
    if v.len() > 0 {
        lemma_json_view_obj(v.drop_last());
    }
}

pub open spec fn spec_is_ws(b: u8) -> bool {
    b == 32 || b == 9 || b == 10 || b == 13
}

/// The first position at or after `i` that holds no whitespace.
pub open spec fn spec_skip_ws(s: Seq<u8>, i: int) -> int
    decreases s.len() - i,
{
    if 0 <= i < s.len() && spec_is_ws(s[i]) {
        spec_skip_ws(s, i + 1)
    } else {
        i
    }
}

fn is_ws(b: u8) -> (r: bool)
    ensures
        r == spec_is_ws(b),
{
    b == 32 || b == 9 || b == 10 || b == 13
}

fn skip_ws(s: &[u8], i: usize) -> (r: usize)
    requires
        i <= s@.len(),
    ensures
        r as int == spec_skip_ws(s@, i as int),
        i <= r <= s@.len(),
{
    let mut j = i;
    while j < s.len() && is_ws(s[j])
        invariant
            i <= j <= s@.len(),
            spec_skip_ws(s@, i as int) == spec_skip_ws(s@, j as int),
        decreases s@.len() - j,
    {
        j = j + 1;
    }
    j
}

/// The first position at or after `i` that holds no decimal digit.
pub open spec fn spec_digits_end(s: Seq<u8>, i: int) -> int
    decreases s.len() - i,
{
    if 0 <= i < s.len() && crate::date::spec_is_ascii_digit(s[i]) {
        spec_digits_end(s, i + 1)
    } else {
        i
    }
}

fn is_digit(b: u8) -> (r: bool)
    ensures
        r == crate::date::spec_is_ascii_digit(b),
{
    48 <= b && b <= 57
}

fn digits_end(s: &[u8], i: usize) -> (r: usize)
    requires
        i <= s@.len(),
    ensures
        r as int == spec_digits_end(s@, i as int),
        i <= r <= s@.len(),
        i < s@.len() && crate::date::spec_is_ascii_digit(s@[i as int]) ==> r > i,
{
    let mut j = i;
    while j < s.len() && is_digit(s[j])
        invariant
            i <= j <= s@.len(),
            spec_digits_end(s@, i as int) == spec_digits_end(s@, j as int),
        decreases s@.len() - j,
    {
        j = j + 1;
    }
    j
}

/// Where a JSON number token that starts at `i` ends: an optional
/// minus, an integer part without a leading zero, and optional
/// fraction and exponent parts. `None` if no well-formed number starts
/// at `i`.
pub open spec fn spec_number_end(s: Seq<u8>, i: int) -> Option<int>
    recommends
        0 <= i <= s.len(),
{
    let j0 = if i < s.len() && s[i] == '-' as u8 {
        i + 1
    } else {
        i
    };
    if !(j0 < s.len() && crate::date::spec_is_ascii_digit(s[j0])) {
        None
    } else {
        let j1 = if s[j0] == '0' as u8 {
            j0 + 1
        } else {
            spec_digits_end(s, j0)
        };
        match spec_frac_end(s, j1) {
            None => None,
            Some(j2) => spec_exp_end(s, j2),
        }
    }
}

pub open spec fn spec_frac_end(s: Seq<u8>, j: int) -> Option<int> {
    if 0 <= j < s.len() && s[j] == '.' as u8 {
        if j + 1 < s.len() && crate::date::spec_is_ascii_digit(s[j + 1]) {
            Some(spec_digits_end(s, j + 1))
        } else {
            None
        }
    } else {
        Some(j)
    }
}

pub open spec fn spec_exp_end(s: Seq<u8>, j: int) -> Option<int> {
    if 0 <= j < s.len() && (s[j] == 'e' as u8 || s[j] == 'E' as u8) {
        let k = if j + 1 < s.len() && (s[j + 1] == '+' as u8 || s[j + 1] == '-' as u8) {
            j + 2
        } else {
            j + 1
        };
        if k < s.len() && crate::date::spec_is_ascii_digit(s[k]) {
            Some(spec_digits_end(s, k))
        } else {
            None
        }
    } else {
        Some(j)
    }
}

fn number_end(s: &[u8], i: usize) -> (r: Option<usize>)
    requires
        i <= s@.len(),
    ensures
        match r {
            Some(j) => Some(j as int) == spec_number_end(s@, i as int) && i < j <= s@.len(),
            None => spec_number_end(s@, i as int) is None,
        },
{
    let j0 = if i < s.len() && s[i] == '-' as u8 {
        i + 1
    } else {
        i
    };
    if !(j0 < s.len() && is_digit(s[j0])) {
        return None;
    }
    let j1 = if s[j0] == '0' as u8 {
        j0 + 1
    } else {
        digits_end(s, j0)
    };
    let j2 = if j1 < s.len() && s[j1] == '.' as u8 {
        if j1 + 1 < s.len() && is_digit(s[j1 + 1]) {
            digits_end(s, j1 + 1)
        } else {
            return None;
        }
    } else {
        j1
    };
    let j3 = if j2 < s.len() && (s[j2] == 'e' as u8 || s[j2] == 'E' as u8) {
        let k = if j2 + 1 < s.len() && (s[j2 + 1] == '+' as u8 || s[j2 + 1] == '-' as u8) {
            j2 + 2
        } else {
            j2 + 1
        };
        if k < s.len() && is_digit(s[k]) {
            digits_end(s, k)
        } else {
            return None;
        }
    } else {
        j2
    };
    Some(j3)
}

/// The value of a hexadecimal digit byte, or -1 for any other byte.
pub open spec fn spec_hex_val(b: u8) -> int {
    if 48 <= b <= 57 {
        b - 48
    } else if 65 <= b <= 70 {
        b - 55
    } else if 97 <= b <= 102 {
        b - 87
    } else {
        -1
    }
}

/// The value of the four hex digits at `s[i..i + 4]`, or -1 if any
/// byte is no hex digit.
pub open spec fn spec_hex4(s: Seq<u8>, i: int) -> int
    recommends
        0 <= i && i + 4 <= s.len(),
{
    if spec_hex_val(s[i]) >= 0 && spec_hex_val(s[i + 1]) >= 0 && spec_hex_val(s[i + 2]) >= 0
        && spec_hex_val(s[i + 3]) >= 0 {
        0x1000 * spec_hex_val(s[i]) + 0x100 * spec_hex_val(s[i + 1]) + 0x10 * spec_hex_val(
            s[i + 2],
        ) + spec_hex_val(s[i + 3])
    } else {
        -1
    }
}

fn hex_val(b: u8) -> (r: i32)
    ensures
        r as int == spec_hex_val(b),
        -1 <= r <= 15,
{
    if 48 <= b && b <= 57 {
        b as i32 - 48
    } else if 65 <= b && b <= 70 {
        b as i32 - 55
    } else if 97 <= b && b <= 102 {
        b as i32 - 87
    } else {
        -1
    }
}

fn hex4(s: &[u8], i: usize) -> (r: i32)
    requires
        i + 4 <= s@.len(),
    ensures
        r as int == spec_hex4(s@, i as int),
        -1 <= r < 0x10000,
{
    let a = hex_val(s[i]);
    let b = hex_val(s[i + 1]);
    let c = hex_val(s[i + 2]);
    let d = hex_val(s[i + 3]);
    if a >= 0 && b >= 0 && c >= 0 && d >= 0 {
        0x1000 * a + 0x100 * b + 0x10 * c + d
    } else {
        -1
    }
}

/// The UTF-8 encoding of a code point.
pub open spec fn spec_utf8_enc(cp: int) -> Seq<u8>
    recommends
        0 <= cp < 0x110000,
{
    if cp < 0x80 {
        seq![cp as u8]
    } else if cp < 0x800 {
        seq![(0xC0 + cp / 0x40) as u8, (0x80 + cp % 0x40) as u8]
    } else if cp < 0x10000 {
        seq![
            (0xE0 + cp / 0x1000) as u8,
            (0x80 + (cp / 0x40) % 0x40) as u8,
            (0x80 + cp % 0x40) as u8,
        ]
    } else {
        seq![
            (0xF0 + cp / 0x40000) as u8,
            (0x80 + (cp / 0x1000) % 0x40) as u8,
            (0x80 + (cp / 0x40) % 0x40) as u8,
            (0x80 + cp % 0x40) as u8,
        ]
    }
}

fn push_utf8(acc: &mut Vec<u8>, cp: u32)
    requires
        cp < 0x110000,
    ensures
        final(acc)@ == old(acc)@ + spec_utf8_enc(cp as int),
{
    if cp < 0x80 {
        acc.push(cp as u8);
        proof {
            assert(acc@ =~= old(acc)@ + spec_utf8_enc(cp as int));
        }
    } else if cp < 0x800 {
        acc.push((0xC0 + cp / 0x40) as u8);
        acc.push((0x80 + cp % 0x40) as u8);
        proof {
            assert(acc@ =~= old(acc)@ + spec_utf8_enc(cp as int));
        }
    } else if cp < 0x10000 {
        acc.push((0xE0 + cp / 0x1000) as u8);
        acc.push((0x80 + (cp / 0x40) % 0x40) as u8);
        acc.push((0x80 + cp % 0x40) as u8);
        proof {
            assert(acc@ =~= old(acc)@ + spec_utf8_enc(cp as int));
        }
    } else {
        acc.push((0xF0 + cp / 0x40000) as u8);
        acc.push((0x80 + (cp / 0x1000) % 0x40) as u8);
        acc.push((0x80 + (cp / 0x40) % 0x40) as u8);
        acc.push((0x80 + cp % 0x40) as u8);
        proof {
            assert(acc@ =~= old(acc)@ + spec_utf8_enc(cp as int));
        }
    }
}

/// What a single-character escape decodes to.
pub open spec fn spec_esc_char(e: u8) -> Option<u8> {
    if e == '"' as u8 {
        Some('"' as u8)
    } else if e == '\\' as u8 {
        Some('\\' as u8)
    } else if e == '/' as u8 {
        Some('/' as u8)
    } else if e == 'b' as u8 {
        Some(8u8)
    } else if e == 'f' as u8 {
        Some(12u8)
    } else if e == 'n' as u8 {
        Some(10u8)
    } else if e == 'r' as u8 {
        Some(13u8)
    } else if e == 't' as u8 {
        Some(9u8)
    } else {
        None
    }
}

fn esc_char(e: u8) -> (r: Option<u8>)
    ensures
        r == spec_esc_char(e),
{
    if e == '"' as u8 {
        Some('"' as u8)
    } else if e == '\\' as u8 {
        Some('\\' as u8)
    } else if e == '/' as u8 {
        Some('/' as u8)
    } else if e == 'b' as u8 {
        Some(8u8)
    } else if e == 'f' as u8 {
        Some(12u8)
    } else if e == 'n' as u8 {
        Some(10u8)
    } else if e == 'r' as u8 {
        Some(13u8)
    } else if e == 't' as u8 {
        Some(9u8)
    } else {
        None
    }
}

/// The decoded content of a JSON string whose opening quote stands
/// just before `i`, together with the position after the closing
/// quote. Escapes decode as JSON prescribes; unescaped control bytes
/// are refused. Bytes at or above 0x80 pass through unchanged: the
/// parser reads byte strings and does not police UTF-8.
pub open spec fn spec_string_body(s: Seq<u8>, i: int, acc: Seq<u8>) -> Option<(Seq<u8>, int)>
    decreases s.len() - i,
{
    if !(0 <= i < s.len()) {
        None
    } else if s[i] == '"' as u8 {
        Some((acc, i + 1))
    } else if s[i] == '\\' as u8 {
        if i + 2 > s.len() {
            None
        } else {
            let e = s[i + 1];
            match spec_esc_char(e) {
                Some(c) => spec_string_body(s, i + 2, acc.push(c)),
                None => if e == 'u' as u8 {
                    if i + 6 <= s.len() && spec_hex4(s, i + 2) >= 0 {
                        let cp = spec_hex4(s, i + 2);
                        if 0xD800 <= cp < 0xDC00 {
                            if i + 12 <= s.len() && s[i + 6] == '\\' as u8 && s[i + 7] == 'u' as u8
                                && 0xDC00 <= spec_hex4(s, i + 8) < 0xE000 {
                                let cp2 = spec_hex4(s, i + 8);
                                spec_string_body(
                                    s,
                                    i + 12,
                                    acc + spec_utf8_enc(
                                        0x10000 + 0x400 * (cp - 0xD800) + (cp2 - 0xDC00),
                                    ),
                                )
                            } else {
                                None
                            }
                        } else if 0xDC00 <= cp < 0xE000 {
                            None
                        } else {
                            spec_string_body(s, i + 6, acc + spec_utf8_enc(cp))
                        }
                    } else {
                        None
                    }
                } else {
                    None
                },
            }
        }
    } else if s[i] < 0x20 {
        None
    } else {
        spec_string_body(s, i + 1, acc.push(s[i]))
    }
}

fn string_body(s: &[u8], start: usize) -> (r: Option<(Vec<u8>, usize)>)
    requires
        start <= s@.len(),
    ensures
        match r {
            Some(p) => spec_string_body(s@, start as int, Seq::empty()) == Some(
                (p.0@, p.1 as int),
            ) && start < p.1 <= s@.len(),
            None => spec_string_body(s@, start as int, Seq::empty()) is None,
        },
{
    let mut acc: Vec<u8> = Vec::new();
    let mut i = start;
    while i < s.len()
        invariant
            start <= i <= s@.len(),
            spec_string_body(s@, start as int, Seq::empty()) == spec_string_body(
                s@,
                i as int,
                acc@,
            ),
        decreases s@.len() - i,
    {
        let b = s[i];
        if b == '"' as u8 {
            return Some((acc, i + 1));
        } else if b == '\\' as u8 {
            if i + 1 >= s.len() {
                return None;
            }
            let e = s[i + 1];
            match esc_char(e) {
                Some(c) => {
                    acc.push(c);
                    i = i + 2;
                },
                None => {
                    if e == 'u' as u8 && s.len() - i >= 6 {
                        let cp = hex4(s, i + 2);
                        if cp < 0 {
                            return None;
                        }
                        if 0xD800 <= cp && cp < 0xDC00 {
                            if s.len() - i >= 12 && s[i + 6] == '\\' as u8 && s[i + 7]
                                == 'u' as u8 {
                                let cp2 = hex4(s, i + 8);
                                if 0xDC00 <= cp2 && cp2 < 0xE000 {
                                    let full: u32 = 0x10000 + 0x400 * (cp as u32 - 0xD800) + (
                                    cp2 as u32 - 0xDC00);
                                    push_utf8(&mut acc, full);
                                    i = i + 12;
                                } else {
                                    return None;
                                }
                            } else {
                                return None;
                            }
                        } else if 0xDC00 <= cp && cp < 0xE000 {
                            return None;
                        } else {
                            push_utf8(&mut acc, cp as u32);
                            i = i + 6;
                        }
                    } else {
                        return None;
                    }
                },
            }
        } else if b < 0x20 {
            return None;
        } else {
            acc.push(b);
            i = i + 1;
        }
    }
    None
}

/// What parsing one JSON value that starts at `i` yields: the value
/// and the position just after it. The `fuel` bounds the recursion
/// depth; `spec_json_fuel` always provides enough of it, so exhaustion
/// never decides the outcome at the top level.
pub open spec fn spec_parse_value(s: Seq<u8>, i: int, fuel: nat) -> Option<(JVal, int)>
    decreases fuel,
{
    if fuel == 0 {
        None
    } else if !(0 <= i < s.len()) {
        None
    } else if s[i] == 'n' as u8 {
        if i + 4 <= s.len() && s[i + 1] == 'u' as u8 && s[i + 2] == 'l' as u8 && s[i + 3]
            == 'l' as u8 {
            Some((JVal::Null, i + 4))
        } else {
            None
        }
    } else if s[i] == 't' as u8 {
        if i + 4 <= s.len() && s[i + 1] == 'r' as u8 && s[i + 2] == 'u' as u8 && s[i + 3]
            == 'e' as u8 {
            Some((JVal::Bool(true), i + 4))
        } else {
            None
        }
    } else if s[i] == 'f' as u8 {
        if i + 5 <= s.len() && s[i + 1] == 'a' as u8 && s[i + 2] == 'l' as u8 && s[i + 3]
            == 's' as u8 && s[i + 4] == 'e' as u8 {
            Some((JVal::Bool(false), i + 5))
        } else {
            None
        }
    } else if s[i] == '"' as u8 {
        match spec_string_body(s, i + 1, Seq::empty()) {
            Some((c, j)) => Some((JVal::Str(c), j)),
            None => None,
        }
    } else if s[i] == '[' as u8 {
        let j = spec_skip_ws(s, i + 1);
        if j < s.len() && s[j] == ']' as u8 {
            Some((JVal::Arr(Seq::empty()), j + 1))
        } else {
            match spec_arr_items(s, j, Seq::empty(), (fuel - 1) as nat) {
                Some((items, k)) => Some((JVal::Arr(items), k)),
                None => None,
            }
        }
    } else if s[i] == '{' as u8 {
        let j = spec_skip_ws(s, i + 1);
        if j < s.len() && s[j] == '}' as u8 {
            Some((JVal::Obj(Seq::empty()), j + 1))
        } else {
            match spec_obj_items(s, j, Seq::empty(), (fuel - 1) as nat) {
                Some((fields, k)) => Some((JVal::Obj(fields), k)),
                None => None,
            }
        }
    } else if s[i] == '-' as u8 || crate::date::spec_is_ascii_digit(s[i]) {
        match spec_number_end(s, i) {
            Some(j) => Some((JVal::Num(s.subrange(i, j)), j)),
            None => None,
        }
    } else {
        None
    }
}

/// The members of an array from the first member on, `acc` holding
/// what stands before it.
pub open spec fn spec_arr_items(s: Seq<u8>, i: int, acc: Seq<JVal>, fuel: nat) -> Option<
    (Seq<JVal>, int),
>
    decreases fuel,
{
    if fuel == 0 {
        None
    } else {
        match spec_parse_value(s, i, (fuel - 1) as nat) {
            None => None,
            Some((v, j)) => {
                let k = spec_skip_ws(s, j);
                if k < s.len() && s[k] == ',' as u8 {
                    spec_arr_items(s, spec_skip_ws(s, k + 1), acc.push(v), (fuel - 1) as nat)
                } else if k < s.len() && s[k] == ']' as u8 {
                    Some((acc.push(v), k + 1))
                } else {
                    None
                }
            },
        }
    }
}

/// The members of an object from the first member on, `acc` holding
/// what stands before it.
pub open spec fn spec_obj_items(
    s: Seq<u8>,
    i: int,
    acc: Seq<(Seq<u8>, JVal)>,
    fuel: nat,
) -> Option<(Seq<(Seq<u8>, JVal)>, int)>
    decreases fuel,
{
    if fuel == 0 {
        None
    } else if !(0 <= i < s.len() && s[i] == '"' as u8) {
        None
    } else {
        match spec_string_body(s, i + 1, Seq::empty()) {
            None => None,
            Some((key, j)) => {
                let k = spec_skip_ws(s, j);
                if k < s.len() && s[k] == ':' as u8 {
                    match spec_parse_value(s, spec_skip_ws(s, k + 1), (fuel - 1) as nat) {
                        None => None,
                        Some((v, j2)) => {
                            let k2 = spec_skip_ws(s, j2);
                            if k2 < s.len() && s[k2] == ',' as u8 {
                                spec_obj_items(
                                    s,
                                    spec_skip_ws(s, k2 + 1),
                                    acc.push((key, v)),
                                    (fuel - 1) as nat,
                                )
                            } else if k2 < s.len() && s[k2] == '}' as u8 {
                                Some((acc.push((key, v)), k2 + 1))
                            } else {
                                None
                            }
                        },
                    }
                } else {
                    None
                }
            },
        }
    }
}

proof fn lemma_view_arr_push(acc: Seq<Json>, v: Json)
    ensures
        json_view_arr(acc.push(v)) == json_view_arr(acc).push(json_view(v)),
{
    assert(acc.push(v).drop_last() =~= acc);
    assert(acc.push(v).last() == v);
}

proof fn lemma_view_obj_push(acc: Seq<(Vec<u8>, Json)>, key: Vec<u8>, v: Json)
    ensures
        json_view_obj(acc.push((key, v))) == json_view_obj(acc).push((key@, json_view(v))),
{
    assert(acc.push((key, v)).drop_last() =~= acc);
    assert(acc.push((key, v)).last() == (key, v));
}

fn parse_value(s: &[u8], i: usize, Ghost(fuel): Ghost<nat>) -> (r: Option<(Json, usize)>)
    requires
        i <= s@.len(),
        fuel >= 2 * (s@.len() - i) + 1,
    ensures
        match r {
            Some(p) => spec_parse_value(s@, i as int, fuel) == Some((json_view(p.0), p.1 as int))
                && i < p.1 <= s@.len(),
            None => spec_parse_value(s@, i as int, fuel) is None,
        },
    decreases fuel,
{
    if i >= s.len() {
        return None;
    }
    let b = s[i];
    if b == 'n' as u8 {
        if s.len() - i >= 4 && s[i + 1] == 'u' as u8 && s[i + 2] == 'l' as u8 && s[i + 3]
            == 'l' as u8 {
            Some((Json::Null, i + 4))
        } else {
            None
        }
    } else if b == 't' as u8 {
        if s.len() - i >= 4 && s[i + 1] == 'r' as u8 && s[i + 2] == 'u' as u8 && s[i + 3]
            == 'e' as u8 {
            Some((Json::Bool(true), i + 4))
        } else {
            None
        }
    } else if b == 'f' as u8 {
        if s.len() - i >= 5 && s[i + 1] == 'a' as u8 && s[i + 2] == 'l' as u8 && s[i + 3]
            == 's' as u8 && s[i + 4] == 'e' as u8 {
            Some((Json::Bool(false), i + 5))
        } else {
            None
        }
    } else if b == '"' as u8 {
        match string_body(s, i + 1) {
            Some(p) => Some((Json::Str(p.0), p.1)),
            None => None,
        }
    } else if b == '[' as u8 {
        let j = skip_ws(s, i + 1);
        if j < s.len() && s[j] == ']' as u8 {
            Some((Json::Arr(Vec::new()), j + 1))
        } else {
            match parse_arr_items(s, j, Vec::new(), Ghost((fuel - 1) as nat)) {
                Some(p) => Some((Json::Arr(p.0), p.1)),
                None => None,
            }
        }
    } else if b == '{' as u8 {
        let j = skip_ws(s, i + 1);
        if j < s.len() && s[j] == '}' as u8 {
            Some((Json::Obj(Vec::new()), j + 1))
        } else {
            match parse_obj_items(s, j, Vec::new(), Ghost((fuel - 1) as nat)) {
                Some(p) => Some((Json::Obj(p.0), p.1)),
                None => None,
            }
        }
    } else if b == '-' as u8 || is_digit(b) {
        match number_end(s, i) {
            Some(j) => Some((Json::Num(crate::util::copy_range(s, i, j)), j)),
            None => None,
        }
    } else {
        None
    }
}

fn parse_arr_items(s: &[u8], i: usize, acc: Vec<Json>, Ghost(fuel): Ghost<nat>) -> (r: Option<
    (Vec<Json>, usize),
>)
    requires
        i <= s@.len(),
        fuel >= 2 * (s@.len() - i) + 2,
    ensures
        match r {
            Some(p) => spec_arr_items(s@, i as int, json_view_arr(acc@), fuel) == Some(
                (json_view_arr(p.0@), p.1 as int),
            ) && i < p.1 <= s@.len(),
            None => spec_arr_items(s@, i as int, json_view_arr(acc@), fuel) is None,
        },
    decreases fuel,
{
    match parse_value(s, i, Ghost((fuel - 1) as nat)) {
        None => None,
        Some(p) => {
            let v = p.0;
            let j = p.1;
            let k = skip_ws(s, j);
            if k < s.len() && s[k] == ',' as u8 {
                let k2 = skip_ws(s, k + 1);
                let mut acc2 = acc;
                acc2.push(v);
                proof {
                    lemma_view_arr_push(acc2@.drop_last(), acc2@.last());
                    assert(acc2@.drop_last() =~= acc@);
                }
                parse_arr_items(s, k2, acc2, Ghost((fuel - 1) as nat))
            } else if k < s.len() && s[k] == ']' as u8 {
                let ghost va = acc@;
                let mut acc2 = acc;
                acc2.push(v);
                proof {
                    lemma_view_arr_push(va, v);
                    assert(acc2@ =~= va.push(v));
                }
                Some((acc2, k + 1))
            } else {
                None
            }
        },
    }
}

fn parse_obj_items(s: &[u8], i: usize, acc: Vec<(Vec<u8>, Json)>, Ghost(fuel): Ghost<
    nat,
>) -> (r: Option<(Vec<(Vec<u8>, Json)>, usize)>)
    requires
        i <= s@.len(),
        fuel >= 2 * (s@.len() - i) + 2,
    ensures
        match r {
            Some(p) => spec_obj_items(s@, i as int, json_view_obj(acc@), fuel) == Some(
                (json_view_obj(p.0@), p.1 as int),
            ) && i < p.1 <= s@.len(),
            None => spec_obj_items(s@, i as int, json_view_obj(acc@), fuel) is None,
        },
    decreases fuel,
{
    if i >= s.len() {
        return None;
    }
    if s[i] != '"' as u8 {
        return None;
    }
    match string_body(s, i + 1) {
        None => None,
        Some(kp) => {
            let key = kp.0;
            let j = kp.1;
            let k = skip_ws(s, j);
            if k < s.len() && s[k] == ':' as u8 {
                let vstart = skip_ws(s, k + 1);
                match parse_value(s, vstart, Ghost((fuel - 1) as nat)) {
                    None => None,
                    Some(p) => {
                        let v = p.0;
                        let j2 = p.1;
                        let k2 = skip_ws(s, j2);
                        if k2 < s.len() && s[k2] == ',' as u8 {
                            let k3 = skip_ws(s, k2 + 1);
                            let ghost va = acc@;
                            let ghost keyv = key@;
                            let mut acc2 = acc;
                            acc2.push((key, v));
                            proof {
                                lemma_view_obj_push(va, acc2@.last().0, v);
                                assert(acc2@.drop_last() =~= va);
                                assert(acc2@ =~= va.push(acc2@.last()));
                            }
                            parse_obj_items(s, k3, acc2, Ghost((fuel - 1) as nat))
                        } else if k2 < s.len() && s[k2] == '}' as u8 {
                            let ghost va = acc@;
                            let mut acc2 = acc;
                            acc2.push((key, v));
                            proof {
                                lemma_view_obj_push(va, acc2@.last().0, v);
                                assert(acc2@ =~= va.push(acc2@.last()));
                            }
                            Some((acc2, k2 + 1))
                        } else {
                            None
                        }
                    },
                }
            } else {
                None
            }
        },
    }
}

/// Enough fuel to parse any value of `s`: nesting can go at most half
/// a byte-run deep.
pub open spec fn spec_json_fuel(s: Seq<u8>) -> nat {
    (2 * s.len() + 3) as nat
}

/// What parsing a whole body as one JSON document yields. Leading and
/// trailing whitespace is allowed; anything else around the single
/// top-level value is not.
pub open spec fn spec_parse_json(s: Seq<u8>) -> Option<JVal> {
    match spec_parse_value(s, spec_skip_ws(s, 0), spec_json_fuel(s)) {
        Some((v, j)) => if spec_skip_ws(s, j) == s.len() {
            Some(v)
        } else {
            None
        },
        None => None,
    }
}

/// The value under `key` in an object's members: the first member
/// with that name wins, later duplicates are shadowed.
pub open spec fn spec_obj_get(fields: Seq<(Seq<u8>, JVal)>, key: Seq<u8>) -> Option<JVal>
    decreases fields.len(),
{
    if fields.len() == 0 {
        None
    } else if fields[0].0 == key {
        Some(fields[0].1)
    } else {
        spec_obj_get(fields.drop_first(), key)
    }
}

/// Looks a field up among an object's members.
pub fn obj_get<'a>(fields: &'a Vec<(Vec<u8>, Json)>, key: &[u8]) -> (r: Option<&'a Json>)
    ensures
        match r {
            Some(j) => spec_obj_get(json_view_obj(fields@), key@) == Some(json_view(*j)),
            None => spec_obj_get(json_view_obj(fields@), key@) is None,
        },
{
    let ghost view = json_view_obj(fields@);
    proof {
        lemma_json_view_obj(fields@);
    }
    let mut k: usize = 0;
    proof {
        assert(view.skip(0) =~= view);
    }
    while k < fields.len()
        invariant
            0 <= k <= fields@.len(),
            view == json_view_obj(fields@),
            view.len() == fields@.len(),
            forall|i: int|
                0 <= i < fields@.len() ==> view[i] == (fields@[i].0@, json_view(fields@[i].1)),
            spec_obj_get(view, key@) == spec_obj_get(view.skip(k as int), key@),
        decreases fields@.len() - k,
    {
        if crate::util::bytes_eq(fields[k].0.as_slice(), key) {
            proof {
                assert(view.skip(k as int)[0] == view[k as int]);
            }
            return Some(&fields[k].1);
        }
        proof {
            assert(view.skip(k as int)[0] == view[k as int]);
            assert(view.skip(k as int).drop_first() =~= view.skip(k as int + 1));
        }
        k = k + 1;
    }
    proof {
        assert(view.skip(k as int).len() == 0);
    }
    None
}

/// The string under `key`, if the field is there and holds a string.
pub open spec fn spec_get_str(fields: Seq<(Seq<u8>, JVal)>, key: Seq<u8>) -> Option<Seq<u8>> {
    match spec_obj_get(fields, key) {
        Some(JVal::Str(t)) => Some(t),
        _ => None,
    }
}

/// The number token under `key`, if the field is there and holds a
/// number.
pub open spec fn spec_get_num(fields: Seq<(Seq<u8>, JVal)>, key: Seq<u8>) -> Option<Seq<u8>> {
    match spec_obj_get(fields, key) {
        Some(JVal::Num(t)) => Some(t),
        _ => None,
    }
}

/// The object members under `key`, if the field is there and holds an
/// object.
pub open spec fn spec_get_obj(fields: Seq<(Seq<u8>, JVal)>, key: Seq<u8>) -> Option<
    Seq<(Seq<u8>, JVal)>,
> {
    match spec_obj_get(fields, key) {
        Some(JVal::Obj(f)) => Some(f),
        _ => None,
    }
}

/// The array members under `key`, if the field is there and holds an
/// array.
pub open spec fn spec_get_arr(fields: Seq<(Seq<u8>, JVal)>, key: Seq<u8>) -> Option<Seq<JVal>> {
    match spec_obj_get(fields, key) {
        Some(JVal::Arr(v)) => Some(v),
        _ => None,
    }
}

pub fn get_str<'a>(fields: &'a Vec<(Vec<u8>, Json)>, key: &[u8]) -> (r: Option<&'a Vec<u8>>)
    ensures
        match r {
            Some(t) => spec_get_str(json_view_obj(fields@), key@) == Some(t@),
            None => spec_get_str(json_view_obj(fields@), key@) is None,
        },
{
    match obj_get(fields, key) {
        Some(j) => match j {
            Json::Str(t) => Some(t),
            _ => None,
        },
        None => None,
    }
}

pub fn get_num<'a>(fields: &'a Vec<(Vec<u8>, Json)>, key: &[u8]) -> (r: Option<&'a Vec<u8>>)
    ensures
        match r {
            Some(t) => spec_get_num(json_view_obj(fields@), key@) == Some(t@),
            None => spec_get_num(json_view_obj(fields@), key@) is None,
        },
{
    match obj_get(fields, key) {
        Some(j) => match j {
            Json::Num(t) => Some(t),
            _ => None,
        },
        None => None,
    }
}

pub fn get_obj<'a>(fields: &'a Vec<(Vec<u8>, Json)>, key: &[u8]) -> (r: Option<
    &'a Vec<(Vec<u8>, Json)>,
>)
    ensures
        match r {
            Some(f) => spec_get_obj(json_view_obj(fields@), key@) == Some(json_view_obj(f@)),
            None => spec_get_obj(json_view_obj(fields@), key@) is None,
        },
{
    match obj_get(fields, key) {
        Some(j) => match j {
            Json::Obj(f) => Some(f),
            _ => None,
        },
        None => None,
    }
}

pub fn get_arr<'a>(fields: &'a Vec<(Vec<u8>, Json)>, key: &[u8]) -> (r: Option<&'a Vec<Json>>)
    ensures
        match r {
            Some(v) => spec_get_arr(json_view_obj(fields@), key@) == Some(json_view_arr(v@)),
            None => spec_get_arr(json_view_obj(fields@), key@) is None,
        },
{
    match obj_get(fields, key) {
        Some(j) => match j {
            Json::Arr(v) => Some(v),
            _ => None,
        },
        None => None,
    }
}

/// The number a run of decimal digits denotes.
pub open spec fn spec_dec_val(s: Seq<u8>) -> int
    decreases s.len(),
{
    if s.len() == 0 {
        0
    } else {
        10 * spec_dec_val(s.drop_last()) + (s.last() - 48)
    }
}

/// Whether a byte run has the shape of a JSON integer token: an
/// optional minus, then digits, with no leading zero unless the whole
/// run is `0`.
pub open spec fn spec_int_start(s: Seq<u8>) -> int {
    if s.len() > 0 && s[0] == '-' as u8 {
        1
    } else {
        0
    }
}

pub open spec fn spec_int_shape(s: Seq<u8>) -> bool {
    &&& s.len() > spec_int_start(s)
    &&& forall|i: int|
        spec_int_start(s) <= i < s.len() ==> crate::date::spec_is_ascii_digit(s[i])
    &&& (s.len() > spec_int_start(s) + 1 ==> s[spec_int_start(s)] != '0' as u8)
}

/// The signed value of an integer token.
pub open spec fn spec_int_val(s: Seq<u8>) -> int {
    if s.len() > 0 && s[0] == '-' as u8 {
        -spec_dec_val(s.skip(1))
    } else {
        spec_dec_val(s)
    }
}

/// What reading a byte run as an `i64` yields: its value when the run
/// is an integer token whose value the type can hold, nothing
/// otherwise. A fraction or exponent part makes it no integer token.
pub open spec fn spec_parse_i64(s: Seq<u8>) -> Option<int> {
    if spec_int_shape(s) && -0x8000000000000000 <= spec_int_val(s) < 0x8000000000000000 {
        Some(spec_int_val(s))
    } else {
        None
    }
}

proof fn lemma_dec_val_nonneg(s: Seq<u8>)
    requires
        forall|i: int| 0 <= i < s.len() ==> crate::date::spec_is_ascii_digit(s[i]),
    ensures
        spec_dec_val(s) >= 0,
    decreases s.len(),
{
    if s.len() > 0 {
        lemma_dec_val_nonneg(s.drop_last());
    }
}

proof fn lemma_dec_val_mono(s: Seq<u8>, a: int, b: int)
    requires
        forall|i: int| 0 <= i < b ==> crate::date::spec_is_ascii_digit(s[i]),
        0 <= a <= b <= s.len(),
    ensures
        spec_dec_val(s.take(a)) <= spec_dec_val(s.take(b)),
    decreases b - a,
{
    if a < b {
        lemma_dec_val_mono(s, a, b - 1);
        assert(s.take(b).drop_last() =~= s.take(b - 1));
        assert forall|i: int| 0 <= i < s.take(b - 1).len() implies crate::date::spec_is_ascii_digit(
            #[trigger] s.take(b - 1)[i],
        ) by {
            assert(s.take(b - 1)[i] == s[i]);
        }
        lemma_dec_val_nonneg(s.take(b - 1));
    }
}

/// Reads an integer token as an `i64`.
pub fn parse_i64(t: &[u8]) -> (r: Option<i64>)
    ensures
        match r {
            Some(v) => spec_parse_i64(t@) == Some(v as int),
            None => spec_parse_i64(t@) is None,
        },
{
    let n = t.len();
    if n == 0 {
        return None;
    }
    let neg = t[0] == '-' as u8;
    let start: usize = if neg {
        1
    } else {
        0
    };
    if start >= n {
        return None;
    }
    let ghost digits = t@.skip(start as int);
    proof {
        if !neg {
            assert(digits =~= t@);
        }
    }
    if t[start] == '0' as u8 && n - start > 1 {
        return None;
    }
    let mut acc: u64 = 0;
    let mut k: usize = start;
    while k < n
        invariant
            start <= k <= n,
            n == t@.len(),
            start == if neg {
                1int
            } else {
                0int
            },
            neg == (t@[0] == '-' as u8),
            start < n,
            digits == t@.skip(start as int),
            forall|i: int| start <= i < k ==> crate::date::spec_is_ascii_digit(t@[i]),
            acc == spec_dec_val(digits.take(k - start as int)),
            acc <= 0x8000000000000000,
        decreases n - k,
    {
        let b = t[k];
        if !is_digit(b) {
            // The run is no integer token at all.
            proof {
                if spec_int_shape(t@) {
                    assert(crate::date::spec_is_ascii_digit(t@[k as int]));
                }
            }
            return None;
        }
        proof {
            assert(digits.take(k + 1 - start as int).drop_last() =~= digits.take(
                k - start as int,
            ));
            assert(digits.take(k + 1 - start as int).last() == t@[k as int]);
        }
        if acc > 922337203685477580 {
            // One more digit pushes the value past what an i64 holds,
            // whatever the sign.
            proof {
                lemma_dec_val_overflows(t@, digits, start as int, k as int, acc as int);
            }
            return None;
        }
        let ghost acc_pre = acc as int;
        acc = 10 * acc + (b - 48) as u64;
        k = k + 1;
        if acc > 9223372036854775808 {
            proof {
                lemma_dec_val_overflows(t@, digits, start as int, k as int - 1, acc_pre);
            }
            return None;
        }
    }
    proof {
        assert(digits.take(k - start as int) =~= digits);
        assert(spec_int_shape(t@));
    }
    if neg {
        if acc == 9223372036854775808 {
            Some(i64::MIN)
        } else {
            Some(-(acc as i64))
        }
    } else {
        if acc == 9223372036854775808 {
            return None;
        }
        Some(acc as i64)
    }
}

/// If the digits read so far already weigh more than an i64 carries,
/// no reading of the whole run fits, whatever the sign and whatever
/// the remaining bytes hold.
proof fn lemma_dec_val_overflows(t: Seq<u8>, digits: Seq<u8>, start: int, k: int, acc: int)
    requires
        0 <= start <= k < t.len(),
        digits == t.skip(start),
        start == spec_int_start(t),
        forall|i: int| start <= i < k ==> crate::date::spec_is_ascii_digit(t[i]),
        crate::date::spec_is_ascii_digit(t[k]),
        acc == spec_dec_val(digits.take(k - start)),
        10 * acc + (t[k] - 48) > 0x8000000000000000,
    ensures
        spec_parse_i64(t) is None,
{
    if spec_int_shape(t) {
        assert forall|i: int| 0 <= i < digits.len() implies crate::date::spec_is_ascii_digit(
            #[trigger] digits[i],
        ) by {
            assert(crate::date::spec_is_ascii_digit(t[start + i]));
            assert(digits[i] == t[start + i]);
        }
        assert(digits.take(k + 1 - start).drop_last() =~= digits.take(k - start));
        assert(digits.take(k + 1 - start).last() == t[k]);
        assert(spec_dec_val(digits.take(k + 1 - start)) == 10 * acc + (t[k] - 48));
        lemma_dec_val_mono(digits, k + 1 - start, digits.len() as int);
        assert(digits.take(digits.len() as int) =~= digits);
        if start == 0 {
            assert(t.skip(0) =~= t);
        }
    }
}

/// Parses a byte body as one JSON document.
pub fn parse_json(s: &[u8]) -> (r: Option<Json>)
    ensures
        match r {
            Some(j) => spec_parse_json(s@) == Some(json_view(j)),
            None => spec_parse_json(s@) is None,
        },
{
    let i = skip_ws(s, 0);
    match parse_value(s, i, Ghost(spec_json_fuel(s@))) {
        Some(p) => {
            let k = skip_ws(s, p.1);
            if k == s.len() {
                Some(p.0)
            } else {
                None
            }
        },
        None => None,
    }
}

} // verus!
