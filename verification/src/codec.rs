//! Wire codec of the pointer session protocol.
//!
//! A command travels as one small JSON text frame:
//! `{"type":"move","x":<int32>,"y":<int32>}`, `{"type":"click_left"}` or
//! `{"type":"click_right"}`.  The decoder accepts any flat JSON object whose
//! values are plain strings or 32-bit integers, in any member order and with
//! any surrounding whitespace.  A frame that is not such an object, or a
//! `move` frame whose `x` or `y` is not a 32-bit integer, is malformed and
//! dropped by the session; an object with an unrecognized discriminant is
//! ignored for forward compatibility.

use vstd::prelude::*;

use crate::command::Command;
use crate::command::Mouse;

verus! {

// ASCII bytes of the frame grammar.
pub const QUOTE: u8 = 34;
pub const COMMA: u8 = 44;
pub const MINUS: u8 = 45;
pub const COLON: u8 = 58;
pub const LBRACE: u8 = 123;
pub const RBRACE: u8 = 125;
pub const DIGIT_ZERO: u8 = 48;

/// A decoded JSON value of the flat frame grammar: a plain string or a
/// 32-bit integer.
pub enum SpecVal {
    Str(Seq<u8>),
    Int(int),
}

/// What the decoder makes of one inbound text frame.
#[derive(Clone, Copy, PartialEq, Eq, Structural, Debug)]
pub enum Decoded {
    /// A recognized command.
    Cmd(Command),
    /// A well-formed object whose discriminant this version does not know.
    Unknown,
    /// Not a frame of the grammar; the session drops it.
    Malformed,
}

pub open spec fn is_ws_byte(b: u8) -> bool {
    b == 32 || b == 9 || b == 10 || b == 13
}

pub open spec fn is_digit(b: u8) -> bool {
    48 <= b <= 57
}

/// A byte that may stand unescaped inside a string literal of the grammar:
/// anything but a control byte, the quote and the backslash.
pub open spec fn is_plain_str_byte(b: u8) -> bool {
    b >= 32 && b != 34 && b != 92
}

/// First position at or after `i` that does not hold whitespace.
pub open spec fn skip_ws(s: Seq<u8>, i: int) -> int
    decreases s.len() - i,
{
    if 0 <= i < s.len() && is_ws_byte(s[i]) {
        skip_ws(s, i + 1)
    } else {
        i
    }
}

/// Position of the closing quote of a string whose content starts at `i`,
/// or `None` if the string is unterminated or holds a byte the grammar
/// does not allow.
pub open spec fn str_content_end(s: Seq<u8>, i: int) -> Option<int>
    decreases s.len() - i,
{
    if 0 <= i < s.len() {
        if s[i] == QUOTE {
            Some(i)
        } else if is_plain_str_byte(s[i]) {
            str_content_end(s, i + 1)
        } else {
            None
        }
    } else {
        None
    }
}

/// Parses a string literal at `i`: the content bytes and the position after
/// the closing quote.
pub open spec fn parse_string(s: Seq<u8>, i: int) -> Option<(Seq<u8>, int)> {
    if 0 <= i < s.len() && s[i] == QUOTE {
        match str_content_end(s, i + 1) {
            Some(e) => Some((s.subrange(i + 1, e), e + 1)),
            None => None,
        }
    } else {
        None
    }
}

/// End of the maximal run of decimal digits starting at `i`.
pub open spec fn digits_end(s: Seq<u8>, i: int) -> int
    decreases s.len() - i,
{
    if 0 <= i < s.len() && is_digit(s[i]) {
        digits_end(s, i + 1)
    } else {
        i
    }
}

/// Value of the digit run `s[i..e)` read as a decimal number.
pub open spec fn digits_val(s: Seq<u8>, i: int, e: int) -> int
    decreases e - i,
{
    if i < e {
        digits_val(s, i, e - 1) * 10 + (s[e - 1] - DIGIT_ZERO)
    } else {
        0
    }
}

/// Parses a 32-bit integer literal at `i`: an optional minus sign and a
/// digit run without leading zeros whose value fits in `i32`.
pub open spec fn parse_int(s: Seq<u8>, i: int) -> Option<(int, int)> {
    let neg = 0 <= i < s.len() && s[i] == MINUS;
    let j = if neg {
        i + 1
    } else {
        i
    };
    if 0 <= j < s.len() && is_digit(s[j]) {
        let e = digits_end(s, j);
        if s[j] == DIGIT_ZERO && e != j + 1 {
            None
        } else {
            let v = if neg {
                -digits_val(s, j, e)
            } else {
                digits_val(s, j, e)
            };
            if i32::MIN <= v <= i32::MAX {
                Some((v, e))
            } else {
                None
            }
        }
    } else {
        None
    }
}

/// Parses a value of the flat grammar: a string or a 32-bit integer.
pub open spec fn parse_value(s: Seq<u8>, i: int) -> Option<(SpecVal, int)> {
    if 0 <= i < s.len() {
        if s[i] == QUOTE {
            match parse_string(s, i) {
                Some((k, j)) => Some((SpecVal::Str(k), j)),
                None => None,
            }
        } else if s[i] == MINUS || is_digit(s[i]) {
            match parse_int(s, i) {
                Some((v, j)) => Some((SpecVal::Int(v), j)),
                None => None,
            }
        } else {
            None
        }
    } else {
        None
    }
}

/// Parses one `"key": value` member at `i`.
pub open spec fn parse_member(s: Seq<u8>, i: int) -> Option<((Seq<u8>, SpecVal), int)> {
    match parse_string(s, i) {
        Some((k, j)) => {
            let c = skip_ws(s, j);
            if 0 <= c < s.len() && s[c] == COLON {
                let w = skip_ws(s, c + 1);
                match parse_value(s, w) {
                    Some((v, e)) => Some(((k, v), e)),
                    None => None,
                }
            } else {
                None
            }
        },
        None => None,
    }
}

/// Parses a comma-separated run of members starting at `i`, ending before
/// whatever follows the last member.
pub open spec fn parse_members(s: Seq<u8>, i: int) -> Option<(Seq<(Seq<u8>, SpecVal)>, int)>
    decreases s.len() - i,
{
    match parse_member(s, i) {
        Some((m, j)) => {
            let c = skip_ws(s, j);
            if 0 <= c < s.len() && s[c] == COMMA {
                let n = skip_ws(s, c + 1);
                if i < n <= s.len() {
                    match parse_members(s, n) {
                        Some((ms, e)) => Some((seq![m] + ms, e)),
                        None => None,
                    }
                } else {
                    None
                }
            } else {
                Some((seq![m], j))
            }
        },
        None => None,
    }
}

/// Parses a flat JSON object at `i`: its members and the position after the
/// closing brace.
pub open spec fn parse_object(s: Seq<u8>, i: int) -> Option<(Seq<(Seq<u8>, SpecVal)>, int)> {
    let a = skip_ws(s, i);
    if 0 <= a < s.len() && s[a] == LBRACE {
        let b = skip_ws(s, a + 1);
        if 0 <= b < s.len() && s[b] == RBRACE {
            Some((Seq::empty(), b + 1))
        } else {
            match parse_members(s, b) {
                Some((ms, j)) => {
                    let c = skip_ws(s, j);
                    if 0 <= c < s.len() && s[c] == RBRACE {
                        Some((ms, c + 1))
                    } else {
                        None
                    }
                },
                None => None,
            }
        }
    } else {
        None
    }
}

/// Value of the first member with the given key, as the dispatcher's key
/// lookup sees it.
pub open spec fn find_member(ms: Seq<(Seq<u8>, SpecVal)>, key: Seq<u8>) -> Option<SpecVal>
    decreases ms.len(),
{
    if ms.len() == 0 {
        None
    } else if ms[0].0 == key {
        Some(ms[0].1)
    } else {
        find_member(ms.drop_first(), key)
    }
}

/// The bytes of `type`.
pub open spec fn key_type() -> Seq<u8> {
    seq![116u8, 121u8, 112u8, 101u8]
}

/// The bytes of `x`.
pub open spec fn key_x() -> Seq<u8> {
    seq![120u8]
}

/// The bytes of `y`.
pub open spec fn key_y() -> Seq<u8> {
    seq![121u8]
}

/// The bytes of `move`.
pub open spec fn tag_move() -> Seq<u8> {
    seq![109u8, 111u8, 118u8, 101u8]
}

/// The bytes of `click_left`.
pub open spec fn tag_click_left() -> Seq<u8> {
    seq![99u8, 108u8, 105u8, 99u8, 107u8, 95u8, 108u8, 101u8, 102u8, 116u8]
}

/// The bytes of `click_right`.
pub open spec fn tag_click_right() -> Seq<u8> {
    seq![99u8, 108u8, 105u8, 99u8, 107u8, 95u8, 114u8, 105u8, 103u8, 104u8, 116u8]
}

/// Dispatch on the members of a well-formed frame object: the `type` member
/// picks the command; a `move` frame must carry 32-bit `x` and `y`.
pub open spec fn dispatch_spec(ms: Seq<(Seq<u8>, SpecVal)>) -> Decoded {
    match find_member(ms, key_type()) {
        Some(SpecVal::Str(t)) => if t == tag_move() {
            match (find_member(ms, key_x()), find_member(ms, key_y())) {
                (Some(SpecVal::Int(x)), Some(SpecVal::Int(y))) => Decoded::Cmd(
                    Command::Move { x: x as i32, y: y as i32 },
                ),
                _ => Decoded::Malformed,
            }
        } else if t == tag_click_left() {
            Decoded::Cmd(Command::Click(Mouse::Left))
        } else if t == tag_click_right() {
            Decoded::Cmd(Command::Click(Mouse::Right))
        } else {
            Decoded::Unknown
        },
        Some(SpecVal::Int(_)) => Decoded::Unknown,
        None => Decoded::Unknown,
    }
}

/// What the decoder returns for an inbound text frame: the frame must be one
/// object of the flat grammar with nothing but whitespace after it.
pub open spec fn decode_spec(s: Seq<u8>) -> Decoded {
    match parse_object(s, 0) {
        Some((ms, e)) => if skip_ws(s, e) == s.len() {
            dispatch_spec(ms)
        } else {
            Decoded::Malformed
        },
        None => Decoded::Malformed,
    }
}

/// Powers of ten, for bounds on digit runs.
pub open spec fn pow10(n: nat) -> int
    decreases n,
{
    if n == 0 {
        1
    } else {
        10 * pow10((n - 1) as nat)
    }
}

proof fn lemma_pow10_positive(n: nat)
    ensures
        pow10(n) >= 1,
    decreases n,
{
    if n > 0 {
        lemma_pow10_positive((n - 1) as nat);
    }
}

proof fn lemma_pow10_mono(a: nat, b: nat)
    requires
        a <= b,
    ensures
        pow10(a) <= pow10(b),
    decreases b,
{
    if a < b {
        lemma_pow10_mono(a, (b - 1) as nat);
        lemma_pow10_positive((b - 1) as nat);
    }
}

proof fn lemma_pow10_ten()
    ensures
        pow10(10) == 10000000000,
{
    reveal_with_fuel(pow10, 11);
}

/// A digit run of length `e - i` is a value below `pow10(e - i)`.
proof fn lemma_digits_val_bounds(s: Seq<u8>, i: int, e: int)
    requires
        0 <= i <= e <= s.len(),
        forall|k: int| i <= k < e ==> is_digit(s[k]),
    ensures
        0 <= digits_val(s, i, e) < pow10((e - i) as nat),
    decreases e - i,
{
    if i < e {
        lemma_digits_val_bounds(s, i, e - 1);
    }
}

/// A digit run without a leading zero is at least `pow10` of one less than
/// its length.
proof fn lemma_digits_val_lower(s: Seq<u8>, i: int, e: int)
    requires
        0 <= i < e <= s.len(),
        forall|k: int| i <= k < e ==> is_digit(s[k]),
        s[i] != DIGIT_ZERO,
    ensures
        digits_val(s, i, e) >= pow10((e - i - 1) as nat),
    decreases e - i,
{
    if i < e - 1 {
        lemma_digits_val_lower(s, i, e - 1);
        assert(digits_val(s, i, e) == digits_val(s, i, e - 1) * 10 + (s[e - 1] - DIGIT_ZERO));
        assert(is_digit(s[e - 1]));
        assert(digits_val(s, i, e - 1) * 10 >= pow10((e - i - 2) as nat) * 10) by (nonlinear_arith)
            requires
                digits_val(s, i, e - 1) >= pow10((e - i - 2) as nat),
        ;
        assert(pow10((e - i - 1) as nat) == 10 * pow10((e - i - 2) as nat));
    } else {
        assert(digits_val(s, i, e) == digits_val(s, i, i) * 10 + (s[i] - DIGIT_ZERO));
        assert(is_digit(s[i]) && s[i] != DIGIT_ZERO);
        assert(pow10(0) == 1);
    }
}

fn is_ws_byte_exec(b: u8) -> (r: bool)
    ensures
        r == is_ws_byte(b),
{
    b == 32 || b == 9 || b == 10 || b == 13
}

fn is_digit_exec(b: u8) -> (r: bool)
    ensures
        r == is_digit(b),
{
    48 <= b && b <= 57
}

fn is_plain_str_byte_exec(b: u8) -> (r: bool)
    ensures
        r == is_plain_str_byte(b),
{
    b >= 32 && b != QUOTE && b != 92
}

fn skip_ws_exec(s: &Vec<u8>, i: usize) -> (r: usize)
    requires
        i <= s@.len(),
    ensures
        r as int == skip_ws(s@, i as int),
        i <= r <= s@.len(),
{
    let mut j = i;
    while j < s.len() && is_ws_byte_exec(s[j])
        invariant
            i <= j <= s@.len(),
            skip_ws(s@, i as int) == skip_ws(s@, j as int),
        decreases s@.len() - j,
    {
        j = j + 1;
    }
    j
}

fn parse_string_exec(s: &Vec<u8>, i: usize) -> (r: Option<(Vec<u8>, usize)>)
    requires
        i <= s@.len(),
    ensures
        match r {
            Some(p) => parse_string(s@, i as int) == Some((p.0@, p.1 as int)) && i < p.1 <= s@.len(),
            None => parse_string(s@, i as int) is None,
        },
{
    if i >= s.len() || s[i] != QUOTE {
        return None;
    }
    let mut k = i + 1;
    let mut content: Vec<u8> = Vec::new();
    while k < s.len() && s[k] != QUOTE && is_plain_str_byte_exec(s[k])
        invariant
            i + 1 <= k <= s@.len(),
            s@[i as int] == QUOTE,
            str_content_end(s@, (i + 1) as int) == str_content_end(s@, k as int),
            content@ == s@.subrange((i + 1) as int, k as int),
        decreases s@.len() - k,
    {
        content.push(s[k]);
        proof {
            assert(s@.subrange((i + 1) as int, (k + 1) as int) =~= s@.subrange(
                (i + 1) as int,
                k as int,
            ).push(s@[k as int]));
        }
        k = k + 1;
    }
    if k < s.len() && s[k] == QUOTE {
        Some((content, k + 1))
    } else {
        None
    }
}

fn parse_int_exec(s: &Vec<u8>, i: usize) -> (r: Option<(i32, usize)>)
    requires
        i <= s@.len(),
    ensures
        match r {
            Some(p) => parse_int(s@, i as int) == Some((p.0 as int, p.1 as int)) && i < p.1
                <= s@.len(),
            None => parse_int(s@, i as int) is None,
        },
{
    let neg = i < s.len() && s[i] == MINUS;
    let j = if neg {
        i + 1
    } else {
        i
    };
    if j >= s.len() || !is_digit_exec(s[j]) {
        return None;
    }
    let mut e = j + 1;
    while e < s.len() && is_digit_exec(s[e])
        invariant
            j + 1 <= e <= s@.len(),
            is_digit(s@[j as int]),
            digits_end(s@, j as int) == digits_end(s@, e as int),
            forall|k: int| j <= k < e ==> is_digit(s@[k]),
        decreases s@.len() - e,
    {
        e = e + 1;
    }
    assert(digits_end(s@, j as int) == e as int);
    if s[j] == DIGIT_ZERO && e != j + 1 {
        return None;
    }
    if e - j > 10 {
        proof {
            lemma_digits_val_lower(s@, j as int, e as int);
            lemma_pow10_mono(10, (e - j - 1) as nat);
            lemma_pow10_ten();
        }
        return None;
    }
    let mut acc: u64 = 0;
    let mut k = j;
    while k < e
        invariant
            j <= k <= e <= s@.len(),
            e - j <= 10,
            forall|kk: int| j <= kk < e ==> is_digit(s@[kk]),
            acc as int == digits_val(s@, j as int, k as int),
            (acc as int) < pow10((k - j) as nat),
        decreases e - k,
    {
        proof {
            lemma_pow10_mono((k - j) as nat, 9);
            lemma_pow10_ten();
            reveal_with_fuel(pow10, 11);
        }
        acc = acc * 10 + (s[k] - DIGIT_ZERO) as u64;
        k = k + 1;
    }
    proof {
        lemma_pow10_mono((e - j) as nat, 10);
        lemma_pow10_ten();
    }
    let v: i64 = if neg {
        -(acc as i64)
    } else {
        acc as i64
    };
    if v < -2147483648 || v > 2147483647 {
        return None;
    }
    Some((v as i32, e))
}

/// An executable value of the flat frame grammar.
enum Val {
    Str(Vec<u8>),
    Int(i32),
}

/// Mathematical value of an executable one.
spec fn val_view(v: Val) -> SpecVal {
    match v {
        Val::Str(b) => SpecVal::Str(b@),
        Val::Int(x) => SpecVal::Int(x as int),
    }
}

/// Mathematical members of an executable member list.
spec fn members_view(ms: Seq<(Vec<u8>, Val)>) -> Seq<(Seq<u8>, SpecVal)> {
    ms.map_values(|m: (Vec<u8>, Val)| (m.0@, val_view(m.1)))
}

fn parse_value_exec(s: &Vec<u8>, i: usize) -> (r: Option<(Val, usize)>)
    requires
        i <= s@.len(),
    ensures
        match r {
            Some(p) => parse_value(s@, i as int) == Some((val_view(p.0), p.1 as int)) && i < p.1
                <= s@.len(),
            None => parse_value(s@, i as int) is None,
        },
{
    if i >= s.len() {
        return None;
    }
    if s[i] == QUOTE {
        match parse_string_exec(s, i) {
            Some((k, j)) => Some((Val::Str(k), j)),
            None => None,
        }
    } else if s[i] == MINUS || is_digit_exec(s[i]) {
        match parse_int_exec(s, i) {
            Some((v, j)) => Some((Val::Int(v), j)),
            None => None,
        }
    } else {
        None
    }
}

fn parse_member_exec(s: &Vec<u8>, i: usize) -> (r: Option<((Vec<u8>, Val), usize)>)
    requires
        i <= s@.len(),
    ensures
        match r {
            Some(p) => parse_member(s@, i as int) == Some(((p.0.0@, val_view(p.0.1)), p.1 as int))
                && i < p.1 <= s@.len(),
            None => parse_member(s@, i as int) is None,
        },
{
    match parse_string_exec(s, i) {
        Some((k, j)) => {
            let c = skip_ws_exec(s, j);
            if c < s.len() && s[c] == COLON {
                let w = skip_ws_exec(s, c + 1);
                match parse_value_exec(s, w) {
                    Some((v, e)) => Some(((k, v), e)),
                    None => None,
                }
            } else {
                None
            }
        },
        None => None,
    }
}

fn parse_members_exec(s: &Vec<u8>, i: usize) -> (r: Option<(Vec<(Vec<u8>, Val)>, usize)>)
    requires
        i <= s@.len(),
    ensures
        match r {
            Some(p) => parse_members(s@, i as int) == Some((members_view(p.0@), p.1 as int)) && i
                < p.1 <= s@.len(),
            None => parse_members(s@, i as int) is None,
        },
    decreases s@.len() - i,
{
    match parse_member_exec(s, i) {
        Some((m, j)) => {
            let c = skip_ws_exec(s, j);
            if c < s.len() && s[c] == COMMA {
                let n = skip_ws_exec(s, c + 1);
                if i < n && n <= s.len() {
                    match parse_members_exec(s, n) {
                        Some((mut ms, e)) => {
                            ms.insert(0, m);
                            proof {
                                assert(members_view(ms@) =~= seq![(m.0@, val_view(m.1))]
                                    + members_view(ms@.drop_first()));
                            }
                            Some((ms, e))
                        },
                        None => None,
                    }
                } else {
                    None
                }
            } else {
                let mut ms: Vec<(Vec<u8>, Val)> = Vec::new();
                ms.push(m);
                proof {
                    assert(members_view(ms@) =~= seq![(m.0@, val_view(m.1))]);
                }
                Some((ms, j))
            }
        },
        None => None,
    }
}

fn parse_object_exec(s: &Vec<u8>, i: usize) -> (r: Option<(Vec<(Vec<u8>, Val)>, usize)>)
    requires
        i <= s@.len(),
    ensures
        match r {
            Some(p) => parse_object(s@, i as int) == Some((members_view(p.0@), p.1 as int)) && p.1
                <= s@.len(),
            None => parse_object(s@, i as int) is None,
        },
{
    let a = skip_ws_exec(s, i);
    if a < s.len() && s[a] == LBRACE {
        let b = skip_ws_exec(s, a + 1);
        if b < s.len() && s[b] == RBRACE {
            let ms: Vec<(Vec<u8>, Val)> = Vec::new();
            proof {
                assert(members_view(ms@) =~= Seq::<(Seq<u8>, SpecVal)>::empty());
            }
            Some((ms, b + 1))
        } else {
            match parse_members_exec(s, b) {
                Some((ms, j)) => {
                    let c = skip_ws_exec(s, j);
                    if c < s.len() && s[c] == RBRACE {
                        Some((ms, c + 1))
                    } else {
                        None
                    }
                },
                None => None,
            }
        }
    } else {
        None
    }
}

fn bytes_eq(a: &Vec<u8>, b: &Vec<u8>) -> (r: bool)
    ensures
        r == (a@ == b@),
{
    if a.len() != b.len() {
        return false;
    }
    let mut k: usize = 0;
    while k < a.len()
        invariant
            0 <= k <= a@.len(),
            a@.len() == b@.len(),
            forall|j: int| 0 <= j < k ==> a@[j] == b@[j],
        decreases a@.len() - k,
    {
        if a[k] != b[k] {
            return false;
        }
        k = k + 1;
    }
    proof {
        assert(a@ =~= b@);
    }
    true
}

fn key_type_exec() -> (r: Vec<u8>)
    ensures
        r@ == key_type(),
{
    let mut v: Vec<u8> = Vec::new();
    v.push(116);
    v.push(121);
    v.push(112);
    v.push(101);
    proof {
        assert(v@ =~= key_type());
    }
    v
}

fn key_x_exec() -> (r: Vec<u8>)
    ensures
        r@ == key_x(),
{
    let mut v: Vec<u8> = Vec::new();
    v.push(120);
    proof {
        assert(v@ =~= key_x());
    }
    v
}

fn key_y_exec() -> (r: Vec<u8>)
    ensures
        r@ == key_y(),
{
    let mut v: Vec<u8> = Vec::new();
    v.push(121);
    proof {
        assert(v@ =~= key_y());
    }
    v
}

fn tag_move_exec() -> (r: Vec<u8>)
    ensures
        r@ == tag_move(),
{
    let mut v: Vec<u8> = Vec::new();
    v.push(109);
    v.push(111);
    v.push(118);
    v.push(101);
    proof {
        assert(v@ =~= tag_move());
    }
    v
}

fn tag_click_left_exec() -> (r: Vec<u8>)
    ensures
        r@ == tag_click_left(),
{
    let mut v: Vec<u8> = Vec::new();
    v.push(99);
    v.push(108);
    v.push(105);
    v.push(99);
    v.push(107);
    v.push(95);
    v.push(108);
    v.push(101);
    v.push(102);
    v.push(116);
    proof {
        assert(v@ =~= tag_click_left());
    }
    v
}

fn tag_click_right_exec() -> (r: Vec<u8>)
    ensures
        r@ == tag_click_right(),
{
    let mut v: Vec<u8> = Vec::new();
    v.push(99);
    v.push(108);
    v.push(105);
    v.push(99);
    v.push(107);
    v.push(95);
    v.push(114);
    v.push(105);
    v.push(103);
    v.push(104);
    v.push(116);
    proof {
        assert(v@ =~= tag_click_right());
    }
    v
}

/// Index of the first member whose key is `key`, as `find_member` sees it.
fn find_member_exec(ms: &Vec<(Vec<u8>, Val)>, key: &Vec<u8>) -> (r: Option<usize>)
    ensures
        match r {
            Some(ix) => ix < ms@.len() && find_member(members_view(ms@), key@) == Some(
                val_view(ms@[ix as int].1),
            ),
            None => find_member(members_view(ms@), key@) is None,
        },
{
    let mut k: usize = 0;
    proof {
        assert(members_view(ms@).skip(0) =~= members_view(ms@));
    }
    while k < ms.len()
        invariant
            0 <= k <= ms@.len(),
            find_member(members_view(ms@), key@) == find_member(
                members_view(ms@).skip(k as int),
                key@,
            ),
        decreases ms@.len() - k,
    {
        proof {
            assert(members_view(ms@).skip(k as int)[0] == (ms@[k as int].0@, val_view(
                ms@[k as int].1,
            )));
            assert(members_view(ms@).skip(k as int).drop_first() =~= members_view(ms@).skip(
                k as int + 1,
            ));
        }
        if bytes_eq(&ms[k].0, key) {
            return Some(k);
        }
        k = k + 1;
    }
    proof {
        assert(members_view(ms@).skip(ms@.len() as int) =~= Seq::<(Seq<u8>, SpecVal)>::empty());
    }
    None
}

/// Executable dispatch on a decoded member list.
fn dispatch_exec(ms: &Vec<(Vec<u8>, Val)>) -> (r: Decoded)
    ensures
        r == dispatch_spec(members_view(ms@)),
{
    let tkey = key_type_exec();
    match find_member_exec(ms, &tkey) {
        None => Decoded::Unknown,
        Some(tix) => {
            match &ms[tix].1 {
                Val::Int(_) => Decoded::Unknown,
                Val::Str(t) => {
                    if bytes_eq(t, &tag_move_exec()) {
                        let xkey = key_x_exec();
                        let ykey = key_y_exec();
                        match (find_member_exec(ms, &xkey), find_member_exec(ms, &ykey)) {
                            (Some(xix), Some(yix)) => {
                                match (&ms[xix].1, &ms[yix].1) {
                                    (Val::Int(x), Val::Int(y)) => Decoded::Cmd(
                                        Command::Move { x: *x, y: *y },
                                    ),
                                    _ => Decoded::Malformed,
                                }
                            },
                            _ => Decoded::Malformed,
                        }
                    } else if bytes_eq(t, &tag_click_left_exec()) {
                        Decoded::Cmd(Command::Click(Mouse::Left))
                    } else if bytes_eq(t, &tag_click_right_exec()) {
                        Decoded::Cmd(Command::Click(Mouse::Right))
                    } else {
                        Decoded::Unknown
                    }
                },
            }
        },
    }
}

/// Decodes one inbound text frame.
pub fn decode(s: &Vec<u8>) -> (r: Decoded)
    ensures
        r == decode_spec(s@),
{
    match parse_object_exec(s, 0) {
        Some((ms, e)) => {
            let t = skip_ws_exec(s, e);
            if t == s.len() {
                dispatch_exec(&ms)
            } else {
                Decoded::Malformed
            }
        },
        None => Decoded::Malformed,
    }
}

/// Decimal digits of `n`, most significant first.
pub open spec fn dec_digits(n: nat) -> Seq<u8>
    decreases n,
{
    if n < 10 {
        seq![(DIGIT_ZERO + n) as u8]
    } else {
        dec_digits(n / 10) + seq![(DIGIT_ZERO + n % 10) as u8]
    }
}

/// Bytes of a signed decimal integer.
pub open spec fn encode_int(v: int) -> Seq<u8> {
    if v < 0 {
        seq![MINUS] + dec_digits((-v) as nat)
    } else {
        dec_digits(v as nat)
    }
}

/// The bytes of `{"type":"move","x":`.
pub open spec fn frag_move_prefix() -> Seq<u8> {
    seq![
        123u8, 34u8, 116u8, 121u8, 112u8, 101u8, 34u8, 58u8, 34u8, 109u8, 111u8, 118u8, 101u8,
        34u8, 44u8, 34u8, 120u8, 34u8, 58u8,
    ]
}

/// The bytes of `,"y":`.
pub open spec fn frag_move_mid() -> Seq<u8> {
    seq![44u8, 34u8, 121u8, 34u8, 58u8]
}

/// The bytes of `{"type":"click_left"}`.
pub open spec fn frag_click_left() -> Seq<u8> {
    seq![
        123u8, 34u8, 116u8, 121u8, 112u8, 101u8, 34u8, 58u8, 34u8, 99u8, 108u8, 105u8, 99u8,
        107u8, 95u8, 108u8, 101u8, 102u8, 116u8, 34u8, 125u8,
    ]
}

/// The bytes of `{"type":"click_right"}`.
pub open spec fn frag_click_right() -> Seq<u8> {
    seq![
        123u8, 34u8, 116u8, 121u8, 112u8, 101u8, 34u8, 58u8, 34u8, 99u8, 108u8, 105u8, 99u8,
        107u8, 95u8, 114u8, 105u8, 103u8, 104u8, 116u8, 34u8, 125u8,
    ]
}

/// The exact bytes of the frame that carries a command.
pub open spec fn encode_spec(c: Command) -> Seq<u8> {
    match c {
        Command::Move { x, y } => frag_move_prefix() + encode_int(x as int) + frag_move_mid()
            + encode_int(y as int) + seq![RBRACE],
        Command::Click(Mouse::Left) => frag_click_left(),
        Command::Click(Mouse::Right) => frag_click_right(),
    }
}

fn push_digits(out: &mut Vec<u8>, n: u32)
    ensures
        final(out)@ == old(out)@ + dec_digits(n as nat),
    decreases n,
{
    if n < 10 {
        out.push(DIGIT_ZERO + n as u8);
        proof {
            assert(out@ =~= old(out)@ + dec_digits(n as nat));
        }
    } else {
        push_digits(out, n / 10);
        out.push(DIGIT_ZERO + (n % 10) as u8);
        proof {
            assert(out@ =~= old(out)@ + dec_digits(n as nat));
        }
    }
}

fn push_int(out: &mut Vec<u8>, v: i32)
    ensures
        final(out)@ == old(out)@ + encode_int(v as int),
{
    if v < 0 {
        out.push(MINUS);
        let mag: u32 = (-(v as i64)) as u32;
        push_digits(out, mag);
        proof {
            assert(out@ =~= old(out)@ + encode_int(v as int));
        }
    } else {
        push_digits(out, v as u32);
    }
}

proof fn lemma_dec_digits_props(n: nat)
    ensures
        dec_digits(n).len() >= 1,
        forall|k: int| 0 <= k < dec_digits(n).len() ==> is_digit(#[trigger] dec_digits(n)[k]),
        n >= 1 ==> dec_digits(n)[0] != DIGIT_ZERO,
    decreases n,
{
    if n >= 10 {
        lemma_dec_digits_props(n / 10);
    }
}

/// A maximal digit run ends exactly where the digits end.
proof fn lemma_digits_end_of_run(s: Seq<u8>, i: int, e: int)
    requires
        0 <= i <= e <= s.len(),
        forall|k: int| i <= k < e ==> is_digit(s[k]),
        e == s.len() || !is_digit(s[e]),
    ensures
        digits_end(s, i) == e,
    decreases e - i,
{
    if i < e {
        lemma_digits_end_of_run(s, i + 1, e);
    }
}

/// A digit run that holds the decimal digits of `n` reads back as `n`.
proof fn lemma_digits_val_of_dec_digits(s: Seq<u8>, i: int, n: nat)
    requires
        0 <= i,
        i + dec_digits(n).len() <= s.len(),
        s.subrange(i, i + dec_digits(n).len()) == dec_digits(n),
    ensures
        digits_val(s, i, i + dec_digits(n).len()) == n,
    decreases n,
{
    let d = dec_digits(n);
    let e = i + d.len();
    if n < 10 {
        assert(s[i] == d[0]);
        assert(digits_val(s, i, e) == digits_val(s, i, i) * 10 + (s[e - 1] - DIGIT_ZERO));
    } else {
        let dh = dec_digits(n / 10);
        assert(d == dh + seq![(DIGIT_ZERO + n % 10) as u8]);
        assert(s.subrange(i, i + dh.len()) =~= dh) by {
            assert(forall|k: int|
                0 <= k < dh.len() ==> s.subrange(i, i + d.len() as int)[k] == d[k]);
        }
        lemma_digits_val_of_dec_digits(s, i, n / 10);
        assert(s[e - 1] == d[d.len() - 1]);
        assert(d[d.len() - 1] == (DIGIT_ZERO + n % 10) as u8);
        assert(digits_val(s, i, e) == digits_val(s, i, e - 1) * 10 + (s[e - 1] - DIGIT_ZERO));
        vstd::arithmetic::div_mod::lemma_fundamental_div_mod(n as int, 10);
    }
}

/// At a position holding the encoding of a 32-bit integer followed by a
/// byte that is not a digit, `parse_int` reads back exactly that integer.
proof fn lemma_parse_int_at(s: Seq<u8>, i: int, v: int)
    requires
        i32::MIN <= v <= i32::MAX,
        0 <= i,
        i + encode_int(v).len() <= s.len(),
        s.subrange(i, i + encode_int(v).len()) == encode_int(v),
        i + encode_int(v).len() == s.len() || !is_digit(s[i + encode_int(v).len()]),
    ensures
        parse_int(s, i) == Some((v, i + encode_int(v).len())),
{
    let ev = encode_int(v);
    let e = i + ev.len();
    assert forall|k: int| i <= k < e implies #[trigger] s[k] == ev[k - i] by {
        assert(s.subrange(i, e)[k - i] == ev[k - i]);
    }
    if v < 0 {
        let m = (-v) as nat;
        let d = dec_digits(m);
        lemma_dec_digits_props(m);
        assert(ev == seq![MINUS] + d);
        assert(s[i] == ev[0]);
        assert(s[i] == MINUS);
        let j = i + 1;
        assert forall|k: int| j <= k < e implies #[trigger] s[k] == d[k - j] by {
            assert(ev[k - i] == d[k - i - 1]);
        }
        assert(forall|k: int| j <= k < e ==> is_digit(#[trigger] s[k]));
        assert(s.subrange(j, j + d.len() as int) =~= d);
        lemma_digits_end_of_run(s, j, e);
        lemma_digits_val_of_dec_digits(s, j, m);
        assert(s[j] == d[0]);
        assert(s[j] != DIGIT_ZERO);
    } else {
        let m = v as nat;
        let d = dec_digits(m);
        lemma_dec_digits_props(m);
        assert(ev == d);
        assert(s[i] == d[0]);
        assert(is_digit(s[i]));
        assert(s[i] != MINUS);
        assert(forall|k: int| i <= k < e ==> is_digit(#[trigger] s[k]));
        assert(s.subrange(i, i + d.len() as int) =~= d);
        lemma_digits_end_of_run(s, i, e);
        lemma_digits_val_of_dec_digits(s, i, m);
        if v == 0 {
            assert(d.len() == 1);
        } else {
            assert(s[i] != DIGIT_ZERO);
        }
    }
}

/// A run of plain bytes closed by a quote scans to that quote.
proof fn lemma_str_content_end_of_run(s: Seq<u8>, i: int, e: int)
    requires
        0 <= i <= e < s.len(),
        forall|k: int| i <= k < e ==> is_plain_str_byte(s[k]),
        s[e] == QUOTE,
    ensures
        str_content_end(s, i) == Some(e),
    decreases e - i,
{
    if i < e {
        lemma_str_content_end_of_run(s, i + 1, e);
    }
}

/// At a position holding a quoted run of plain bytes, `parse_string` reads
/// back exactly that content.
proof fn lemma_parse_string_at(s: Seq<u8>, i: int, content: Seq<u8>)
    requires
        0 <= i,
        i + content.len() + 2 <= s.len(),
        s.subrange(i, i + content.len() + 2) == seq![QUOTE] + content + seq![QUOTE],
        forall|k: int| 0 <= k < content.len() ==> is_plain_str_byte(#[trigger] content[k]),
    ensures
        parse_string(s, i) == Some((content, i + content.len() + 2)),
{
    let q = seq![QUOTE] + content + seq![QUOTE];
    let e = i + content.len() + 1;
    assert forall|k: int| i <= k < i + q.len() implies #[trigger] s[k] == q[k - i] by {
        assert(s.subrange(i, i + q.len() as int)[k - i] == q[k - i]);
    }
    assert(s[i] == q[0]);
    assert(s[i] == QUOTE);
    assert(s[e] == q[content.len() as int + 1]);
    assert(s[e] == QUOTE);
    assert forall|k: int| i + 1 <= k < e implies is_plain_str_byte(#[trigger] s[k]) by {
        assert(s[k] == q[k - i]);
        assert(q[k - i] == content[k - i - 1]);
    }
    lemma_str_content_end_of_run(s, i + 1, e);
    assert forall|k: int| 0 <= k < content.len() implies #[trigger] s.subrange(i + 1, e)[k]
        == content[k] by {
        assert(s[i + 1 + k] == q[k + 1]);
        assert(q[k + 1] == content[k]);
    }
    assert(s.subrange(i + 1, e) =~= content);
}

/// Round trip of a click frame: its concrete bytes decode to the command
/// they were encoded from.
proof fn lemma_round_trip_click(b: Mouse)
    ensures
        decode_spec(encode_spec(Command::Click(b))) == Decoded::Cmd(Command::Click(b)),
{
    let s = encode_spec(Command::Click(b));
    let tag = if b is Left {
        tag_click_left()
    } else {
        tag_click_right()
    };
    let close = 20 + tag.len() - 10;
    assert(s =~= seq![LBRACE, QUOTE] + key_type() + seq![QUOTE, COLON, QUOTE] + tag + seq![
        QUOTE,
        RBRACE,
    ]);
    assert(s.len() == tag.len() + 11);
    assert(s[0] == LBRACE);
    assert(s[7] == COLON);
    assert(s.subrange(1, 7) =~= seq![QUOTE] + key_type() + seq![QUOTE]);
    lemma_parse_string_at(s, 1, key_type());
    assert(s.subrange(8, 10 + tag.len() as int) =~= seq![QUOTE] + tag + seq![QUOTE]);
    assert(forall|k: int| 0 <= k < tag.len() ==> is_plain_str_byte(#[trigger] tag[k]));
    lemma_parse_string_at(s, 8, tag);
    let after = 10 + tag.len() as int;
    assert(s[8] == QUOTE);
    assert(parse_value(s, 8) == Some((SpecVal::Str(tag), after)));
    assert(skip_ws(s, 7) == 7);
    assert(skip_ws(s, 8) == 8);
    let m = (key_type(), SpecVal::Str(tag));
    assert(parse_member(s, 1) == Some((m, after)));
    assert(s[after] == RBRACE);
    assert(skip_ws(s, after) == after);
    assert(parse_members(s, 1) == Some((seq![m], after)));
    assert(skip_ws(s, 0) == 0);
    assert(s[1] == QUOTE);
    assert(skip_ws(s, 1) == 1);
    assert(parse_object(s, 0) == Some((seq![m], after + 1)));
    assert(skip_ws(s, after + 1) == after + 1);
    assert(after + 1 == s.len());
    let ms = seq![m];
    assert(find_member(ms, key_type()) == Some(SpecVal::Str(tag)));
    assert(tag != tag_move()) by {
        assert(tag.len() != tag_move().len());
    }
    if b is Left {
        assert(tag == tag_click_left());
        assert(dispatch_spec(ms) == Decoded::Cmd(Command::Click(Mouse::Left)));
    } else {
        assert(tag != tag_click_left()) by {
            assert(tag.len() != tag_click_left().len());
        }
        assert(dispatch_spec(ms) == Decoded::Cmd(Command::Click(Mouse::Right)));
    }
}

/// Round trip of a motion frame: the encoded bytes decode to the same
/// offsets.
#[verifier::rlimit(100)]
#[verifier::spinoff_prover]
proof fn lemma_round_trip_move(x: i32, y: i32)
    ensures
        decode_spec(encode_spec(Command::Move { x, y })) == Decoded::Cmd(Command::Move { x, y }),
{
    let c = Command::Move { x, y };
    let s = encode_spec(c);
    let e1 = encode_int(x as int);
    let e2 = encode_int(y as int);
    let l1 = e1.len() as int;
    let l2 = e2.len() as int;
    if x < 0 {
        lemma_dec_digits_props((-x) as nat);
    } else {
        lemma_dec_digits_props(x as nat);
    }
    if y < 0 {
        lemma_dec_digits_props((-y) as nat);
    } else {
        lemma_dec_digits_props(y as nat);
    }
    assert(l1 >= 1 && l2 >= 1);
    assert(s == frag_move_prefix() + e1 + frag_move_mid() + e2 + seq![RBRACE]);
    assert(s.len() == 25 + l1 + l2);
    // Bytes of the fixed prefix.
    assert forall|k: int| 0 <= k < 19 implies #[trigger] s[k] == frag_move_prefix()[k] by {}
    // Bytes of the first integer region.
    assert forall|k: int| 0 <= k < l1 implies #[trigger] s[19 + k] == e1[k] by {}
    // Bytes of the middle fragment.
    assert forall|k: int| 0 <= k < 5 implies #[trigger] s[19 + l1 + k] == frag_move_mid()[k] by {}
    // Bytes of the second integer region and the closing brace.
    assert forall|k: int| 0 <= k < l2 implies #[trigger] s[24 + l1 + k] == e2[k] by {}
    assert(s[24 + l1 + l2] == RBRACE);
    // The first member: "type": "move".
    assert(skip_ws(s, 0) == 0);
    assert(s[0] == LBRACE);
    assert(s[1] == QUOTE);
    assert(skip_ws(s, 1) == 1);
    assert(s.subrange(1, 7) =~= seq![QUOTE] + key_type() + seq![QUOTE]) by {
        assert(forall|k: int| 0 <= k < 6 ==> #[trigger] s.subrange(1, 7)[k] == s[1 + k]);
    }
    lemma_parse_string_at(s, 1, key_type());
    assert(s[7] == COLON);
    assert(skip_ws(s, 7) == 7);
    assert(skip_ws(s, 8) == 8);
    assert(s[8] == QUOTE);
    assert(s.subrange(8, 14) =~= seq![QUOTE] + tag_move() + seq![QUOTE]) by {
        assert(forall|k: int| 0 <= k < 6 ==> #[trigger] s.subrange(8, 14)[k] == s[8 + k]);
    }
    lemma_parse_string_at(s, 8, tag_move());
    assert(parse_value(s, 8) == Some((SpecVal::Str(tag_move()), 14int)));
    let m1 = (key_type(), SpecVal::Str(tag_move()));
    assert(parse_member(s, 1) == Some((m1, 14int)));
    // The second member: "x" and the first integer.
    assert(s[14] == COMMA);
    assert(skip_ws(s, 14) == 14);
    assert(s[15] == QUOTE);
    assert(skip_ws(s, 15) == 15);
    assert(s.subrange(15, 18) =~= seq![QUOTE] + key_x() + seq![QUOTE]) by {
        assert(forall|k: int| 0 <= k < 3 ==> #[trigger] s.subrange(15, 18)[k] == s[15 + k]);
    }
    lemma_parse_string_at(s, 15, key_x());
    assert(s[18] == COLON);
    assert(skip_ws(s, 18) == 18);
    assert(s[19] == e1[0]);
    assert(e1[0] == MINUS || is_digit(e1[0])) by {
        if x >= 0 {
            assert(e1[0] == dec_digits(x as nat)[0]);
        }
    }
    assert(!is_ws_byte(s[19]) && s[19] != QUOTE);
    assert(skip_ws(s, 19) == 19);
    assert(s.subrange(19, 19 + l1) =~= e1) by {
        assert(forall|k: int| 0 <= k < l1 ==> #[trigger] s.subrange(19, 19 + l1)[k] == s[19 + k]);
    }
    assert(s[19 + l1] == COMMA);
    assert(!is_digit(s[19 + l1]));
    lemma_parse_int_at(s, 19, x as int);
    assert(parse_value(s, 19) == Some((SpecVal::Int(x as int), 19 + l1)));
    let m2 = (key_x(), SpecVal::Int(x as int));
    assert(parse_member(s, 15) == Some((m2, 19 + l1)));
    // The third member: "y" and the second integer.
    assert(skip_ws(s, 19 + l1) == 19 + l1);
    assert(s[20 + l1] == QUOTE);
    assert(skip_ws(s, 20 + l1) == 20 + l1);
    assert(s.subrange(20 + l1, 23 + l1) =~= seq![QUOTE] + key_y() + seq![QUOTE]) by {
        assert(forall|k: int|
            0 <= k < 3 ==> #[trigger] s.subrange(20 + l1, 23 + l1)[k] == s[20 + l1 + k]);
        assert(s[20 + l1 + 0] == frag_move_mid()[1]);
        assert(s[20 + l1 + 1] == frag_move_mid()[2]);
        assert(s[20 + l1 + 2] == frag_move_mid()[3]);
    }
    lemma_parse_string_at(s, 20 + l1, key_y());
    assert(s[23 + l1] == COLON);
    assert(skip_ws(s, 23 + l1) == 23 + l1);
    assert(s[24 + l1] == e2[0]);
    assert(e2[0] == MINUS || is_digit(e2[0])) by {
        if y >= 0 {
            assert(e2[0] == dec_digits(y as nat)[0]);
        }
    }
    assert(!is_ws_byte(s[24 + l1]) && s[24 + l1] != QUOTE);
    assert(skip_ws(s, 24 + l1) == 24 + l1);
    assert(s.subrange(24 + l1, 24 + l1 + l2) =~= e2) by {
        assert(forall|k: int|
            0 <= k < l2 ==> #[trigger] s.subrange(24 + l1, 24 + l1 + l2)[k] == s[24 + l1 + k]);
    }
    assert(!is_digit(s[24 + l1 + l2]));
    lemma_parse_int_at(s, 24 + l1, y as int);
    assert(parse_value(s, 24 + l1) == Some((SpecVal::Int(y as int), 24 + l1 + l2)));
    let m3 = (key_y(), SpecVal::Int(y as int));
    assert(parse_member(s, 20 + l1) == Some((m3, 24 + l1 + l2)));
    // Members chain up and the object closes.
    let endm = 24 + l1 + l2;
    assert(skip_ws(s, endm) == endm);
    assert(s[endm] != COMMA);
    assert(parse_members(s, 20 + l1) == Some((seq![m3], endm)));
    assert(parse_members(s, 15) == Some((seq![m2] + seq![m3], endm)));
    assert(parse_members(s, 1) == Some((seq![m1] + (seq![m2] + seq![m3]), endm)));
    let ms = seq![m1] + (seq![m2] + seq![m3]);
    assert(s[endm] == RBRACE);
    assert(parse_object(s, 0) == Some((ms, endm + 1)));
    assert(endm + 1 == s.len());
    assert(skip_ws(s, endm + 1) == endm + 1);
    // Dispatch finds the three members.
    assert(ms =~= seq![m1, m2, m3]);
    assert(ms[0] == m1 && ms[1] == m2 && ms[2] == m3);
    assert(find_member(ms, key_type()) == Some(SpecVal::Str(tag_move())));
    let msa = ms.drop_first();
    let msb = msa.drop_first();
    assert(msa =~= seq![m2, m3]);
    assert(msb =~= seq![m3]);
    assert(key_type() != key_x() && key_type() != key_y()) by {
        assert(key_type().len() != key_x().len());
        assert(key_type().len() != key_y().len());
    }
    assert(key_x() != key_y()) by {
        assert(key_x()[0] != key_y()[0]);
    }
    assert(find_member(ms, key_x()) == find_member(msa, key_x()));
    assert(find_member(msa, key_x()) == Some(SpecVal::Int(x as int)));
    assert(find_member(ms, key_y()) == find_member(msa, key_y()));
    assert(find_member(msa, key_y()) == find_member(msb, key_y()));
    assert(find_member(msb, key_y()) == Some(SpecVal::Int(y as int)));
    assert(dispatch_spec(ms) == Decoded::Cmd(Command::Move { x, y }));
}

/// Round trip of the wire codec: decoding an encoded command always yields
/// exactly that command.
pub proof fn lemma_round_trip(c: Command)
    ensures
        decode_spec(encode_spec(c)) == Decoded::Cmd(c),
{
    match c {
        Command::Move { x, y } => lemma_round_trip_move(x, y),
        Command::Click(b) => lemma_round_trip_click(b),
    }
}

/// Encodes a command as its wire frame.
pub fn encode(c: &Command) -> (r: Vec<u8>)
    ensures
        r@ == encode_spec(*c),
{
    let mut out: Vec<u8> = Vec::new();
    match *c {
        Command::Move { x, y } => {
            out.push(LBRACE);
            out.push(QUOTE);
            out.push(116);
            out.push(121);
            out.push(112);
            out.push(101);
            out.push(QUOTE);
            out.push(COLON);
            out.push(QUOTE);
            out.push(109);
            out.push(111);
            out.push(118);
            out.push(101);
            out.push(QUOTE);
            out.push(COMMA);
            out.push(QUOTE);
            out.push(120);
            out.push(QUOTE);
            out.push(COLON);
            proof {
                assert(out@ =~= frag_move_prefix());
            }
            push_int(&mut out, x);
            out.push(COMMA);
            out.push(QUOTE);
            out.push(121);
            out.push(QUOTE);
            out.push(COLON);
            proof {
                assert(out@ =~= frag_move_prefix() + encode_int(x as int) + frag_move_mid());
            }
            push_int(&mut out, y);
            out.push(RBRACE);
            proof {
                assert(out@ =~= encode_spec(*c));
            }
        },
        Command::Click(Mouse::Left) => {
            out.push(LBRACE);
            out.push(QUOTE);
            out.push(116);
            out.push(121);
            out.push(112);
            out.push(101);
            out.push(QUOTE);
            out.push(COLON);
            out.push(QUOTE);
            out.push(99);
            out.push(108);
            out.push(105);
            out.push(99);
            out.push(107);
            out.push(95);
            out.push(108);
            out.push(101);
            out.push(102);
            out.push(116);
            out.push(QUOTE);
            out.push(RBRACE);
            proof {
                assert(out@ =~= frag_click_left());
            }
        },
        Command::Click(Mouse::Right) => {
            out.push(LBRACE);
            out.push(QUOTE);
            out.push(116);
            out.push(121);
            out.push(112);
            out.push(101);
            out.push(QUOTE);
            out.push(COLON);
            out.push(QUOTE);
            out.push(99);
            out.push(108);
            out.push(105);
            out.push(99);
            out.push(107);
            out.push(95);
            out.push(114);
            out.push(105);
            out.push(103);
            out.push(104);
            out.push(116);
            out.push(QUOTE);
            out.push(RBRACE);
            proof {
                assert(out@ =~= frag_click_right());
            }
        },
    }
    out
}

} // verus!
