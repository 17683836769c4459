use vstd::prelude::*;
use vstd::string::StrSliceExecFns;
use vstd::string::StringExecFns;
use crate::path::{SPPath, join_segments, split_segments};

verus! {

broadcast use vstd::std_specs::vec::group_vec_axioms;

/// A typed domain value. A float is held as the decimal text it was
/// received as.
pub enum SPValue {
    Bool(bool),
    Int32(i32),
    Float32(String),
    String(String),
    Path(SPPath),
    Array(Vec<SPValue>),
    Unknown,
}

/// The mathematical model of a value.
pub enum ValueModel {
    Bool(bool),
    Int32(i32),
    Float32(Seq<char>),
    String(Seq<char>),
    Path(Seq<Seq<char>>),
    Array(Seq<ValueModel>),
    Unknown,
}

pub open spec fn value_model(v: SPValue) -> ValueModel
    decreases v,
{
    match v {
        SPValue::Bool(b) => ValueModel::Bool(b),
        SPValue::Int32(i) => ValueModel::Int32(i),
        SPValue::Float32(t) => ValueModel::Float32(t@),
        SPValue::String(s) => ValueModel::String(s@),
        SPValue::Path(p) => ValueModel::Path(p@),
        SPValue::Array(a) => ValueModel::Array(
            Seq::new(
                a@.len(),
                |i: int|
                    if 0 <= i < a@.len() {
                        value_model(a@[i])
                    } else {
                        ValueModel::Unknown
                    },
            ),
        ),
        SPValue::Unknown => ValueModel::Unknown,
    }
}

impl View for SPValue {
    type V = ValueModel;

    open spec fn view(&self) -> ValueModel {
        value_model(*self)
    }
}

/// The character of a decimal digit.
pub open spec fn digit_char(d: int) -> char {
    seq!['0', '1', '2', '3', '4', '5', '6', '7', '8', '9'][d]
}

/// The decimal digits of a natural number, most significant first.
pub open spec fn nat_text(n: nat) -> Seq<char>
    decreases n,
{
    if n < 10 {
        seq![digit_char(n as int)]
    } else {
        nat_text(n / 10).push(digit_char((n % 10) as int))
    }
}

/// The decimal text of an integer: a minus sign before the digits of a
/// negative one.
pub open spec fn int_text(i: int) -> Seq<char> {
    if i < 0 {
        seq!['-'] + nat_text((-i) as nat)
    } else {
        nat_text(i as nat)
    }
}

pub open spec fn is_digit(c: char) -> bool {
    '0' <= c <= '9'
}

pub open spec fn all_digits(s: Seq<char>) -> bool {
    forall|i: int| 0 <= i < s.len() ==> is_digit(#[trigger] s[i])
}

/// The number that a string of decimal digits denotes.
pub open spec fn digits_value(s: Seq<char>) -> int
    decreases s.len(),
{
    if s.len() == 0 {
        0
    } else {
        digits_value(s.drop_last()) * 10 + (s.last() as int - '0' as int)
    }
}

/// The integer that a text denotes: an optional sign, then one or more
/// decimal digits, and nothing else.
pub open spec fn int_of_text(s: Seq<char>) -> Option<int> {
    if s.len() > 0 && (s[0] == '-' || s[0] == '+') {
        let d = s.drop_first();
        if d.len() > 0 && all_digits(d) {
            Some(if s[0] == '-' { -digits_value(d) } else { digits_value(d) })
        } else {
            None
        }
    } else if s.len() > 0 && all_digits(s) {
        Some(digits_value(s))
    } else {
        None
    }
}

/// The 32-bit integer that a text denotes, if it denotes one in range.
pub open spec fn i32_of_text(s: Seq<char>) -> Option<i32> {
    match int_of_text(s) {
        Some(v) => if i32::MIN <= v <= i32::MAX {
            Some(v as i32)
        } else {
            None
        },
        None => None,
    }
}

/// The number of decimal points in a text.
pub open spec fn count_points(s: Seq<char>) -> nat
    decreases s.len(),
{
    if s.len() == 0 {
        0
    } else {
        count_points(s.drop_last()) + if s.last() == '.' {
            1nat
        } else {
            0nat
        }
    }
}

/// A text made of digits with at most one decimal point, which stands
/// between two digits.
pub open spec fn is_unsigned_decimal(s: Seq<char>) -> bool {
    &&& s.len() > 0
    &&& is_digit(s[0])
    &&& is_digit(s.last())
    &&& forall|i: int| 0 <= i < s.len() ==> is_digit(#[trigger] s[i]) || s[i] == '.'
    &&& count_points(s) <= 1
}

/// A decimal numeral with an optional sign, the text form of a float.
pub open spec fn is_decimal_text(s: Seq<char>) -> bool {
    if s.len() > 0 && (s[0] == '-' || s[0] == '+') {
        is_unsigned_decimal(s.drop_first())
    } else {
        is_unsigned_decimal(s)
    }
}

/// The canonical text of a value, used for display and in outgoing messages.
pub open spec fn render(v: ValueModel) -> Seq<char>
    decreases v,
{
    match v {
        ValueModel::Bool(b) => if b {
            seq!['t', 'r', 'u', 'e']
        } else {
            seq!['f', 'a', 'l', 's', 'e']
        },
        ValueModel::Int32(i) => int_text(i as int),
        ValueModel::Float32(t) => t,
        ValueModel::String(s) => s,
        ValueModel::Path(p) => join_segments(p),
        ValueModel::Array(xs) => seq!['['] + render_items(xs) + seq![']'],
        ValueModel::Unknown => seq!['[', 'u', 'n', 'k', 'n', 'o', 'w', 'n', ']'],
    }
}

/// The texts of the items, joined by a comma and a space.
pub open spec fn render_items(xs: Seq<ValueModel>) -> Seq<char>
    decreases xs,
{
    if xs.len() == 0 {
        Seq::empty()
    } else if xs.len() == 1 {
        render(xs[0])
    } else {
        render_items(xs.subrange(0, xs.len() - 1)) + seq![',', ' '] + render(xs[xs.len() - 1])
    }
}

fn digit_str(d: u32) -> (r: &'static str)
    requires
        d < 10,
    ensures
        r@ == seq![digit_char(d as int)],
{
    proof {
        reveal_strlit("0");
        reveal_strlit("1");
        reveal_strlit("2");
        reveal_strlit("3");
        reveal_strlit("4");
        reveal_strlit("5");
        reveal_strlit("6");
        reveal_strlit("7");
        reveal_strlit("8");
        reveal_strlit("9");
    }
    match d {
        0 => "0",
        1 => "1",
        2 => "2",
        3 => "3",
        4 => "4",
        5 => "5",
        6 => "6",
        7 => "7",
        8 => "8",
        _ => "9",
    }
}

/// The decimal digits of a natural number.
pub fn nat_to_string(n: u64) -> (r: String)
    ensures
        r@ == nat_text(n as nat),
    decreases n,
{
    if n < 10 {
        String::from_str(digit_str(n as u32))
    } else {
        let mut r = nat_to_string(n / 10);
        r.append(digit_str((n % 10) as u32));
        r
    }
}

/// The decimal text of a 32-bit integer.
pub fn int_to_string(i: i32) -> (r: String)
    ensures
        r@ == int_text(i as int),
{
    if i < 0 {
        let n: u64 = (-(i as i64)) as u64;
        let digits = nat_to_string(n);
        proof {
            reveal_strlit("-");
        }
        String::from_str("-").concat(digits.as_str())
    } else {
        nat_to_string(i as u64)
    }
}

/// A bound above every magnitude that a 32-bit integer can have.
pub const DIGITS_CAP: u64 = 4294967296;

proof fn lemma_digits_value_nonneg(s: Seq<char>)
    requires
        all_digits(s),
    ensures
        digits_value(s) >= 0,
    decreases s.len(),
{
    if s.len() > 0 {
        assert(is_digit(s[s.len() - 1]));
        lemma_digits_value_nonneg(s.drop_last());
    }
}

/// The value of the digits `s[start..n]`, saturated at `DIGITS_CAP`, or `None`
/// where a character there is no digit.
fn digits_value_capped(s: &str, start: usize, n: usize) -> (r: Option<u64>)
    requires
        n == s@.len(),
        start <= n,
    ensures
        r.is_some() == all_digits(s@.subrange(start as int, n as int)),
        r.is_some() ==> r.unwrap() as int == if digits_value(s@.subrange(start as int, n as int))
            < DIGITS_CAP {
            digits_value(s@.subrange(start as int, n as int))
        } else {
            DIGITS_CAP as int
        },
{
    let mut acc: u64 = 0;
    let mut i: usize = start;
    assert(s@.subrange(start as int, start as int) =~= Seq::<char>::empty());
    while i < n
        invariant
            n == s@.len(),
            start <= i <= n,
            all_digits(s@.subrange(start as int, i as int)),
            acc <= DIGITS_CAP,
            acc as int == if digits_value(s@.subrange(start as int, i as int)) < DIGITS_CAP {
                digits_value(s@.subrange(start as int, i as int))
            } else {
                DIGITS_CAP as int
            },
        decreases n - i,
    {
        let c = s.get_char(i);
        let ghost prev = s@.subrange(start as int, i as int);
        let ghost next = s@.subrange(start as int, i + 1);
        assert(next.drop_last() =~= prev);
        assert(next.last() == c);
        if c < '0' || c > '9' {
            assert(!is_digit(s@.subrange(start as int, n as int)[i - start]));
            return None;
        }
        proof {
            lemma_digits_value_nonneg(prev);
        }
        let d: u64 = (c as u32 - '0' as u32) as u64;
        let stepped: u64 = acc * 10 + d;
        acc = if stepped < DIGITS_CAP {
            stepped
        } else {
            DIGITS_CAP
        };
        i = i + 1;
    }
    Some(acc)
}

/// Reads a 32-bit integer written in decimal, as `str::parse::<i32>` does.
pub fn parse_i32(s: &str) -> (r: Option<i32>)
    ensures
        r == i32_of_text(s@),
{
    let n = s.unicode_len();
    if n == 0 {
        return None;
    }
    let c0 = s.get_char(0);
    let neg = c0 == '-';
    let start: usize = if c0 == '-' || c0 == '+' {
        1
    } else {
        0
    };
    if start == n {
        return None;
    }
    assert(s@.drop_first() =~= s@.subrange(1, n as int));
    assert(s@ =~= s@.subrange(0, n as int));
    match digits_value_capped(s, start, n) {
        None => None,
        Some(v) => {
            proof {
                lemma_digits_value_nonneg(s@.subrange(start as int, n as int));
            }
            if neg {
                if v <= 2147483648 {
                    Some((-(v as i64)) as i32)
                } else {
                    None
                }
            } else {
                if v <= 2147483647 {
                    Some(v as i32)
                } else {
                    None
                }
            }
        },
    }
}

/// Whether `s[start..n]` is digits with at most one decimal point that stands
/// between two digits.
fn unsigned_decimal_check(s: &str, start: usize, n: usize) -> (r: bool)
    requires
        n == s@.len(),
        start <= n,
    ensures
        r == is_unsigned_decimal(s@.subrange(start as int, n as int)),
{
    let ghost t = s@.subrange(start as int, n as int);
    if start == n {
        return false;
    }
    let mut points: usize = 0;
    let mut i: usize = start;
    assert(s@.subrange(start as int, start as int) =~= Seq::<char>::empty());
    while i < n
        invariant
            n == s@.len(),
            start <= i <= n,
            t == s@.subrange(start as int, n as int),
            points == count_points(s@.subrange(start as int, i as int)),
            points <= 1,
            forall|j: int| 0 <= j < i - start ==> is_digit(#[trigger] t[j]) || t[j] == '.',
        decreases n - i,
    {
        let c = s.get_char(i);
        let ghost next = s@.subrange(start as int, i + 1);
        assert(next.drop_last() =~= s@.subrange(start as int, i as int));
        assert(next.last() == c);
        assert(t[i - start] == c);
        if c == '.' {
            if points == 1 {
                proof {
                    lemma_count_points_prefix(t, i + 1 - start, n - start);
                    assert(t.subrange(0, i + 1 - start) =~= next);
                    assert(t.subrange(0, n - start) =~= t);
                    assert(count_points(next) == 2);
                }
                return false;
            }
            points = points + 1;
        } else if c < '0' || c > '9' {
            assert(!(is_digit(t[i - start]) || t[i - start] == '.'));
            return false;
        }
        i = i + 1;
    }
    assert(s@.subrange(start as int, n as int) =~= t);
    let first = s.get_char(start);
    let last = s.get_char(n - 1);
    assert(t[0] == first);
    assert(t.last() == last);
    '0' <= first && first <= '9' && '0' <= last && last <= '9'
}

proof fn lemma_count_points_prefix(t: Seq<char>, k: int, m: int)
    requires
        0 <= k <= m <= t.len(),
    ensures
        count_points(t.subrange(0, k)) <= count_points(t.subrange(0, m)),
    decreases m - k,
{
    if k < m {
        lemma_count_points_prefix(t, k, m - 1);
        assert(t.subrange(0, m).drop_last() =~= t.subrange(0, m - 1));
    }
}

/// Whether a text is a decimal numeral, the form in which a float is written.
pub fn is_decimal(s: &str) -> (r: bool)
    ensures
        r == is_decimal_text(s@),
{
    let n = s.unicode_len();
    if n == 0 {
        return false;
    }
    let c0 = s.get_char(0);
    assert(s@.drop_first() =~= s@.subrange(1, n as int));
    assert(s@ =~= s@.subrange(0, n as int));
    if c0 == '-' || c0 == '+' {
        unsigned_decimal_check(s, 1, n)
    } else {
        unsigned_decimal_check(s, 0, n)
    }
}

/// A copy of a value with the same model.
fn copy_value(v: &SPValue) -> (r: SPValue)
    ensures
        r@ == v@,
    decreases v,
{
    match v {
        SPValue::Bool(b) => SPValue::Bool(*b),
        SPValue::Int32(i) => SPValue::Int32(*i),
        SPValue::Float32(t) => SPValue::Float32(t.clone()),
        SPValue::String(t) => SPValue::String(t.clone()),
        SPValue::Path(p) => SPValue::Path(p.clone()),
        SPValue::Array(a) => {
            let mut out: Vec<SPValue> = Vec::new();
            let mut i: usize = 0;
            while i < a.len()
                invariant
                    *v == SPValue::Array(*a),
                    i <= a@.len(),
                    out@.len() == i,
                    forall|j: int| 0 <= j < i ==> (#[trigger] out@[j])@ == a@[j]@,
                decreases a@.len() - i,
            {
                assert(decreases_to!(*a => a[i as int]));
                assert(decreases_to!(*v => (*v)->Array_0));
                out.push(copy_value(&a[i]));
                i = i + 1;
            }
            let r = SPValue::Array(out);
            assert(r@ == v@) by {
                if let ValueModel::Array(xs) = r@ {
                    if let ValueModel::Array(ys) = v@ {
                        assert(xs =~= ys);
                    }
                }
            }
            r
        },
        SPValue::Unknown => SPValue::Unknown,
    }
}

/// Whether two values have the same model.
fn value_eq(a: &SPValue, b: &SPValue) -> (r: bool)
    ensures
        r == (a@ == b@),
    decreases a,
{
    match a {
        SPValue::Array(x) => {
            match b {
                SPValue::Array(y) => {
                    let ghost xs = match a@ {
                        ValueModel::Array(m) => m,
                        _ => Seq::empty(),
                    };
                    let ghost ys = match b@ {
                        ValueModel::Array(m) => m,
                        _ => Seq::empty(),
                    };
                    assert(a@ == ValueModel::Array(xs));
                    assert(b@ == ValueModel::Array(ys));
                    assert(xs.len() == x@.len());
                    assert(ys.len() == y@.len());
                    assert(forall|j: int| 0 <= j < xs.len() ==> xs[j] == x@[j]@);
                    assert(forall|j: int| 0 <= j < ys.len() ==> ys[j] == y@[j]@);
                    if x.len() != y.len() {
                        assert(xs.len() != ys.len());
                        assert(a@ != b@);
                        return false;
                    }
                    let mut i: usize = 0;
                    while i < x.len()
                        invariant
                            *a == SPValue::Array(*x),
                            x@.len() == y@.len(),
                            i <= x@.len(),
                            forall|j: int| 0 <= j < i ==> x@[j]@ == y@[j]@,
                            a@ == ValueModel::Array(xs),
                            b@ == ValueModel::Array(ys),
                            xs.len() == x@.len(),
                            ys.len() == y@.len(),
                            forall|j: int| 0 <= j < xs.len() ==> xs[j] == x@[j]@,
                            forall|j: int| 0 <= j < ys.len() ==> ys[j] == y@[j]@,
                        decreases x@.len() - i,
                    {
                        assert(decreases_to!(*x => x[i as int]));
                        assert(decreases_to!(*a => (*a)->Array_0));
                        if !value_eq(&x[i], &y[i]) {
                            assert(xs[i as int] != ys[i as int]);
                            assert(a@ != b@);
                            return false;
                        }
                        i = i + 1;
                    }
                    assert(xs =~= ys);
                    assert(a@ == b@);
                    true
                },
                _ => {
                    assert(b@ !is Array);
                    false
                },
            }
        },
        SPValue::Bool(x) => match b {
            SPValue::Bool(y) => *x == *y,
            _ => {
                assert(b@ !is Bool);
                false
            },
        },
        SPValue::Int32(x) => match b {
            SPValue::Int32(y) => *x == *y,
            _ => false,
        },
        SPValue::Float32(x) => match b {
            SPValue::Float32(y) => x.eq(y),
            _ => false,
        },
        SPValue::String(x) => match b {
            SPValue::String(y) => x.eq(y),
            _ => false,
        },
        SPValue::Path(x) => match b {
            SPValue::Path(y) => x.eq(y),
            _ => false,
        },
        SPValue::Unknown => match b {
            SPValue::Unknown => true,
            _ => false,
        },
    }
}

/// The canonical text of a value.
fn render_value(v: &SPValue) -> (r: String)
    ensures
        r@ == render(v@),
    decreases v,
{
    proof {
        reveal_strlit("true");
        reveal_strlit("false");
        reveal_strlit("[unknown]");
        reveal_strlit("[");
        reveal_strlit("]");
        reveal_strlit(", ");
    }
    match v {
        SPValue::Bool(b) => if *b {
            String::from_str("true")
        } else {
            String::from_str("false")
        },
        SPValue::Int32(i) => int_to_string(*i),
        SPValue::Float32(t) => t.clone(),
        SPValue::String(t) => t.clone(),
        SPValue::Path(p) => p.to_string(),
        SPValue::Array(a) => {
            let ghost xs = match v@ {
                ValueModel::Array(m) => m,
                _ => Seq::empty(),
            };
            assert(v@ == ValueModel::Array(xs));
            assert(xs.len() == a@.len());
            assert(forall|j: int| 0 <= j < xs.len() ==> xs[j] == a@[j]@);
            let mut out = String::from_str("[");
            let mut i: usize = 0;
            assert(xs.subrange(0, 0) =~= Seq::<ValueModel>::empty());
            while i < a.len()
                invariant
                    *v == SPValue::Array(*a),
                    i <= a@.len(),
                    xs.len() == a@.len(),
                    forall|j: int| 0 <= j < xs.len() ==> xs[j] == a@[j]@,
                    out@ == seq!['['] + render_items(xs.subrange(0, i as int)),
                decreases a@.len() - i,
            {
                assert(xs.subrange(0, i + 1).subrange(0, i as int) =~= xs.subrange(0, i as int));
                assert(xs.subrange(0, i + 1)[i as int] == xs[i as int]);
                proof {
                    reveal_strlit(", ");
                }
                if i > 0 {
                    out.append(", ");
                }
                assert(decreases_to!(*a => a[i as int]));
                assert(decreases_to!(*v => (*v)->Array_0));
                let part = render_value(&a[i]);
                out.append(part.as_str());
                assert(part@ == render(xs[i as int]));
                if i == 0 {
                    assert(render_items(xs.subrange(0, 1)) == render(xs[0]));
                } else {
                    assert(render_items(xs.subrange(0, i + 1)) == render_items(xs.subrange(0, i as int))
                        + seq![',', ' '] + render(xs[i as int]));
                }
                assert(out@ =~= seq!['['] + render_items(xs.subrange(0, i + 1)));
                i = i + 1;
            }
            out.append("]");
            assert(xs.subrange(0, xs.len() as int) =~= xs);
            out
        },
        SPValue::Unknown => String::from_str("[unknown]"),
    }
}

impl SPValue {
    /// The canonical text of this value.
    pub fn to_string(&self) -> (r: String)
        ensures
            r@ == render(self@),
    {
        render_value(self)
    }
}

impl Clone for SPValue {
    fn clone(&self) -> (r: SPValue)
        ensures
            r@ == self@,
    {
        copy_value(self)
    }
}

impl PartialEq for SPValue {
    fn eq(&self, other: &SPValue) -> (r: bool)
        ensures
            r == (self@ == other@),
    {
        value_eq(self, other)
    }
}

impl vstd::std_specs::cmp::PartialEqSpecImpl for SPValue {
    open spec fn obeys_eq_spec() -> bool {
        true
    }

    open spec fn eq_spec(&self, other: &SPValue) -> bool {
        self@ == other@
    }
}

} // verus!
