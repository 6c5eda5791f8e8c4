//! The runtime value model: a tagged union of the language's values with
//! its arithmetic, equality, and display rules.
//!
//! Arithmetic follows the language definition: `+` concatenates strings and
//! renders numbers into them, `*` repeats strings, `/` is truncating integer
//! division. A result outside the 64-bit signed range is an evaluation
//! error rather than a wrapped value, as is division by zero.

use vstd::prelude::*;
use vstd::string::StringExecFns;
use crate::ast::{ast_view, AstNode, AstV};
use crate::text::{chars_to_string, string_to_chars};

verus! {

broadcast use {vstd::std_specs::vec::group_vec_axioms, vstd::seq::group_seq_axioms};

/// Mathematical model of a runtime value. Dictionaries are modeled as
/// key/value pairs; a lookup takes the first pair holding its key, and an
/// insert replaces that pair or appends one.
pub enum ValueV {
    Number(i64),
    String(Seq<char>),
    Array(Seq<ValueV>),
    Dictionary(Seq<(Seq<char>, ValueV)>),
    Bool(bool),
    Function { name: Seq<char>, params: Seq<Seq<char>>, body: Box<AstV> },
    Nil,
}

/// A runtime value of the language.
#[derive(Debug)]
pub enum Value {
    /// A 64-bit signed integer
    Number(i64),
    /// A text value
    String(String),
    /// An ordered sequence of values
    Array(Vec<Value>),
    /// A string-keyed mapping, stored as pairs; lookups take the first
    /// pair holding the key
    Dictionary(Vec<(String, Value)>),
    /// A boolean
    Bool(bool),
    /// A user-declared function: its name, parameter names in order, and
    /// the body it was declared with
    Function { name: String, params: Vec<String>, body: Box<AstNode> },
    /// The absent value, produced by `return` without an expression
    Nil,
}

/// The model of a runtime value.
pub open spec fn value_view(v: Value) -> ValueV
    decreases v,
{
    match v {
        Value::Number(n) => ValueV::Number(n),
        Value::String(s) => ValueV::String(s@),
        Value::Array(es) => ValueV::Array(values_view(es)),
        Value::Dictionary(ps) => ValueV::Dictionary(entries_view(ps)),
        Value::Bool(b) => ValueV::Bool(b),
        Value::Function { name, params, body } => ValueV::Function {
            name: name@,
            params: Seq::new(params@.len(), |i: int| params@[i]@),
            body: Box::new(ast_view(*body)),
        },
        Value::Nil => ValueV::Nil,
    }
}

/// The models of a list of values, elementwise.
pub open spec fn values_view(v: Vec<Value>) -> Seq<ValueV>
    decreases v,
{
    Seq::new(
        v@.len(),
        |i: int| if 0 <= i < v@.len() {
            value_view(v@[i])
        } else {
            ValueV::Nil
        },
    )
}

/// The models of a list of dictionary entries, elementwise.
pub open spec fn entries_view(v: Vec<(String, Value)>) -> Seq<(Seq<char>, ValueV)>
    decreases v,
{
    Seq::new(
        v@.len(),
        |i: int| if 0 <= i < v@.len() {
            (v@[i].0@, value_view(v@[i].1))
        } else {
            (Seq::<char>::empty(), ValueV::Nil)
        },
    )
}

impl View for Value {
    type V = ValueV;

    open spec fn view(&self) -> ValueV {
        value_view(*self)
    }
}

impl Clone for Value {
    /// Cloning yields a value with the same model: arrays and dictionaries
    /// are copied element by element.
    fn clone(&self) -> (res: Self)
        ensures
            res@ == self@,
        decreases self,
    {
        match self {
            Value::Number(n) => Value::Number(*n),
            Value::String(s) => Value::String(s.clone()),
            Value::Array(es) => Value::Array(clone_values(es)),
            Value::Dictionary(ps) => Value::Dictionary(clone_entries(ps)),
            Value::Bool(b) => Value::Bool(*b),
            Value::Function { name, params, body } => Value::Function {
                name: name.clone(),
                params: crate::ast::clone_names(params),
                body: Box::new((**body).clone()),
            },
            Value::Nil => Value::Nil,
        }
    }
}

/// Deep-copies a list of values, preserving the models elementwise.
fn clone_values(v: &Vec<Value>) -> (res: Vec<Value>)
    ensures
        values_view(res) == values_view(*v),
    decreases v,
{
    let mut out: Vec<Value> = Vec::new();
    let mut i: usize = 0;
    while i < v.len()
        invariant
            i <= v.len(),
            out@.len() == i,
            forall|j: int| 0 <= j < i ==> value_view(out@[j]) == value_view(v@[j]),
        decreases v.len() - i,
    {
        out.push(v[i].clone());
        i = i + 1;
    }
    proof {
        assert(values_view(out) =~= values_view(*v));
    }
    out
}

/// Deep-copies a list of dictionary entries, preserving the models.
fn clone_entries(v: &Vec<(String, Value)>) -> (res: Vec<(String, Value)>)
    ensures
        entries_view(res) == entries_view(*v),
    decreases v,
{
    let mut out: Vec<(String, Value)> = Vec::new();
    let mut i: usize = 0;
    while i < v.len()
        invariant
            i <= v.len(),
            out@.len() == i,
            forall|j: int| 0 <= j < i ==> out@[j].0@ == v@[j].0@ && value_view(out@[j].1)
                == value_view(v@[j].1),
        decreases v.len() - i,
    {
        let pair = &v[i];
        out.push((pair.0.clone(), pair.1.clone()));
        i = i + 1;
    }
    proof {
        assert(entries_view(out) =~= entries_view(*v));
    }
    out
}

/// Language equality: defined for Nil/Nil, Number/Number, String/String,
/// Bool/Bool, and Array/Array elementwise; every other pairing, including
/// anything involving a Function or a Dictionary, is unequal.
pub open spec fn lang_eq(a: ValueV, b: ValueV) -> bool
    decreases a,
{
    match (a, b) {
        (ValueV::Nil, ValueV::Nil) => true,
        (ValueV::Number(x), ValueV::Number(y)) => x == y,
        (ValueV::String(x), ValueV::String(y)) => x == y,
        (ValueV::Bool(x), ValueV::Bool(y)) => x == y,
        (ValueV::Array(x), ValueV::Array(y)) => x.len() == y.len() && (forall|i: int|
            0 <= i < x.len() ==> lang_eq(x[i], #[trigger] y[i])),
        _ => false,
    }
}

/// Decides language equality of two values.
pub fn values_equal(a: &Value, b: &Value) -> (r: bool)
    ensures
        r == lang_eq(a@, b@),
    decreases a,
{
    match a {
        Value::Nil => matches!(b, Value::Nil),
        Value::Number(x) => match b {
            Value::Number(y) => *x == *y,
            _ => false,
        },
        Value::String(x) => match b {
            Value::String(y) => *x == *y,
            _ => false,
        },
        Value::Bool(x) => match b {
            Value::Bool(y) => *x == *y,
            _ => false,
        },
        Value::Array(x) => {
            let r = match b {
                Value::Array(y) => {
                    let rr = value_lists_equal(x, y);
                    proof {
                        let vx = values_view(*x);
                        let vy = values_view(*y);
                        assert(a@ == ValueV::Array(vx));
                        assert(b@ == ValueV::Array(vy));
                        if rr {
                            assert(vx.len() == vy.len());
                            assert(forall|i: int| 0 <= i < vx.len() ==> lang_eq(vx[i], #[trigger] vy[i]));
                            assert(lang_eq(a@, b@));
                        } else {
                            assert(!lang_eq(a@, b@));
                        }
                    }
                    rr
                },
                _ => false,
            };
            r
        },
        _ => false,
    }
}

/// Decides elementwise language equality of two value lists.
fn value_lists_equal(x: &Vec<Value>, y: &Vec<Value>) -> (r: bool)
    ensures
        r == (x@.len() == y@.len() && (forall|i: int| 0 <= i < x@.len() ==> lang_eq(
            values_view(*x)[i],
            #[trigger] values_view(*y)[i],
        ))),
    decreases x,
{
    if x.len() != y.len() {
        return false;
    }
    let mut i: usize = 0;
    while i < x.len()
        invariant
            i <= x.len(),
            x@.len() == y@.len(),
            forall|j: int| 0 <= j < i ==> lang_eq(values_view(*x)[j], #[trigger] values_view(*y)[j]),
        decreases x.len() - i,
    {
        let eq = values_equal(&x[i], &y[i]);
        proof {
            assert(values_view(*x)[i as int] == value_view(x@[i as int]));
            assert(values_view(*y)[i as int] == value_view(y@[i as int]));
        }
        if !eq {
            return false;
        }
        i = i + 1;
    }
    true
}

impl PartialEq for Value {
    fn eq(&self, other: &Value) -> (r: bool) {
        values_equal(self, other)
    }
}

impl vstd::std_specs::cmp::PartialEqSpecImpl for Value {
    open spec fn obeys_eq_spec() -> bool {
        true
    }

    open spec fn eq_spec(&self, other: &Value) -> bool {
        lang_eq(self@, other@)
    }
}


/// The strings the language uses for comparison results and conditions.
pub open spec fn bool_chars(b: bool) -> Seq<char> {
    if b {
        "true"@
    } else {
        "false"@
    }
}

/// The digit character for one decimal digit.
pub open spec fn digit_char(d: int) -> char {
    ((48 + d) as u8) as char
}

/// The decimal digits of a natural number, most significant first.
pub open spec fn dec_digits(n: nat) -> Seq<char>
    decreases n,
{
    if n < 10 {
        seq![digit_char(n as int)]
    } else {
        dec_digits(n / 10).push(digit_char((n % 10) as int))
    }
}

/// The decimal rendering of an integer, with a leading minus sign when
/// negative.
pub open spec fn dec_str(n: int) -> Seq<char> {
    if n >= 0 {
        dec_digits(n as nat)
    } else {
        seq!['-'] + dec_digits((-n) as nat)
    }
}

/// The absolute value.
pub open spec fn mag(a: int) -> int {
    if a >= 0 {
        a
    } else {
        -a
    }
}

/// Truncating integer division: the quotient rounded toward zero, as the
/// language's `/` computes it.
pub open spec fn trunc_div(a: int, b: int) -> int {
    if (a >= 0) == (b >= 0) {
        mag(a) / mag(b)
    } else {
        -(mag(a) / mag(b))
    }
}

/// A string repeated a given number of times.
pub open spec fn str_rep(s: Seq<char>, n: nat) -> Seq<char>
    decreases n,
{
    if n == 0 {
        Seq::empty()
    } else {
        str_rep(s, (n - 1) as nat) + s
    }
}

/// What `+` yields on two values, or nothing when the pairing is undefined
/// or the numeric result leaves the 64-bit signed range.
pub open spec fn add_spec(a: ValueV, b: ValueV) -> Option<ValueV> {
    match (a, b) {
        (ValueV::Number(x), ValueV::Number(y)) => {
            if i64::MIN <= x + y <= i64::MAX {
                Some(ValueV::Number((x + y) as i64))
            } else {
                None
            }
        },
        (ValueV::String(x), ValueV::String(y)) => Some(ValueV::String(x + y)),
        (ValueV::String(x), ValueV::Number(y)) => Some(ValueV::String(x + dec_str(y as int))),
        (ValueV::Number(x), ValueV::String(y)) => Some(ValueV::String(dec_str(x as int) + y)),
        (ValueV::String(x), ValueV::Nil) => Some(ValueV::String(x + seq!['n', 'i', 'l'])),
        (ValueV::Nil, ValueV::String(y)) => Some(ValueV::String(y + seq!['n', 'i', 'l'])),
        _ => None,
    }
}

/// What `-` yields: defined on numbers only.
pub open spec fn sub_spec(a: ValueV, b: ValueV) -> Option<ValueV> {
    match (a, b) {
        (ValueV::Number(x), ValueV::Number(y)) => {
            if i64::MIN <= x - y <= i64::MAX {
                Some(ValueV::Number((x - y) as i64))
            } else {
                None
            }
        },
        _ => None,
    }
}

/// What `*` yields: numeric product, or a string repeated a non-negative
/// number of times (in either operand order).
pub open spec fn mul_spec(a: ValueV, b: ValueV) -> Option<ValueV> {
    match (a, b) {
        (ValueV::Number(x), ValueV::Number(y)) => {
            if i64::MIN <= x * y <= i64::MAX {
                Some(ValueV::Number((x * y) as i64))
            } else {
                None
            }
        },
        (ValueV::String(s), ValueV::Number(n)) => {
            if n < 0 {
                None
            } else {
                Some(ValueV::String(str_rep(s, n as nat)))
            }
        },
        (ValueV::Number(n), ValueV::String(s)) => {
            if n < 0 {
                None
            } else {
                Some(ValueV::String(str_rep(s, n as nat)))
            }
        },
        _ => None,
    }
}

/// What `/` yields: truncating division of numbers; nothing on a zero
/// divisor, a non-numeric operand, or a quotient out of range.
pub open spec fn div_spec(a: ValueV, b: ValueV) -> Option<ValueV> {
    match (a, b) {
        (ValueV::Number(x), ValueV::Number(y)) => {
            if y == 0 {
                None
            } else if trunc_div(x as int, y as int) <= i64::MAX {
                Some(ValueV::Number(trunc_div(x as int, y as int) as i64))
            } else {
                None
            }
        },
        _ => None,
    }
}


/// The message `+` reports: overflow on two numbers, and the undefined
/// pairing otherwise.
pub open spec fn add_err_spec(a: ValueV, b: ValueV) -> Seq<char> {
    if a is Number && b is Number {
        "Integer overflow in addition"@
    } else {
        "Cannot add in this instance!"@
    }
}

/// The message `-` reports.
pub open spec fn sub_err_spec(a: ValueV, b: ValueV) -> Seq<char> {
    if a is Number && b is Number {
        "Integer overflow in subtraction"@
    } else {
        "Cannot subtract non-numeric values"@
    }
}

/// The message `*` reports.
pub open spec fn mul_err_spec(a: ValueV, b: ValueV) -> Seq<char> {
    match (a, b) {
        (ValueV::Number(x), ValueV::Number(y)) => "Integer overflow in multiplication"@,
        (ValueV::String(s), ValueV::Number(n)) => "Cannot multiply string by negative number"@,
        (ValueV::Number(n), ValueV::String(s)) => "Cannot multiply string by negative number"@,
        _ => "Cannot multiply two strings"@,
    }
}

/// The message `/` reports.
pub open spec fn div_err_spec(a: ValueV, b: ValueV) -> Seq<char> {
    match (a, b) {
        (ValueV::Number(x), ValueV::Number(y)) => {
            if y == 0 {
                "Division by zero"@
            } else {
                "Integer overflow in division"@
            }
        },
        _ => "Cannot divide non-numeric values"@,
    }
}

/// The display text of a value, or nothing when the value holds a function
/// anywhere inside it.
pub open spec fn display_spec(v: ValueV) -> Option<Seq<char>>
    decreases v,
{
    match v {
        ValueV::Number(n) => Some(dec_str(n as int)),
        ValueV::String(s) => Some(s),
        ValueV::Bool(b) => Some(
            if b {
                seq!['t', 'r', 'u', 'e']
            } else {
                seq!['f', 'a', 'l', 's', 'e']
            },
        ),
        ValueV::Array(es) => match display_items(es) {
            Some(t) => Some(seq!['['] + t + seq![']']),
            None => None,
        },
        ValueV::Dictionary(ps) => match display_entries(ps) {
            Some(t) => Some(seq!['{'] + t + seq!['}']),
            None => None,
        },
        ValueV::Function { .. } => None,
        ValueV::Nil => Some(seq!['n', 'i', 'l']),
    }
}

/// The display texts of array elements joined by a comma and a space.
pub open spec fn display_items(es: Seq<ValueV>) -> Option<Seq<char>>
    decreases es,
{
    if es.len() == 0 {
        Some(Seq::empty())
    } else if es.len() == 1 {
        display_spec(es[0])
    } else {
        match (display_items(es.drop_last()), display_spec(es.last())) {
            (Some(front), Some(last)) => Some(front + seq![',', ' '] + last),
            _ => None,
        }
    }
}

/// The display texts of dictionary entries, each as a quoted key, a colon
/// and a space, and the value's text, joined by a comma and a space.
pub open spec fn display_entries(ps: Seq<(Seq<char>, ValueV)>) -> Option<Seq<char>>
    decreases ps,
{
    if ps.len() == 0 {
        Some(Seq::empty())
    } else if ps.len() == 1 {
        display_entry(ps[0])
    } else {
        match (display_entries(ps.drop_last()), display_entry(ps.last())) {
            (Some(front), Some(last)) => Some(front + seq![',', ' '] + last),
            _ => None,
        }
    }
}

/// The display text of one dictionary entry.
pub open spec fn display_entry(p: (Seq<char>, ValueV)) -> Option<Seq<char>>
    decreases p,
{
    match display_spec(p.1) {
        Some(t) => Some(seq!['"'] + p.0 + seq!['"', ':', ' '] + t),
        None => None,
    }
}

/// The digit character of one decimal digit.
fn digit_char_of(d: u64) -> (c: char)
    requires
        d < 10,
    ensures
        c == digit_char(d as int),
{
    (48u8 + (d as u8)) as char
}

/// The decimal digits of an unsigned number, as characters.
fn u64_digits(n: u64) -> (r: Vec<char>)
    ensures
        r@ == dec_digits(n as nat),
    decreases n,
{
    if n < 10 {
        let mut v: Vec<char> = Vec::new();
        v.push(digit_char_of(n));
        proof {
            assert(v@ =~= dec_digits(n as nat));
        }
        v
    } else {
        let mut v = u64_digits(n / 10);
        v.push(digit_char_of(n % 10));
        v
    }
}

/// The magnitude of a signed number.
fn mag_u64(a: i64) -> (r: u64)
    ensures
        r as int == mag(a as int),
{
    if a >= 0 {
        a as u64
    } else {
        ((-(a + 1)) as u64) + 1
    }
}

/// Renders an integer in decimal, with a leading minus sign when negative.
pub fn to_decimal(n: i64) -> (r: String)
    ensures
        r@ == dec_str(n as int),
{
    if n >= 0 {
        let ds = u64_digits(n as u64);
        chars_to_string(&ds)
    } else {
        let m: u64 = ((-(n + 1)) as u64) + 1;
        let mut ds = u64_digits(m);
        ds.insert(0, '-');
        proof {
            assert(m as int == -(n as int));
            assert(ds@ =~= seq!['-'] + dec_digits((-(n as int)) as nat));
        }
        chars_to_string(&ds)
    }
}

/// A string repeated a given number of times.
fn repeat_string(s: &String, n: u64) -> (r: String)
    ensures
        r@ == str_rep(s@, n as nat),
{
    let cs = string_to_chars(s.as_str());
    let mut out: Vec<char> = Vec::new();
    let mut k: u64 = 0;
    while k < n
        invariant
            k <= n,
            cs@ == s@,
            out@ == str_rep(s@, k as nat),
        decreases n - k,
    {
        let mut j: usize = 0;
        while j < cs.len()
            invariant
                j <= cs.len(),
                cs@ == s@,
                out@ == str_rep(s@, k as nat) + cs@.subrange(0, j as int),
            decreases cs.len() - j,
        {
            out.push(cs[j]);
            proof {
                assert(out@ =~= str_rep(s@, k as nat) + cs@.subrange(0, j + 1 as int));
            }
            j = j + 1;
        }
        proof {
            assert(cs@.subrange(0, cs@.len() as int) =~= s@);
            assert(out@ =~= str_rep(s@, (k + 1) as nat));
        }
        k = k + 1;
    }
    chars_to_string(&out)
}

/// Bounds the product of two 64-bit signed values.
proof fn lemma_mul_i64_in_i128(a: int, b: int)
    requires
        i64::MIN <= a <= i64::MAX,
        i64::MIN <= b <= i64::MAX,
    ensures
        -0x40000000000000000000000000000000 <= a * b <= 0x40000000000000000000000000000000,
{
    assert(-0x40000000000000000000000000000000 <= a * b
        <= 0x40000000000000000000000000000000) by (nonlinear_arith)
        requires
            -0x8000000000000000 <= a <= 0x7fffffffffffffff,
            -0x8000000000000000 <= b <= 0x7fffffffffffffff,
    ;
}

impl Value {
    /// What `+` yields: numeric sum, string concatenation, a number rendered
    /// into a string (either order), or `nil` appended to a string (either
    /// order); every other pairing, and a sum out of range, is an error.
    pub fn add(&self, other: &Value) -> (r: Result<Value, String>)
        ensures
            match add_spec(self@, other@) {
                Some(v) => r matches Ok(out) && out@ == v,
                None => r matches Err(m) && m@ == add_err_spec(self@, other@),
            },
    {
        match self {
            Value::Number(x) => match other {
                Value::Number(y) => {
                    let s: i128 = (*x as i128) + (*y as i128);
                    if s < i64::MIN as i128 || s > i64::MAX as i128 {
                        Err(err_text("Integer overflow in addition"))
                    } else {
                        Ok(Value::Number(s as i64))
                    }
                },
                Value::String(y) => {
                    let mut t = to_decimal(*x);
                    t.append(y.as_str());
                    Ok(Value::String(t))
                },
                _ => Err(err_text("Cannot add in this instance!")),
            },
            Value::String(x) => match other {
                Value::String(y) => {
                    let mut t = x.clone();
                    t.append(y.as_str());
                    Ok(Value::String(t))
                },
                Value::Number(y) => {
                    let mut t = x.clone();
                    let d = to_decimal(*y);
                    t.append(d.as_str());
                    Ok(Value::String(t))
                },
                Value::Nil => {
                    let mut t = x.clone();
                    t.append("nil");
                    proof {
                        reveal_strlit("nil");
                        assert(t@ =~= x@ + seq!['n', 'i', 'l']);
                    }
                    Ok(Value::String(t))
                },
                _ => Err(err_text("Cannot add in this instance!")),
            },
            Value::Nil => match other {
                Value::String(y) => {
                    let mut t = y.clone();
                    t.append("nil");
                    proof {
                        reveal_strlit("nil");
                        assert(t@ =~= y@ + seq!['n', 'i', 'l']);
                    }
                    Ok(Value::String(t))
                },
                _ => Err(err_text("Cannot add in this instance!")),
            },
            _ => Err(err_text("Cannot add in this instance!")),
        }
    }

    /// What `-` yields: the numeric difference; anything else, or a
    /// difference out of range, is an error.
    pub fn sub(&self, other: &Value) -> (r: Result<Value, String>)
        ensures
            match sub_spec(self@, other@) {
                Some(v) => r matches Ok(out) && out@ == v,
                None => r matches Err(m) && m@ == sub_err_spec(self@, other@),
            },
    {
        match self {
            Value::Number(x) => match other {
                Value::Number(y) => {
                    let s: i128 = (*x as i128) - (*y as i128);
                    if s < i64::MIN as i128 || s > i64::MAX as i128 {
                        Err(err_text("Integer overflow in subtraction"))
                    } else {
                        Ok(Value::Number(s as i64))
                    }
                },
                _ => Err(err_text("Cannot subtract non-numeric values")),
            },
            _ => Err(err_text("Cannot subtract non-numeric values")),
        }
    }

    /// What `*` yields: numeric product, or a string repeated a non-negative
    /// number of times (in either operand order); a negative repeat count,
    /// any other pairing, and a product out of range are errors.
    pub fn mul(&self, other: &Value) -> (r: Result<Value, String>)
        ensures
            match mul_spec(self@, other@) {
                Some(v) => r matches Ok(out) && out@ == v,
                None => r matches Err(m) && m@ == mul_err_spec(self@, other@),
            },
    {
        match self {
            Value::Number(x) => match other {
                Value::Number(y) => {
                    proof {
                        lemma_mul_i64_in_i128(*x as int, *y as int);
                    }
                    let p: i128 = (*x as i128) * (*y as i128);
                    if p < i64::MIN as i128 || p > i64::MAX as i128 {
                        Err(err_text("Integer overflow in multiplication"))
                    } else {
                        Ok(Value::Number(p as i64))
                    }
                },
                Value::String(s) => {
                    if *x < 0 {
                        Err(err_text("Cannot multiply string by negative number"))
                    } else {
                        Ok(Value::String(repeat_string(s, *x as u64)))
                    }
                },
                _ => Err(err_text("Cannot multiply two strings")),
            },
            Value::String(s) => match other {
                Value::Number(y) => {
                    if *y < 0 {
                        Err(err_text("Cannot multiply string by negative number"))
                    } else {
                        Ok(Value::String(repeat_string(s, *y as u64)))
                    }
                },
                _ => Err(err_text("Cannot multiply two strings")),
            },
            _ => Err(err_text("Cannot multiply two strings")),
        }
    }

    /// What `/` yields: the truncating quotient of two numbers. A zero
    /// divisor, a non-numeric operand, and the one out-of-range quotient
    /// are errors.
    pub fn div(&self, other: &Value) -> (r: Result<Value, String>)
        ensures
            match div_spec(self@, other@) {
                Some(v) => r matches Ok(out) && out@ == v,
                None => r matches Err(m) && m@ == div_err_spec(self@, other@),
            },
    {
        match self {
            Value::Number(x) => match other {
                Value::Number(y) => {
                    if *y == 0 {
                        return Err(err_text("Division by zero"));
                    }
                    let mx = mag_u64(*x);
                    let my = mag_u64(*y);
                    let q = mx / my;
                    proof {
                        vstd::arithmetic::div_mod::lemma_div_nonincreasing(mx as int, my as int);
                    }
                    if (*x >= 0) == (*y >= 0) {
                        if q <= i64::MAX as u64 {
                            Ok(Value::Number(q as i64))
                        } else {
                            Err(err_text("Integer overflow in division"))
                        }
                    } else {
                        if q <= i64::MAX as u64 {
                            Ok(Value::Number(-(q as i64)))
                        } else {
                            Ok(Value::Number(i64::MIN))
                        }
                    }
                },
                _ => Err(err_text("Cannot divide non-numeric values")),
            },
            _ => Err(err_text("Cannot divide non-numeric values")),
        }
    }

    /// Renders the value as the language displays it, or nothing when the
    /// value holds a function anywhere inside it.
    pub fn render(&self) -> (r: Option<String>)
        ensures
            match display_spec(self@) {
                Some(t) => r matches Some(s) && s@ == t,
                None => r is None,
            },
        decreases self,
    {
        match self {
            Value::Number(n) => Some(to_decimal(*n)),
            Value::String(s) => Some(s.clone()),
            Value::Bool(b) => {
                if *b {
                    let t = str_to_string("true");
                    proof {
                        reveal_strlit("true");
                        assert(t@ =~= seq!['t', 'r', 'u', 'e']);
                    }
                    Some(t)
                } else {
                    let t = str_to_string("false");
                    proof {
                        reveal_strlit("false");
                        assert(t@ =~= seq!['f', 'a', 'l', 's', 'e']);
                    }
                    Some(t)
                }
            },
            Value::Array(es) => match render_items(es) {
                Some(t) => {
                    let mut out = str_to_string("[");
                    out.append(t.as_str());
                    out.append("]");
                    proof {
                        reveal_strlit("[");
                        reveal_strlit("]");
                        assert(out@ =~= seq!['['] + t@ + seq![']']);
                    }
                    Some(out)
                },
                None => None,
            },
            Value::Dictionary(ps) => match render_entries(ps) {
                Some(t) => {
                    let mut out = str_to_string("{");
                    out.append(t.as_str());
                    out.append("}");
                    proof {
                        reveal_strlit("{");
                        reveal_strlit("}");
                        assert(out@ =~= seq!['{'] + t@ + seq!['}']);
                    }
                    Some(out)
                },
                None => None,
            },
            Value::Function { .. } => None,
            Value::Nil => {
                let t = str_to_string("nil");
                proof {
                    reveal_strlit("nil");
                    assert(t@ =~= seq!['n', 'i', 'l']);
                }
                Some(t)
            },
        }
    }
}

/// Copies a string slice into an owned string.
pub fn str_to_string(s: &str) -> (r: String)
    ensures
        r@ == s@,
{
    let mut r = String::new();
    r.append(s);
    r
}

/// Builds an error message from its text.
pub fn err_text(s: &str) -> (r: String)
    ensures
        r@ == s@,
{
    str_to_string(s)
}

/// A list with a non-displayable element has no display text.
proof fn lemma_display_items_none(es: Seq<ValueV>, k: int)
    requires
        0 <= k < es.len(),
        display_spec(es[k]) is None,
    ensures
        display_items(es) is None,
    decreases es,
{
    if es.len() == 1 {
    } else if k == es.len() - 1 {
    } else {
        lemma_display_items_none(es.drop_last(), k);
    }
}

/// An entry list with a non-displayable value has no display text.
proof fn lemma_display_entries_none(ps: Seq<(Seq<char>, ValueV)>, k: int)
    requires
        0 <= k < ps.len(),
        display_entry(ps[k]) is None,
    ensures
        display_entries(ps) is None,
    decreases ps,
{
    if ps.len() == 1 {
    } else if k == ps.len() - 1 {
    } else {
        lemma_display_entries_none(ps.drop_last(), k);
    }
}

/// Renders array elements joined by a comma and a space.
fn render_items(es: &Vec<Value>) -> (r: Option<String>)
    ensures
        match display_items(values_view(*es)) {
            Some(t) => r matches Some(s) && s@ == t,
            None => r is None,
        },
    decreases es,
{
    let mut acc = String::new();
    let mut i: usize = 0;
    while i < es.len()
        invariant
            i <= es.len(),
            display_items(values_view(*es).subrange(0, i as int)) matches Some(t) && acc@ == t,
        decreases es.len() - i,
    {
        let ghost prefix = values_view(*es).subrange(0, i as int);
        match es[i].render() {
            Some(t) => {
                if i > 0 {
                    acc.append(", ");
                }
                acc.append(t.as_str());
                proof {
                    reveal_strlit(", ");
                    let prefix2 = values_view(*es).subrange(0, (i + 1) as int);
                    assert(prefix2.drop_last() =~= prefix);
                    assert(prefix2.last() == value_view(es@[i as int]));
                    if i == 0 {
                        assert(acc@ =~= display_items(prefix2)->0);
                    } else {
                        assert(acc@ =~= display_items(prefix)->0 + seq![',', ' '] + t@);
                        assert(acc@ =~= display_items(prefix2)->0);
                    }
                }
            },
            None => {
                proof {
                    lemma_display_items_none(values_view(*es), i as int);
                }
                return None;
            },
        }
        i = i + 1;
    }
    proof {
        assert(values_view(*es).subrange(0, es@.len() as int) =~= values_view(*es));
    }
    Some(acc)
}

/// Renders dictionary entries, each as a quoted key, a colon and a space,
/// and the value's text, joined by a comma and a space.
fn render_entries(ps: &Vec<(String, Value)>) -> (r: Option<String>)
    ensures
        match display_entries(entries_view(*ps)) {
            Some(t) => r matches Some(s) && s@ == t,
            None => r is None,
        },
    decreases ps,
{
    let mut acc = String::new();
    let mut i: usize = 0;
    while i < ps.len()
        invariant
            i <= ps.len(),
            display_entries(entries_view(*ps).subrange(0, i as int)) matches Some(t) && acc@ == t,
        decreases ps.len() - i,
    {
        let ghost prefix = entries_view(*ps).subrange(0, i as int);
        let entry = &ps[i];
        match entry.1.render() {
            Some(t) => {
                if i > 0 {
                    acc.append(", ");
                }
                acc.append("\"");
                acc.append(entry.0.as_str());
                acc.append("\": ");
                proof {
                    reveal_strlit(", ");
                    reveal_strlit("\"");
                    reveal_strlit("\": ");
                }
                acc.append(t.as_str());
                proof {
                    let prefix2 = entries_view(*ps).subrange(0, (i + 1) as int);
                    assert(prefix2.drop_last() =~= prefix);
                    assert(prefix2.last() == (ps@[i as int].0@, value_view(ps@[i as int].1)));
                    let etext = seq!['"'] + ps@[i as int].0@ + seq!['"', ':', ' '] + t@;
                    assert(display_entry(prefix2.last()) == Some(etext));
                    if i == 0 {
                        assert(acc@ =~= display_entries(prefix2)->0);
                    } else {
                        assert(acc@ =~= display_entries(prefix)->0 + seq![',', ' '] + etext);
                        assert(acc@ =~= display_entries(prefix2)->0);
                    }
                }
            },
            None => {
                proof {
                    assert(display_entry(entries_view(*ps)[i as int]) is None);
                    lemma_display_entries_none(entries_view(*ps), i as int);
                }
                return None;
            },
        }
        i = i + 1;
    }
    proof {
        assert(entries_view(*ps).subrange(0, ps@.len() as int) =~= entries_view(*ps));
    }
    Some(acc)
}

} // verus!
