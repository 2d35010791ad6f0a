//! The runtime value model: the closed primitive union and the container
//! and function values an evaluation can produce.
use vstd::prelude::*;

use std::rc::Rc;

use crate::decimal::spec_dec_str;
use crate::errors::{Error, ErrorV};
use crate::floats::{
    spec_float_eq, spec_float_is_zero, spec_float_of_int, spec_float_str, float_is_zero,
    float_of_int, float_eq, float_to_string,
};
use crate::decimal::int_to_string;
use crate::text::str_eq;

verus! {

/// A primitive value: structural, cheap to copy.
///
/// A float is stored as the bit pattern of an IEEE-754 double, so the
/// engine itself never performs native floating-point arithmetic; hosts
/// convert with `f64::to_bits` / `f64::from_bits` at the boundary.
#[derive(Debug, Clone, PartialEq)]
pub enum Primitive {
    Int(i64),
    Float(u64),
    Str(String),
    Bool(bool),
}

/// Which bound string method a function value carries.
#[derive(Debug, Clone, Copy, PartialEq, Eq)]
pub enum StrMethod {
    ToUpper,
    ToLower,
    Trim,
    Contains,
    Substring,
}

/// Which bound list method a function value carries.
#[derive(Debug, Clone, Copy, PartialEq, Eq)]
pub enum ListMethod {
    Contains,
    Get,
    Join,
}

/// Which bound dictionary method a function value carries.
#[derive(Debug, Clone, Copy, PartialEq, Eq)]
pub enum DictMethod {
    Keys,
    Values,
    Contains,
    Get,
}

/// A callable value: either a named native function that the host's
/// resolver supplies, or a built-in method bound to its receiver.
#[derive(Debug, Clone, PartialEq)]
pub enum FuncVal {
    /// A host-provided native, invoked through the resolver by name.
    Native(String),
    /// A built-in string method bound to its receiver.
    StrFn(StrMethod, String),
    /// A built-in list method bound to its receiver.
    ListFn(ListMethod, Rc<Vec<Value>>),
    /// A built-in dictionary method bound to its receiver.
    DictFn(DictMethod, Rc<Vec<(String, Value)>>),
}

/// A runtime value: a primitive, a shared list, a shared dictionary with
/// sorted unique string keys, or a callable.  Containers are behind a
/// reference count, so cloning a value is cheap and never deep.
#[derive(Debug, Clone, PartialEq)]
pub enum Value {
    Primitive(Primitive),
    List(Rc<Vec<Value>>),
    Dict(Rc<Vec<(String, Value)>>),
    Func(FuncVal),
}

/// The mathematical model of a [`Primitive`].
pub enum PrimitiveV {
    Int(int),
    Float(u64),
    Str(Seq<char>),
    Bool(bool),
}

/// The mathematical model of a [`FuncVal`].
pub enum FuncV {
    Native(Seq<char>),
    StrFn(StrMethod, Seq<char>),
    ListFn(ListMethod, Seq<ValueV>),
    DictFn(DictMethod, Seq<(Seq<char>, ValueV)>),
}

/// The mathematical model of a [`Value`].
pub enum ValueV {
    Primitive(PrimitiveV),
    List(Seq<ValueV>),
    Dict(Seq<(Seq<char>, ValueV)>),
    Func(FuncV),
}

impl View for Primitive {
    type V = PrimitiveV;

    open spec fn view(&self) -> PrimitiveV {
        match self {
            Primitive::Int(i) => PrimitiveV::Int(*i as int),
            Primitive::Float(b) => PrimitiveV::Float(*b),
            Primitive::Str(s) => PrimitiveV::Str(s@),
            Primitive::Bool(b) => PrimitiveV::Bool(*b),
        }
    }
}

/// The models of the elements of a list payload.
pub open spec fn view_values(s: Seq<Value>) -> Seq<ValueV>
    decreases s,
{
    if s.len() == 0 {
        Seq::empty()
    } else {
        view_values(s.drop_last()).push(s.last().view())
    }
}

/// The models of the entries of a dictionary payload.
pub open spec fn view_pairs(s: Seq<(String, Value)>) -> Seq<(Seq<char>, ValueV)>
    decreases s,
{
    if s.len() == 0 {
        Seq::empty()
    } else {
        view_pairs(s.drop_last()).push((s.last().0@, s.last().1.view()))
    }
}

impl View for FuncVal {
    type V = FuncV;

    open spec fn view(&self) -> FuncV
        decreases self,
    {
        match self {
            FuncVal::Native(n) => FuncV::Native(n@),
            FuncVal::StrFn(m, s) => FuncV::StrFn(*m, s@),
            FuncVal::ListFn(m, items) => FuncV::ListFn(*m, view_values((**items)@)),
            FuncVal::DictFn(m, pairs) => FuncV::DictFn(*m, view_pairs((**pairs)@)),
        }
    }
}

impl View for Value {
    type V = ValueV;

    open spec fn view(&self) -> ValueV
        decreases self,
    {
        match self {
            Value::Primitive(p) => ValueV::Primitive(p@),
            Value::List(items) => ValueV::List(view_values((**items)@)),
            Value::Dict(pairs) => ValueV::Dict(view_pairs((**pairs)@)),
            Value::Func(f) => ValueV::Func(f@),
        }
    }
}

/// `view_values` is the element-wise model of the payload.
pub proof fn lemma_view_values(s: Seq<Value>)
    ensures
        view_values(s).len() == s.len(),
        forall|i: int| 0 <= i < s.len() ==> view_values(s)[i] == #[trigger] s[i]@,
    decreases s,
{
    if s.len() > 0 {
        lemma_view_values(s.drop_last());
        assert(view_values(s) == view_values(s.drop_last()).push(s.last()@));
        assert forall|i: int| 0 <= i < s.len() implies view_values(s)[i] == #[trigger] s[i]@ by {
            if i < s.len() - 1 {
                assert(s.drop_last()[i] == s[i]);
                assert(view_values(s)[i] == view_values(s.drop_last())[i]);
            } else {
                assert(s[i] == s.last());
            }
        }
    }
}

/// `view_pairs` is the entry-wise model of the payload.
pub proof fn lemma_view_pairs(s: Seq<(String, Value)>)
    ensures
        view_pairs(s).len() == s.len(),
        forall|i: int|
            0 <= i < s.len() ==> view_pairs(s)[i] == (#[trigger] s[i].0@, s[i].1@),
    decreases s,
{
    if s.len() > 0 {
        lemma_view_pairs(s.drop_last());
        assert(view_pairs(s) == view_pairs(s.drop_last()).push((s.last().0@, s.last().1@)));
        assert forall|i: int|
            0 <= i < s.len() implies view_pairs(s)[i] == (#[trigger] s[i].0@, s[i].1@) by {
            if i < s.len() - 1 {
                assert(s.drop_last()[i] == s[i]);
                assert(view_pairs(s)[i] == view_pairs(s.drop_last())[i]);
            } else {
                assert(s[i] == s.last());
            }
        }
    }
}

/// Appending one value appends its model.
pub proof fn lemma_view_values_push(s: Seq<Value>, v: Value)
    ensures
        view_values(s.push(v)) == view_values(s).push(v@),
{
    assert(s.push(v).drop_last() =~= s);
    assert(s.push(v).last() == v);
}

/// Structural equality of primitives, with numeric equality across the
/// int/float divide: `Int(3)` equals `Float(3.0)`.
pub open spec fn spec_prim_eq(a: PrimitiveV, b: PrimitiveV) -> bool {
    match (a, b) {
        (PrimitiveV::Int(x), PrimitiveV::Int(y)) => x == y,
        (PrimitiveV::Int(x), PrimitiveV::Float(g)) => spec_float_eq(spec_float_of_int(x), g),
        (PrimitiveV::Float(f), PrimitiveV::Int(y)) => spec_float_eq(f, spec_float_of_int(y)),
        (PrimitiveV::Float(f), PrimitiveV::Float(g)) => spec_float_eq(f, g),
        (PrimitiveV::Str(x), PrimitiveV::Str(y)) => x == y,
        (PrimitiveV::Bool(x), PrimitiveV::Bool(y)) => x == y,
        _ => false,
    }
}

/// Whether two primitives are of comparable kinds for `==`/`!=`:
/// both numeric, both strings, or both booleans.
pub open spec fn spec_prims_comparable(a: PrimitiveV, b: PrimitiveV) -> bool {
    match (a, b) {
        (PrimitiveV::Int(_), PrimitiveV::Int(_)) => true,
        (PrimitiveV::Int(_), PrimitiveV::Float(_)) => true,
        (PrimitiveV::Float(_), PrimitiveV::Int(_)) => true,
        (PrimitiveV::Float(_), PrimitiveV::Float(_)) => true,
        (PrimitiveV::Str(_), PrimitiveV::Str(_)) => true,
        (PrimitiveV::Bool(_), PrimitiveV::Bool(_)) => true,
        _ => false,
    }
}

/// Deep, never-failing equality of values: primitives compare as
/// [`spec_prim_eq`], containers compare structurally, and a function value
/// equals nothing, not even itself.
pub open spec fn spec_value_eq(a: ValueV, b: ValueV) -> bool
    decreases a,
{
    match (a, b) {
        (ValueV::Primitive(x), ValueV::Primitive(y)) => spec_prim_eq(x, y),
        (ValueV::List(x), ValueV::List(y)) => spec_values_eq(x, y),
        (ValueV::Dict(x), ValueV::Dict(y)) => spec_pairs_eq(x, y),
        _ => false,
    }
}

/// Element-wise deep equality of two value sequences.
pub open spec fn spec_values_eq(x: Seq<ValueV>, y: Seq<ValueV>) -> bool
    decreases x,
{
    if x.len() != y.len() {
        false
    } else if x.len() == 0 {
        true
    } else {
        spec_value_eq(x.last(), y.last()) && spec_values_eq(x.drop_last(), y.drop_last())
    }
}

/// Entry-wise deep equality of two dictionary entry sequences.
pub open spec fn spec_pairs_eq(
    x: Seq<(Seq<char>, ValueV)>,
    y: Seq<(Seq<char>, ValueV)>,
) -> bool
    decreases x,
{
    if x.len() != y.len() {
        false
    } else if x.len() == 0 {
        true
    } else {
        x.last().0 == y.last().0 && spec_value_eq(x.last().1, y.last().1) && spec_pairs_eq(
            x.drop_last(),
            y.drop_last(),
        )
    }
}

/// [`spec_values_eq`] holds exactly when the lengths agree and every pair of
/// elements is deep-equal.
pub proof fn lemma_values_eq_char(x: Seq<ValueV>, y: Seq<ValueV>)
    ensures
        spec_values_eq(x, y) <==> (x.len() == y.len() && forall|i: int|
            0 <= i < x.len() ==> spec_value_eq(#[trigger] x[i], y[i])),
    decreases x,
{
    if x.len() == y.len() && x.len() > 0 {
        lemma_values_eq_char(x.drop_last(), y.drop_last());
        assert forall|i: int| 0 <= i < x.len() - 1 implies (x.drop_last()[i] == x[i]
            && y.drop_last()[i] == y[i]) by {}
        if spec_values_eq(x, y) {
            assert forall|i: int| 0 <= i < x.len() implies spec_value_eq(
                #[trigger] x[i],
                y[i],
            ) by {
                if i == x.len() - 1 {
                    assert(x[i] == x.last() && y[i] == y.last());
                }
            }
        }
    }
}

/// [`spec_pairs_eq`] holds exactly when the lengths agree and every pair of
/// entries has equal keys and deep-equal values.
pub proof fn lemma_pairs_eq_char(x: Seq<(Seq<char>, ValueV)>, y: Seq<(Seq<char>, ValueV)>)
    ensures
        spec_pairs_eq(x, y) <==> (x.len() == y.len() && forall|i: int|
            0 <= i < x.len() ==> (#[trigger] x[i]).0 == y[i].0 && spec_value_eq(
                x[i].1,
                y[i].1,
            )),
    decreases x,
{
    if x.len() == y.len() && x.len() > 0 {
        lemma_pairs_eq_char(x.drop_last(), y.drop_last());
        assert forall|i: int| 0 <= i < x.len() - 1 implies (x.drop_last()[i] == x[i]
            && y.drop_last()[i] == y[i]) by {}
        if spec_pairs_eq(x, y) {
            assert forall|i: int| 0 <= i < x.len() implies (#[trigger] x[i]).0 == y[i].0
                && spec_value_eq(x[i].1, y[i].1) by {
                if i == x.len() - 1 {
                    assert(x[i] == x.last() && y[i] == y.last());
                }
            }
        }
    }
}

/// The boolean a primitive coerces to: nonzero numbers are true, a string
/// only when it is literally `"true"` or `"false"`, booleans are themselves;
/// anything else coerces to nothing.
pub open spec fn spec_prim_coerce_bool(p: PrimitiveV) -> Option<bool> {
    match p {
        PrimitiveV::Int(i) => Some(i != 0),
        PrimitiveV::Float(b) => Some(!spec_float_is_zero(b)),
        PrimitiveV::Str(s) => if s == "true"@ {
            Some(true)
        } else if s == "false"@ {
            Some(false)
        } else {
            None
        },
        PrimitiveV::Bool(b) => Some(b),
    }
}

/// The boolean a value coerces to: containers are true when non-empty,
/// function values coerce to nothing.
pub open spec fn spec_coerce_bool(v: ValueV) -> Option<bool> {
    match v {
        ValueV::Primitive(p) => spec_prim_coerce_bool(p),
        ValueV::List(items) => Some(items.len() != 0),
        ValueV::Dict(pairs) => Some(pairs.len() != 0),
        ValueV::Func(_) => None,
    }
}

/// The float a primitive converts to: a float is itself, an int is rounded
/// to the nearest double, anything else converts to nothing.
pub open spec fn spec_prim_to_float(p: PrimitiveV) -> Option<u64> {
    match p {
        PrimitiveV::Float(b) => Some(b),
        PrimitiveV::Int(i) => Some(spec_float_of_int(i)),
        _ => None,
    }
}

/// The float a value converts to: only primitives convert.
pub open spec fn spec_to_float(v: ValueV) -> Option<u64> {
    match v {
        ValueV::Primitive(p) => spec_prim_to_float(p),
        _ => None,
    }
}

/// The display rendering of a primitive.
pub open spec fn spec_prim_str(p: PrimitiveV) -> Seq<char> {
    match p {
        PrimitiveV::Str(s) => s,
        PrimitiveV::Int(i) => spec_dec_str(i),
        PrimitiveV::Float(b) => spec_float_str(b),
        PrimitiveV::Bool(b) => if b {
            "true"@
        } else {
            "false"@
        },
    }
}

/// The display rendering of a value: lists as `[a, b]`, dictionaries as
/// `{k: v}`, functions as `<func>`.
pub open spec fn spec_value_str(v: ValueV) -> Seq<char>
    decreases v,
{
    match v {
        ValueV::Primitive(p) => spec_prim_str(p),
        ValueV::List(items) => seq!['['] + spec_values_str(items) + seq![']'],
        ValueV::Dict(pairs) => seq!['{'] + spec_pairs_str(pairs) + seq!['}'],
        ValueV::Func(_) => "<func>"@,
    }
}

/// The comma-separated renderings of a sequence of values.
pub open spec fn spec_values_str(items: Seq<ValueV>) -> Seq<char>
    decreases items,
{
    if items.len() == 0 {
        Seq::empty()
    } else if items.len() == 1 {
        spec_value_str(items[0])
    } else {
        spec_values_str(items.drop_last()) + seq![',', ' '] + spec_value_str(items.last())
    }
}

/// The comma-separated `key: value` renderings of dictionary entries.
pub open spec fn spec_pairs_str(pairs: Seq<(Seq<char>, ValueV)>) -> Seq<char>
    decreases pairs,
{
    if pairs.len() == 0 {
        Seq::empty()
    } else if pairs.len() == 1 {
        pairs[0].0 + seq![':', ' '] + spec_value_str(pairs[0].1)
    } else {
        spec_pairs_str(pairs.drop_last()) + seq![',', ' '] + pairs.last().0 + seq![':', ' ']
            + spec_value_str(pairs.last().1)
    }
}

/// The name of a value's kind, as member errors report it.
pub open spec fn spec_kind_name(v: ValueV) -> Seq<char> {
    match v {
        ValueV::Primitive(PrimitiveV::Str(_)) => "string"@,
        ValueV::Primitive(PrimitiveV::Int(_)) => "number"@,
        ValueV::Primitive(PrimitiveV::Float(_)) => "number"@,
        ValueV::Primitive(PrimitiveV::Bool(_)) => "bool"@,
        ValueV::List(_) => "list"@,
        ValueV::Dict(_) => "dict"@,
        ValueV::Func(_) => "func"@,
    }
}

impl Primitive {
    /// The boolean this primitive coerces to, if any.
    pub fn as_bool(&self) -> (r: Option<bool>)
        ensures
            r == spec_prim_coerce_bool(self@),
    {
        self.coerce_bool()
    }

    /// The integer payload, if this primitive is an int.
    pub fn as_int(&self) -> (r: Option<i64>)
        ensures
            r == match self@ {
                PrimitiveV::Int(i) => Some(i as i64),
                _ => None::<i64>,
            },
    {
        if let Primitive::Int(i) = self {
            Some(*i)
        } else {
            None
        }
    }

    /// The float bit pattern, if this primitive is a float.
    pub fn as_float(&self) -> (r: Option<u64>)
        ensures
            r == match self@ {
                PrimitiveV::Float(b) => Some(b),
                _ => None::<u64>,
            },
    {
        if let Primitive::Float(b) = self {
            Some(*b)
        } else {
            None
        }
    }

    /// The display rendering of this primitive.
    pub fn as_str(&self) -> (r: String)
        ensures
            r@ == spec_prim_str(self@),
    {
        self.as_str_lossy()
    }

    /// The boolean this primitive coerces to, if any.
    pub fn coerce_bool(&self) -> (r: Option<bool>)
        ensures
            r == spec_prim_coerce_bool(self@),
    {
        match self {
            Primitive::Int(i) => Some(*i != 0),
            Primitive::Float(b) => Some(!float_is_zero(*b)),
            Primitive::Str(s) => {
                if str_eq(s.as_str(), "true") {
                    Some(true)
                } else if str_eq(s.as_str(), "false") {
                    Some(false)
                } else {
                    None
                }
            },
            Primitive::Bool(b) => Some(*b),
        }
    }

    /// The float this primitive converts to, if any: ints promote.
    pub fn to_float_lossy(&self) -> (r: Option<u64>)
        ensures
            r == spec_prim_to_float(self@),
    {
        match self {
            Primitive::Float(b) => Some(*b),
            Primitive::Int(i) => Some(float_of_int(*i)),
            _ => None,
        }
    }

    /// The display rendering of this primitive.
    pub fn as_str_lossy(&self) -> (r: String)
        ensures
            r@ == spec_prim_str(self@),
    {
        match self {
            Primitive::Str(s) => s.clone(),
            Primitive::Int(i) => int_to_string(*i),
            Primitive::Float(b) => float_to_string(*b),
            Primitive::Bool(b) => {
                if *b {
                    String::from_str("true")
                } else {
                    String::from_str("false")
                }
            },
        }
    }
}

/// Structural equality of two primitives with numeric cross-kind equality.
pub fn prim_eq(a: &Primitive, b: &Primitive) -> (r: bool)
    ensures
        r == spec_prim_eq(a@, b@),
{
    match (a, b) {
        (Primitive::Int(x), Primitive::Int(y)) => *x == *y,
        (Primitive::Int(x), Primitive::Float(g)) => float_eq(float_of_int(*x), *g),
        (Primitive::Float(f), Primitive::Int(y)) => float_eq(*f, float_of_int(*y)),
        (Primitive::Float(f), Primitive::Float(g)) => float_eq(*f, *g),
        (Primitive::Str(x), Primitive::Str(y)) => str_eq(x.as_str(), y.as_str()),
        (Primitive::Bool(x), Primitive::Bool(y)) => *x == *y,
        _ => false,
    }
}

/// Deep, never-failing equality of two values.
#[verifier::loop_isolation(false)]
pub fn value_eq(a: &Value, b: &Value) -> (r: bool)
    ensures
        r == spec_value_eq(a@, b@),
    decreases a,
{
    match (a, b) {
        (Value::Primitive(x), Value::Primitive(y)) => prim_eq(x, y),
        (Value::List(x), Value::List(y)) => {
            proof {
                lemma_view_values((**x)@);
                lemma_view_values((**y)@);
                lemma_values_eq_char(view_values((**x)@), view_values((**y)@));
                assert(a@ == ValueV::List(view_values((**x)@)));
                assert(b@ == ValueV::List(view_values((**y)@)));
            }
            if (**x).len() != (**y).len() {
                return false;
            }
            let mut i: usize = 0;
            while i < (**x).len()
                invariant
                    (**x).len() == (**y).len(),
                    i <= (**x).len(),
                    a@ == ValueV::List(view_values((**x)@)),
                    b@ == ValueV::List(view_values((**y)@)),
                    view_values((**x)@).len() == (**x)@.len(),
                    view_values((**y)@).len() == (**y)@.len(),
                    forall|k: int|
                        0 <= k < (**x)@.len() ==> view_values((**x)@)[k] == #[trigger] (**x)@[k]@,
                    forall|k: int|
                        0 <= k < (**y)@.len() ==> view_values((**y)@)[k] == #[trigger] (**y)@[k]@,
                    forall|k: int|
                        0 <= k < i ==> spec_value_eq(
                            #[trigger] view_values((**x)@)[k],
                            view_values((**y)@)[k],
                        ),
                decreases (**x).len() - i,
            {
                proof {
                    assert(decreases_to!(a => (**x)@));
                    assert(decreases_to!((**x)@ => (**x)@[i as int]));
                    assert(decreases_to!(a => (**x)@[i as int]));
                }
                if !value_eq(&(**x)[i], &(**y)[i]) {
                    proof {
                        lemma_values_eq_char(view_values((**x)@), view_values((**y)@));
                    }
                    return false;
                }
                i = i + 1;
            }
            proof {
                lemma_values_eq_char(view_values((**x)@), view_values((**y)@));
            }
            true
        },
        (Value::Dict(x), Value::Dict(y)) => {
            proof {
                lemma_view_pairs((**x)@);
                lemma_view_pairs((**y)@);
                lemma_pairs_eq_char(view_pairs((**x)@), view_pairs((**y)@));
                assert(a@ == ValueV::Dict(view_pairs((**x)@)));
                assert(b@ == ValueV::Dict(view_pairs((**y)@)));
            }
            if (**x).len() != (**y).len() {
                return false;
            }
            let mut i: usize = 0;
            while i < (**x).len()
                invariant
                    (**x).len() == (**y).len(),
                    i <= (**x).len(),
                    a@ == ValueV::Dict(view_pairs((**x)@)),
                    b@ == ValueV::Dict(view_pairs((**y)@)),
                    view_pairs((**x)@).len() == (**x)@.len(),
                    view_pairs((**y)@).len() == (**y)@.len(),
                    forall|k: int|
                        0 <= k < (**x)@.len() ==> view_pairs((**x)@)[k] == (
                        #[trigger] (**x)@[k].0@,
                        (**x)@[k].1@,
                        ),
                    forall|k: int|
                        0 <= k < (**y)@.len() ==> view_pairs((**y)@)[k] == (
                        #[trigger] (**y)@[k].0@,
                        (**y)@[k].1@,
                        ),
                    forall|k: int|
                        0 <= k < i ==> (#[trigger] view_pairs((**x)@)[k]).0 == view_pairs(
                            (**y)@,
                        )[k].0 && spec_value_eq(view_pairs((**x)@)[k].1, view_pairs((**y)@)[k].1),
                decreases (**x).len() - i,
            {
                proof {
                    assert(decreases_to!(a => (**x)@));
                    assert(decreases_to!((**x)@ => (**x)@[i as int]));
                    assert(decreases_to!((**x)@[i as int] => (**x)@[i as int].1));
                    assert(decreases_to!(a => (**x)@[i as int].1));
                }
                if !str_eq((**x)[i].0.as_str(), (**y)[i].0.as_str()) {
                    proof {
                        lemma_pairs_eq_char(view_pairs((**x)@), view_pairs((**y)@));
                    }
                    return false;
                }
                if !value_eq(&(**x)[i].1, &(**y)[i].1) {
                    proof {
                        lemma_pairs_eq_char(view_pairs((**x)@), view_pairs((**y)@));
                    }
                    return false;
                }
                i = i + 1;
            }
            proof {
                lemma_pairs_eq_char(view_pairs((**x)@), view_pairs((**y)@));
            }
            true
        },
        _ => false,
    }
}

impl Value {
    /// The boolean this value coerces to, if any: containers are true when
    /// non-empty, function values coerce to nothing.
    pub fn coerce_bool(&self) -> (r: Option<bool>)
        ensures
            r == spec_coerce_bool(self@),
    {
        match self {
            Value::Primitive(p) => p.coerce_bool(),
            Value::List(items) => {
                proof {
                    lemma_view_values((**items)@);
                }
                Some((**items).len() != 0)
            },
            Value::Dict(pairs) => {
                proof {
                    lemma_view_pairs((**pairs)@);
                }
                Some((**pairs).len() != 0)
            },
            Value::Func(_) => None,
        }
    }

    /// The float this value converts to, if any: ints promote, floats are
    /// themselves, everything else converts to nothing.
    pub fn to_float_lossy(&self) -> (r: Option<u64>)
        ensures
            r == spec_to_float(self@),
    {
        match self {
            Value::Primitive(p) => p.to_float_lossy(),
            _ => None,
        }
    }

    /// The name of this value's kind, as member errors report it.
    pub fn kind_name(&self) -> (r: &'static str)
        ensures
            r@ == spec_kind_name(self@),
    {
        match self {
            Value::Primitive(Primitive::Str(_)) => "string",
            Value::Primitive(Primitive::Int(_)) => "number",
            Value::Primitive(Primitive::Float(_)) => "number",
            Value::Primitive(Primitive::Bool(_)) => "bool",
            Value::List(_) => "list",
            Value::Dict(_) => "dict",
            Value::Func(_) => "func",
        }
    }

    /// The display rendering of this value.
    #[verifier::loop_isolation(false)]
    pub fn as_str_lossy(&self) -> (r: String)
        ensures
            r@ == spec_value_str(self@),
        decreases self,
    {
        match self {
            Value::Primitive(p) => p.as_str_lossy(),
            Value::List(items) => {
                proof {
                    lemma_view_values((**items)@);
                    reveal_strlit("[");
                    reveal_strlit("]");
                    reveal_strlit(", ");
                    assert(self@ == ValueV::List(view_values((**items)@)));
                }
                let ghost vs = view_values((**items)@);
                let n: usize = (**items).len();
                let mut out = String::from_str("[");
                proof {
                    assert(out@ =~= seq!['['] + spec_values_str(vs.take(0)));
                }
                let mut i: usize = 0;
                while i < n
                    invariant
                        i <= n,
                        out@ == seq!['['] + spec_values_str(vs.take(i as int)),
                    decreases n - i,
                {
                    if i > 0 {
                        out.append(", ");
                    }
                    proof {
                        assert(decreases_to!(self => (**items)@[i as int]));
                    }
                    let part = (**items)[i].as_str_lossy();
                    out.append(part.as_str());
                    proof {
                        let j = i as int;
                        assert(vs.take(j + 1).drop_last() =~= vs.take(j));
                        assert(vs.take(j + 1).last() == vs[j]);
                        if j == 0 {
                            assert(vs.take(1)[0] == vs[0]);
                            assert(spec_values_str(vs.take(1)) == spec_value_str(vs[0]));
                        } else {
                            assert(spec_values_str(vs.take(j + 1)) == spec_values_str(vs.take(j))
                                + seq![',', ' '] + spec_value_str(vs[j]));
                        }
                    }
                    i = i + 1;
                }
                out.append("]");
                proof {
                    assert(vs.take(n as int) =~= vs);
                }
                out
            },
            Value::Dict(pairs) => {
                proof {
                    lemma_view_pairs((**pairs)@);
                    reveal_strlit("{");
                    reveal_strlit("}");
                    reveal_strlit(", ");
                    reveal_strlit(": ");
                    assert(self@ == ValueV::Dict(view_pairs((**pairs)@)));
                }
                let ghost ps = view_pairs((**pairs)@);
                let n: usize = (**pairs).len();
                let mut out = String::from_str("{");
                proof {
                    assert(out@ =~= seq!['{'] + spec_pairs_str(ps.take(0)));
                }
                let mut i: usize = 0;
                while i < n
                    invariant
                        i <= n,
                        out@ == seq!['{'] + spec_pairs_str(ps.take(i as int)),
                    decreases n - i,
                {
                    if i > 0 {
                        out.append(", ");
                    }
                    out.append((**pairs)[i].0.as_str());
                    out.append(": ");
                    proof {
                        assert(decreases_to!(self => (**pairs)@[i as int].1));
                    }
                    let part = (**pairs)[i].1.as_str_lossy();
                    out.append(part.as_str());
                    proof {
                        let j = i as int;
                        assert(ps.take(j + 1).drop_last() =~= ps.take(j));
                        assert(ps.take(j + 1).last() == ps[j]);
                        if j == 0 {
                            assert(ps.take(1)[0] == ps[0]);
                            assert(spec_pairs_str(ps.take(1)) == ps[0].0 + seq![':', ' ']
                                + spec_value_str(ps[0].1));
                        } else {
                            assert(spec_pairs_str(ps.take(j + 1)) == spec_pairs_str(ps.take(j))
                                + seq![',', ' '] + ps[j].0 + seq![':', ' '] + spec_value_str(
                                ps[j].1,
                            ));
                        }
                    }
                    i = i + 1;
                }
                out.append("}");
                proof {
                    assert(ps.take(n as int) =~= ps);
                }
                out
            },
            Value::Func(_) => String::from_str("<func>"),
        }
    }
}

/// What the model says a fallible engine step produces: a value, a
/// definite error, or a result the model leaves open (native calls and
/// power results, whose outcome the engine does not pin down).
pub enum Outcome {
    Val(ValueV),
    Fail(ErrorV),
    Unknown,
}

/// Whether an executable result agrees with a modeled outcome.
pub open spec fn conforms(r: Result<Value, Error>, o: Outcome) -> bool {
    match o {
        Outcome::Val(v) => match r {
            Ok(rv) => rv@ == v,
            Err(_) => false,
        },
        Outcome::Fail(e) => match r {
            Ok(_) => false,
            Err(re) => re@ == e,
        },
        Outcome::Unknown => true,
    }
}

/// Relies on `Rc::clone`: the returned handle shares the same allocation,
/// so it carries the very same value.
#[verifier::external_body]
pub fn rc_clone<T>(rc: &Rc<T>) -> (r: Rc<T>)
    ensures
        r == *rc,
{
    Rc::clone(rc)
}

/// A copy of a value with the same model: primitives copy, containers
/// share their payload through the reference count.
pub fn duplicate(v: &Value) -> (r: Value)
    ensures
        r@ == v@,
{
    match v {
        Value::Primitive(p) => Value::Primitive(duplicate_prim(p)),
        Value::List(items) => Value::List(rc_clone(items)),
        Value::Dict(pairs) => Value::Dict(rc_clone(pairs)),
        Value::Func(f) => Value::Func(duplicate_func(f)),
    }
}

/// A copy of a primitive with the same model.
pub fn duplicate_prim(p: &Primitive) -> (r: Primitive)
    ensures
        r@ == p@,
{
    match p {
        Primitive::Int(i) => Primitive::Int(*i),
        Primitive::Float(b) => Primitive::Float(*b),
        Primitive::Str(s) => Primitive::Str(s.clone()),
        Primitive::Bool(b) => Primitive::Bool(*b),
    }
}

/// A copy of a function value with the same model; bound receivers are
/// shared, not copied.
pub fn duplicate_func(f: &FuncVal) -> (r: FuncVal)
    ensures
        r@ == f@,
{
    match f {
        FuncVal::Native(n) => FuncVal::Native(n.clone()),
        FuncVal::StrFn(m, s) => FuncVal::StrFn(*m, s.clone()),
        FuncVal::ListFn(m, items) => FuncVal::ListFn(*m, rc_clone(items)),
        FuncVal::DictFn(m, pairs) => FuncVal::DictFn(*m, rc_clone(pairs)),
    }
}

impl Value {
    /// The integer behind this value, or a kind mismatch.
    pub fn to_int(&self) -> (r: Result<i64, Error>)
        ensures
            match self@ {
                ValueV::Primitive(PrimitiveV::Int(i)) => r == Ok::<i64, Error>(i as i64),
                _ => match r {
                    Ok(_) => false,
                    Err(e) => e@ == ErrorV::TypeMismatch("expected int"@),
                },
            },
    {
        if let Value::Primitive(Primitive::Int(i)) = self {
            Ok(*i)
        } else {
            Err(Error::TypeMismatch(String::from_str("expected int")))
        }
    }

    /// The float bit pattern behind this value, or a kind mismatch.
    pub fn to_float_bits(&self) -> (r: Result<u64, Error>)
        ensures
            match self@ {
                ValueV::Primitive(PrimitiveV::Float(b)) => r == Ok::<u64, Error>(b),
                _ => match r {
                    Ok(_) => false,
                    Err(e) => e@ == ErrorV::TypeMismatch("expected float"@),
                },
            },
    {
        if let Value::Primitive(Primitive::Float(b)) = self {
            Ok(*b)
        } else {
            Err(Error::TypeMismatch(String::from_str("expected float")))
        }
    }

    /// The boolean behind this value, or a kind mismatch.
    pub fn to_bool(&self) -> (r: Result<bool, Error>)
        ensures
            match self@ {
                ValueV::Primitive(PrimitiveV::Bool(b)) => r == Ok::<bool, Error>(b),
                _ => match r {
                    Ok(_) => false,
                    Err(e) => e@ == ErrorV::TypeMismatch("expected bool"@),
                },
            },
    {
        if let Value::Primitive(Primitive::Bool(b)) = self {
            Ok(*b)
        } else {
            Err(Error::TypeMismatch(String::from_str("expected bool")))
        }
    }

    /// The string behind this value, or a kind mismatch.
    pub fn to_str(&self) -> (r: Result<String, Error>)
        ensures
            match self@ {
                ValueV::Primitive(PrimitiveV::Str(s)) => match r {
                    Ok(out) => out@ == s,
                    Err(_) => false,
                },
                _ => match r {
                    Ok(_) => false,
                    Err(e) => e@ == ErrorV::TypeMismatch("expected string"@),
                },
            },
    {
        if let Value::Primitive(Primitive::Str(s)) = self {
            Ok(s.clone())
        } else {
            Err(Error::TypeMismatch(String::from_str("expected string")))
        }
    }
}

impl From<i64> for Primitive {
    fn from(v: i64) -> Self {
        Primitive::Int(v)
    }
}

impl vstd::std_specs::convert::FromSpecImpl<i64> for Primitive {
    open spec fn obeys_from_spec() -> bool {
        true
    }

    open spec fn from_spec(v: i64) -> Primitive {
        Primitive::Int(v)
    }
}

impl From<bool> for Primitive {
    fn from(v: bool) -> Self {
        Primitive::Bool(v)
    }
}

impl vstd::std_specs::convert::FromSpecImpl<bool> for Primitive {
    open spec fn obeys_from_spec() -> bool {
        true
    }

    open spec fn from_spec(v: bool) -> Primitive {
        Primitive::Bool(v)
    }
}

impl From<String> for Primitive {
    fn from(v: String) -> Self {
        Primitive::Str(v)
    }
}

impl vstd::std_specs::convert::FromSpecImpl<String> for Primitive {
    open spec fn obeys_from_spec() -> bool {
        true
    }

    open spec fn from_spec(v: String) -> Primitive {
        Primitive::Str(v)
    }
}

impl From<Primitive> for Value {
    fn from(p: Primitive) -> Self {
        Value::Primitive(p)
    }
}

impl vstd::std_specs::convert::FromSpecImpl<Primitive> for Value {
    open spec fn obeys_from_spec() -> bool {
        true
    }

    open spec fn from_spec(p: Primitive) -> Value {
        Value::Primitive(p)
    }
}

impl From<i64> for Value {
    fn from(v: i64) -> Self {
        Value::Primitive(Primitive::Int(v))
    }
}

impl vstd::std_specs::convert::FromSpecImpl<i64> for Value {
    open spec fn obeys_from_spec() -> bool {
        true
    }

    open spec fn from_spec(v: i64) -> Value {
        Value::Primitive(Primitive::Int(v))
    }
}

impl From<bool> for Value {
    fn from(v: bool) -> Self {
        Value::Primitive(Primitive::Bool(v))
    }
}

impl vstd::std_specs::convert::FromSpecImpl<bool> for Value {
    open spec fn obeys_from_spec() -> bool {
        true
    }

    open spec fn from_spec(v: bool) -> Value {
        Value::Primitive(Primitive::Bool(v))
    }
}

impl From<String> for Value {
    fn from(v: String) -> Self {
        Value::Primitive(Primitive::Str(v))
    }
}

impl vstd::std_specs::convert::FromSpecImpl<String> for Value {
    open spec fn obeys_from_spec() -> bool {
        true
    }

    open spec fn from_spec(v: String) -> Value {
        Value::Primitive(Primitive::Str(v))
    }
}

} // verus!
