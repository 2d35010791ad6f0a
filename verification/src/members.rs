//! Member lookup and the built-in methods of strings, lists and
//! dictionaries, together with the dictionary's sorted-insert primitive.
use vstd::prelude::*;

use std::rc::Rc;

use crate::errors::{Error, ErrorV};
use crate::text::{
    spec_lower, spec_str_contains, spec_str_lt, spec_trim, spec_upper, str_contains, str_eq,
    str_lt, str_to_lower, str_to_upper, str_trim,
};
use crate::value::{
    conforms, duplicate, lemma_view_pairs, lemma_view_values, rc_clone, spec_kind_name,
    view_pairs, view_values, DictMethod, FuncV, FuncVal, ListMethod, Outcome, Primitive,
    PrimitiveV, StrMethod, Value, ValueV, spec_value_eq, spec_value_str, value_eq,
};

verus! {

/// The value under `key`, if the dictionary holds the key.
pub open spec fn spec_dict_lookup(
    pairs: Seq<(Seq<char>, ValueV)>,
    key: Seq<char>,
) -> Option<ValueV>
    decreases pairs.len(),
{
    if pairs.len() == 0 {
        None
    } else if pairs[0].0 == key {
        Some(pairs[0].1)
    } else {
        spec_dict_lookup(pairs.subrange(1, pairs.len() as int), key)
    }
}

/// Entries sorted strictly by key: each key is below the next, so keys are
/// unique and iteration order is deterministic.
pub open spec fn spec_dict_wf(pairs: Seq<(Seq<char>, ValueV)>) -> bool {
    forall|i: int, j: int|
        0 <= i < j < pairs.len() ==> spec_str_lt(#[trigger] pairs[i].0, #[trigger] pairs[j].0)
}

/// The dictionary with `key` bound to `value`: an existing binding is
/// replaced in place, a new one is inserted at its sorted position.
pub open spec fn spec_dict_insert(
    pairs: Seq<(Seq<char>, ValueV)>,
    key: Seq<char>,
    value: ValueV,
) -> Seq<(Seq<char>, ValueV)>
    decreases pairs.len(),
{
    if pairs.len() == 0 {
        seq![(key, value)]
    } else if pairs[0].0 == key {
        seq![(key, value)] + pairs.subrange(1, pairs.len() as int)
    } else if spec_str_lt(key, pairs[0].0) {
        seq![(key, value)] + pairs
    } else {
        seq![pairs[0]] + spec_dict_insert(pairs.subrange(1, pairs.len() as int), key, value)
    }
}

/// Splitting the insertion: while the scan has passed `j` entries that
/// neither equal nor exceed the key, the insertion keeps that prefix.
proof fn lemma_dict_insert_split(
    pairs: Seq<(Seq<char>, ValueV)>,
    key: Seq<char>,
    value: ValueV,
    j: int,
)
    requires
        0 <= j <= pairs.len(),
        forall|m: int|
            0 <= m < j ==> !(#[trigger] pairs[m].0 == key) && !spec_str_lt(key, pairs[m].0),
    ensures
        spec_dict_insert(pairs, key, value) == pairs.take(j) + spec_dict_insert(
            pairs.skip(j),
            key,
            value,
        ),
    decreases j,
{
    if j == 0 {
        assert(pairs.take(0) =~= Seq::<(Seq<char>, ValueV)>::empty());
        assert(pairs.skip(0) =~= pairs);
        assert(pairs.take(0) + spec_dict_insert(pairs.skip(0), key, value) =~= spec_dict_insert(
            pairs,
            key,
            value,
        ));
    } else {
        let rest = pairs.subrange(1, pairs.len() as int);
        assert(forall|m: int|
            0 <= m < j - 1 ==> !(#[trigger] rest[m].0 == key) && !spec_str_lt(key, rest[m].0))
            by {
            assert forall|m: int| 0 <= m < j - 1 implies !(#[trigger] rest[m].0 == key)
                && !spec_str_lt(key, rest[m].0) by {
                assert(rest[m] == pairs[m + 1]);
            }
        }
        lemma_dict_insert_split(rest, key, value, j - 1);
        assert(spec_dict_insert(pairs, key, value) == seq![pairs[0]] + spec_dict_insert(
            rest,
            key,
            value,
        ));
        assert(rest.take(j - 1) =~= pairs.take(j).subrange(1, j));
        assert(rest.skip(j - 1) =~= pairs.skip(j));
        assert(seq![pairs[0]] + (rest.take(j - 1) + spec_dict_insert(rest.skip(j - 1), key, value))
            =~= pairs.take(j) + spec_dict_insert(pairs.skip(j), key, value));
    }
}

/// Inserting into a sorted dictionary keeps it sorted: every key of the
/// result is the inserted key or one already present, and strict key
/// order is preserved — so keys stay unique and iteration deterministic.
pub proof fn lemma_dict_insert_wf(pairs: Seq<(Seq<char>, ValueV)>, key: Seq<char>, value: ValueV)
    requires
        spec_dict_wf(pairs),
    ensures
        spec_dict_wf(spec_dict_insert(pairs, key, value)),
        forall|j: int|
            0 <= j < spec_dict_insert(pairs, key, value).len() ==> (#[trigger] spec_dict_insert(
                pairs,
                key,
                value,
            )[j].0 == key || exists|m: int|
                0 <= m < pairs.len() && spec_dict_insert(pairs, key, value)[j].0 == #[trigger] pairs[m].0),
    decreases pairs.len(),
{
    let out = spec_dict_insert(pairs, key, value);
    if pairs.len() == 0 {
    } else if pairs[0].0 == key {
        let rest = pairs.subrange(1, pairs.len() as int);
        assert forall|x: int, y: int| 0 <= x < y < out.len() implies spec_str_lt(
            #[trigger] out[x].0,
            #[trigger] out[y].0,
        ) by {
            assert(out[y] == pairs[y]);
            if x > 0 {
                assert(out[x] == pairs[x]);
            } else {
                assert(out[0].0 == pairs[0].0);
            }
        }
        assert forall|j: int| 0 <= j < out.len() implies (#[trigger] out[j].0 == key || exists|
            m: int,
        |
            0 <= m < pairs.len() && out[j].0 == #[trigger] pairs[m].0) by {
            if j > 0 {
                assert(out[j] == pairs[j]);
                assert(out[j].0 == pairs[j].0);
            }
        }
    } else if spec_str_lt(key, pairs[0].0) {
        assert forall|x: int, y: int| 0 <= x < y < out.len() implies spec_str_lt(
            #[trigger] out[x].0,
            #[trigger] out[y].0,
        ) by {
            assert(out[y] == pairs[y - 1]);
            if x > 0 {
                assert(out[x] == pairs[x - 1]);
            } else if y == 1 {
                assert(out[y].0 == pairs[0].0);
            } else {
                crate::text::lemma_str_lt_trans(key, pairs[0].0, pairs[y - 1].0);
            }
        }
        assert forall|j: int| 0 <= j < out.len() implies (#[trigger] out[j].0 == key || exists|
            m: int,
        |
            0 <= m < pairs.len() && out[j].0 == #[trigger] pairs[m].0) by {
            if j > 0 {
                assert(out[j].0 == pairs[j - 1].0);
            }
        }
    } else {
        let rest = pairs.subrange(1, pairs.len() as int);
        assert(spec_dict_wf(rest)) by {
            assert forall|x: int, y: int| 0 <= x < y < rest.len() implies spec_str_lt(
                #[trigger] rest[x].0,
                #[trigger] rest[y].0,
            ) by {
                assert(rest[x] == pairs[x + 1] && rest[y] == pairs[y + 1]);
            }
        }
        lemma_dict_insert_wf(rest, key, value);
        let sub = spec_dict_insert(rest, key, value);
        crate::text::lemma_str_lt_total(pairs[0].0, key);
        assert(spec_str_lt(pairs[0].0, key));
        assert forall|j: int| 0 <= j < sub.len() implies spec_str_lt(
            pairs[0].0,
            #[trigger] sub[j].0,
        ) by {
            if sub[j].0 == key {
            } else {
                let m = choose|m: int| 0 <= m < rest.len() && sub[j].0 == #[trigger] rest[m].0;
                assert(rest[m] == pairs[m + 1]);
            }
        }
        assert forall|x: int, y: int| 0 <= x < y < out.len() implies spec_str_lt(
            #[trigger] out[x].0,
            #[trigger] out[y].0,
        ) by {
            assert(out[y] == sub[y - 1]);
            if x > 0 {
                assert(out[x] == sub[x - 1]);
            } else {
                assert(out[0] == pairs[0]);
            }
        }
        assert forall|j: int| 0 <= j < out.len() implies (#[trigger] out[j].0 == key || exists|
            m: int,
        |
            0 <= m < pairs.len() && out[j].0 == #[trigger] pairs[m].0) by {
            if j == 0 {
                assert(out[0] == pairs[0]);
                assert(out[0].0 == pairs[0].0);
            } else {
                assert(out[j] == sub[j - 1]);
                if sub[j - 1].0 == key {
                } else {
                    let m = choose|m: int|
                        0 <= m < rest.len() && sub[j - 1].0 == #[trigger] rest[m].0;
                    assert(rest[m] == pairs[m + 1]);
                    assert(out[j].0 == pairs[m + 1].0);
                }
            }
        }
    }
}

/// Looking up the key just written finds exactly the value written:
/// writing twice under one key keeps only the last write.
pub proof fn lemma_dict_insert_reads_back(
    pairs: Seq<(Seq<char>, ValueV)>,
    key: Seq<char>,
    value: ValueV,
)
    ensures
        spec_dict_lookup(spec_dict_insert(pairs, key, value), key) == Some(value),
    decreases pairs.len(),
{
    let out = spec_dict_insert(pairs, key, value);
    if pairs.len() == 0 {
        assert(out[0] == (key, value));
    } else if pairs[0].0 == key {
        assert(out[0] == (key, value));
    } else if spec_str_lt(key, pairs[0].0) {
        assert(out[0] == (key, value));
    } else {
        let rest = pairs.subrange(1, pairs.len() as int);
        lemma_dict_insert_reads_back(rest, key, value);
        assert(out[0] == pairs[0]);
        assert(out.subrange(1, out.len() as int) =~= spec_dict_insert(rest, key, value));
    }
}

/// Writing one key leaves every other key's binding untouched.
pub proof fn lemma_dict_insert_preserves_others(
    pairs: Seq<(Seq<char>, ValueV)>,
    key: Seq<char>,
    value: ValueV,
    other: Seq<char>,
)
    requires
        other != key,
    ensures
        spec_dict_lookup(spec_dict_insert(pairs, key, value), other) == spec_dict_lookup(
            pairs,
            other,
        ),
    decreases pairs.len(),
{
    let out = spec_dict_insert(pairs, key, value);
    if pairs.len() == 0 {
        assert(out[0] == (key, value));
        assert(out.subrange(1, out.len() as int) =~= Seq::<(Seq<char>, ValueV)>::empty());
        assert(spec_dict_lookup(out, other) == spec_dict_lookup(
            Seq::<(Seq<char>, ValueV)>::empty(),
            other,
        ));
        assert(spec_dict_lookup(Seq::<(Seq<char>, ValueV)>::empty(), other) is None);
    } else if pairs[0].0 == key {
        assert(out[0] == (key, value));
        assert(out.subrange(1, out.len() as int) =~= pairs.subrange(1, pairs.len() as int));
        assert(spec_dict_lookup(out, other) == spec_dict_lookup(
            pairs.subrange(1, pairs.len() as int),
            other,
        ));
        assert(spec_dict_lookup(pairs, other) == spec_dict_lookup(
            pairs.subrange(1, pairs.len() as int),
            other,
        ));
    } else if spec_str_lt(key, pairs[0].0) {
        assert(out[0] == (key, value));
        assert(out.subrange(1, out.len() as int) =~= pairs);
        assert(spec_dict_lookup(out, other) == spec_dict_lookup(pairs, other));
    } else {
        let rest = pairs.subrange(1, pairs.len() as int);
        lemma_dict_insert_preserves_others(rest, key, value, other);
        assert(out[0] == pairs[0]);
        assert(out.subrange(1, out.len() as int) =~= spec_dict_insert(rest, key, value));
        if pairs[0].0 == other {
            assert(spec_dict_lookup(out, other) == Some(out[0].1));
            assert(spec_dict_lookup(pairs, other) == Some(pairs[0].1));
        } else {
            assert(spec_dict_lookup(out, other) == spec_dict_lookup(
                spec_dict_insert(rest, key, value),
                other,
            ));
            assert(spec_dict_lookup(pairs, other) == spec_dict_lookup(rest, other));
        }
    }
}

/// Replacing or inserting into a dictionary vector, keeping keys sorted.
///
/// The vector's entries must be sorted by key; the result is the model-level
/// [`spec_dict_insert`] of the inputs.
#[verifier::loop_isolation(false)]
pub fn dict_insert(pairs: &mut Vec<(String, Value)>, key: String, value: Value)
    ensures
        view_pairs(final(pairs)@) == spec_dict_insert(view_pairs(old(pairs)@), key@, value@),
{
    let ghost ops = view_pairs(old(pairs)@);
    proof {
        lemma_view_pairs(old(pairs)@);
    }
    let n: usize = pairs.len();
    let mut j: usize = 0;
    while j < n
        invariant
            n == pairs.len(),
            j <= n,
            pairs@ == old(pairs)@,
            forall|m: int|
                0 <= m < j ==> !(#[trigger] ops[m].0 == key@) && !spec_str_lt(key@, ops[m].0),
        decreases n - j,
    {
        if str_eq(pairs[j].0.as_str(), key.as_str()) {
            proof {
                lemma_dict_insert_split(ops, key@, value@, j as int);
                assert(ops.skip(j as int)[0] == ops[j as int]);
            }
            pairs.remove(j);
            pairs.insert(j, (key, value));
            proof {
                lemma_view_pairs(pairs@);
                let sk = ops.skip(j as int);
                assert(sk.subrange(1, sk.len() as int) =~= ops.skip(j as int + 1));
                assert(spec_dict_insert(sk, key@, value@) == seq![(key@, value@)] + ops.skip(
                    j as int + 1,
                ));
                let nv = view_pairs(pairs@);
                let rhs = ops.take(j as int) + (seq![(key@, value@)] + ops.skip(j as int + 1));
                assert forall|m: int| 0 <= m < nv.len() implies nv[m] == rhs[m] by {
                    assert(nv[m] == (pairs@[m].0@, pairs@[m].1@));
                    if m < j as int || m > j as int {
                        assert(pairs@[m] == old(pairs)@[m]);
                        assert(ops[m] == (old(pairs)@[m].0@, old(pairs)@[m].1@));
                    } else {
                        assert(pairs@[m] == (key, value));
                    }
                }
                assert(nv =~= rhs);
            }
            return ;
        }
        if str_lt(key.as_str(), pairs[j].0.as_str()) {
            proof {
                lemma_dict_insert_split(ops, key@, value@, j as int);
                assert(ops.skip(j as int)[0] == ops[j as int]);
            }
            pairs.insert(j, (key, value));
            proof {
                lemma_view_pairs(pairs@);
                let sk = ops.skip(j as int);
                assert(spec_dict_insert(sk, key@, value@) == seq![(key@, value@)] + sk);
                let nv = view_pairs(pairs@);
                let rhs = ops.take(j as int) + (seq![(key@, value@)] + sk);
                assert forall|m: int| 0 <= m < nv.len() implies nv[m] == rhs[m] by {
                    assert(nv[m] == (pairs@[m].0@, pairs@[m].1@));
                    if m < j as int {
                        assert(pairs@[m] == old(pairs)@[m]);
                        assert(ops[m] == (old(pairs)@[m].0@, old(pairs)@[m].1@));
                    } else if m > j as int {
                        assert(pairs@[m] == old(pairs)@[m - 1]);
                        assert(ops[m - 1] == (old(pairs)@[m - 1].0@, old(pairs)@[m - 1].1@));
                    } else {
                        assert(pairs@[m] == (key, value));
                    }
                }
                assert(nv =~= rhs);
            }
            return ;
        }
        j = j + 1;
    }
    proof {
        lemma_dict_insert_split(ops, key@, value@, n as int);
        assert(ops.skip(n as int) =~= Seq::<(Seq<char>, ValueV)>::empty());
    }
    pairs.push((key, value));
    proof {
        lemma_view_pairs(pairs@);
        assert(spec_dict_insert(ops.skip(n as int), key@, value@) == seq![(key@, value@)]);
        let nv = view_pairs(pairs@);
        let rhs = ops.take(n as int) + seq![(key@, value@)];
        assert forall|m: int| 0 <= m < nv.len() implies nv[m] == rhs[m] by {
            assert(nv[m] == (pairs@[m].0@, pairs@[m].1@));
            if m < n as int {
                assert(pairs@[m] == old(pairs)@[m]);
                assert(ops[m] == (old(pairs)@[m].0@, old(pairs)@[m].1@));
            } else {
                assert(pairs@[m] == (key, value));
            }
        }
        assert(nv =~= rhs);
    }
}

/// The value under `key` in a dictionary vector, as a shared copy.
#[verifier::loop_isolation(false)]
pub fn dict_lookup(pairs: &Vec<(String, Value)>, key: &str) -> (r: Option<Value>)
    ensures
        match r {
            Some(v) => spec_dict_lookup(view_pairs(pairs@), key@) == Some(v@),
            None => spec_dict_lookup(view_pairs(pairs@), key@) is None,
        },
{
    let ghost ps = view_pairs(pairs@);
    proof {
        lemma_view_pairs(pairs@);
    }
    let n: usize = pairs.len();
    let mut j: usize = 0;
    proof {
        assert(ps.skip(0) =~= ps);
    }
    while j < n
        invariant
            j <= n,
            spec_dict_lookup(ps, key@) == spec_dict_lookup(ps.skip(j as int), key@),
        decreases n - j,
    {
        proof {
            assert(ps.skip(j as int)[0] == ps[j as int]);
            assert(ps.skip(j as int).subrange(1, ps.skip(j as int).len() as int) =~= ps.skip(
                j as int + 1,
            ));
        }
        if str_eq(pairs[j].0.as_str(), key) {
            return Some(duplicate(&pairs[j].1));
        }
        j = j + 1;
    }
    proof {
        assert(ps.skip(n as int) =~= Seq::<(Seq<char>, ValueV)>::empty());
    }
    None
}

/// The member of a string receiver: `length` is a property, the methods
/// come back as bound function values.
pub open spec fn spec_string_member(s: Seq<char>, name: Seq<char>) -> Outcome {
    if name == "length"@ {
        if s.len() <= i64::MAX {
            Outcome::Val(ValueV::Primitive(PrimitiveV::Int(s.len() as int)))
        } else {
            Outcome::Unknown
        }
    } else if name == "toUpper"@ {
        Outcome::Val(ValueV::Func(FuncV::StrFn(StrMethod::ToUpper, s)))
    } else if name == "toLower"@ {
        Outcome::Val(ValueV::Func(FuncV::StrFn(StrMethod::ToLower, s)))
    } else if name == "trim"@ {
        Outcome::Val(ValueV::Func(FuncV::StrFn(StrMethod::Trim, s)))
    } else if name == "contains"@ {
        Outcome::Val(ValueV::Func(FuncV::StrFn(StrMethod::Contains, s)))
    } else if name == "substring"@ {
        Outcome::Val(ValueV::Func(FuncV::StrFn(StrMethod::Substring, s)))
    } else {
        Outcome::Fail(ErrorV::UnknownMember { kind_name: "string"@, member: name })
    }
}

/// The member of a list receiver.
pub open spec fn spec_list_member(items: Seq<ValueV>, name: Seq<char>) -> Outcome {
    if name == "length"@ {
        if items.len() <= i64::MAX {
            Outcome::Val(ValueV::Primitive(PrimitiveV::Int(items.len() as int)))
        } else {
            Outcome::Unknown
        }
    } else if name == "contains"@ {
        Outcome::Val(ValueV::Func(FuncV::ListFn(ListMethod::Contains, items)))
    } else if name == "get"@ {
        Outcome::Val(ValueV::Func(FuncV::ListFn(ListMethod::Get, items)))
    } else if name == "join"@ {
        Outcome::Val(ValueV::Func(FuncV::ListFn(ListMethod::Join, items)))
    } else {
        Outcome::Fail(ErrorV::UnknownMember { kind_name: "list"@, member: name })
    }
}

/// The member of a dictionary receiver.
pub open spec fn spec_dict_member(pairs: Seq<(Seq<char>, ValueV)>, name: Seq<char>) -> Outcome {
    if name == "length"@ {
        if pairs.len() <= i64::MAX {
            Outcome::Val(ValueV::Primitive(PrimitiveV::Int(pairs.len() as int)))
        } else {
            Outcome::Unknown
        }
    } else if name == "keys"@ {
        Outcome::Val(ValueV::Func(FuncV::DictFn(DictMethod::Keys, pairs)))
    } else if name == "values"@ {
        Outcome::Val(ValueV::Func(FuncV::DictFn(DictMethod::Values, pairs)))
    } else if name == "contains"@ {
        Outcome::Val(ValueV::Func(FuncV::DictFn(DictMethod::Contains, pairs)))
    } else if name == "get"@ {
        Outcome::Val(ValueV::Func(FuncV::DictFn(DictMethod::Get, pairs)))
    } else {
        Outcome::Fail(ErrorV::UnknownMember { kind_name: "dict"@, member: name })
    }
}

/// The member of any value: strings, lists and dictionaries have members,
/// every other kind refuses with the receiver's kind name.
pub open spec fn spec_get_member(v: ValueV, name: Seq<char>) -> Outcome {
    match v {
        ValueV::Primitive(PrimitiveV::Str(s)) => spec_string_member(s, name),
        ValueV::List(items) => spec_list_member(items, name),
        ValueV::Dict(pairs) => spec_dict_member(pairs, name),
        _ => Outcome::Fail(
            ErrorV::UnknownMember { kind_name: spec_kind_name(v), member: name },
        ),
    }
}

/// The member of a string receiver, as the evaluator resolves it.
pub fn get_string_member(s: &String, name: &str) -> (r: Result<Value, Error>)
    ensures
        conforms(r, spec_string_member(s@, name@)),
{
    if str_eq(name, "length") {
        let n: usize = s.as_str().unicode_len();
        if (n as u64) <= (i64::MAX as u64) {
            Ok(Value::Primitive(Primitive::Int(n as i64)))
        } else {
            Err(Error::Unsupported(String::from_str("oversized string")))
        }
    } else if str_eq(name, "toUpper") {
        Ok(Value::Func(FuncVal::StrFn(StrMethod::ToUpper, s.clone())))
    } else if str_eq(name, "toLower") {
        Ok(Value::Func(FuncVal::StrFn(StrMethod::ToLower, s.clone())))
    } else if str_eq(name, "trim") {
        Ok(Value::Func(FuncVal::StrFn(StrMethod::Trim, s.clone())))
    } else if str_eq(name, "contains") {
        Ok(Value::Func(FuncVal::StrFn(StrMethod::Contains, s.clone())))
    } else if str_eq(name, "substring") {
        Ok(Value::Func(FuncVal::StrFn(StrMethod::Substring, s.clone())))
    } else {
        Err(
            Error::UnknownMember {
                kind_name: String::from_str("string"),
                member: name.to_owned(),
            },
        )
    }
}

/// The member of a list receiver, as the evaluator resolves it.
pub fn get_list_member(items: &Rc<Vec<Value>>, name: &str) -> (r: Result<Value, Error>)
    ensures
        conforms(r, spec_list_member(view_values((**items)@), name@)),
{
    proof {
        lemma_view_values((**items)@);
    }
    if str_eq(name, "length") {
        let n: usize = (**items).len();
        if (n as u64) <= (i64::MAX as u64) {
            Ok(Value::Primitive(Primitive::Int(n as i64)))
        } else {
            Err(Error::Unsupported(String::from_str("oversized list")))
        }
    } else if str_eq(name, "contains") {
        Ok(Value::Func(FuncVal::ListFn(ListMethod::Contains, rc_clone(items))))
    } else if str_eq(name, "get") {
        Ok(Value::Func(FuncVal::ListFn(ListMethod::Get, rc_clone(items))))
    } else if str_eq(name, "join") {
        Ok(Value::Func(FuncVal::ListFn(ListMethod::Join, rc_clone(items))))
    } else {
        Err(
            Error::UnknownMember {
                kind_name: String::from_str("list"),
                member: name.to_owned(),
            },
        )
    }
}

/// The member of a dictionary receiver, as the evaluator resolves it.
pub fn get_dict_member(pairs: &Rc<Vec<(String, Value)>>, name: &str) -> (r: Result<Value, Error>)
    ensures
        conforms(r, spec_dict_member(view_pairs((**pairs)@), name@)),
{
    proof {
        lemma_view_pairs((**pairs)@);
    }
    if str_eq(name, "length") {
        let n: usize = (**pairs).len();
        if (n as u64) <= (i64::MAX as u64) {
            Ok(Value::Primitive(Primitive::Int(n as i64)))
        } else {
            Err(Error::Unsupported(String::from_str("oversized dict")))
        }
    } else if str_eq(name, "keys") {
        Ok(Value::Func(FuncVal::DictFn(DictMethod::Keys, rc_clone(pairs))))
    } else if str_eq(name, "values") {
        Ok(Value::Func(FuncVal::DictFn(DictMethod::Values, rc_clone(pairs))))
    } else if str_eq(name, "contains") {
        Ok(Value::Func(FuncVal::DictFn(DictMethod::Contains, rc_clone(pairs))))
    } else if str_eq(name, "get") {
        Ok(Value::Func(FuncVal::DictFn(DictMethod::Get, rc_clone(pairs))))
    } else {
        Err(
            Error::UnknownMember {
                kind_name: String::from_str("dict"),
                member: name.to_owned(),
            },
        )
    }
}

impl Value {
    /// The member `name` of this value.
    pub fn get_member(&self, name: &str) -> (r: Result<Value, Error>)
        ensures
            conforms(r, spec_get_member(self@, name@)),
    {
        match self {
            Value::Primitive(Primitive::Str(s)) => get_string_member(s, name),
            Value::List(items) => get_list_member(items, name),
            Value::Dict(pairs) => get_dict_member(pairs, name),
            _ => {
                let kind = self.kind_name();
                Err(
                    Error::UnknownMember {
                        kind_name: kind.to_owned(),
                        member: name.to_owned(),
                    },
                )
            },
        }
    }
}

/// Strict list indexing: a negative index counts from the end, and an
/// index outside the list is an error carrying the index and the length.
pub open spec fn spec_list_index(items: Seq<ValueV>, idx: int) -> Outcome {
    if items.len() > i64::MAX {
        Outcome::Unknown
    } else {
        let eff = if idx < 0 {
            items.len() + idx
        } else {
            idx
        };
        if eff < 0 || eff >= items.len() {
            Outcome::Fail(ErrorV::IndexOutOfBounds { index: idx, len: items.len() as int })
        } else {
            Outcome::Val(items[eff])
        }
    }
}

/// Strict list indexing, as `[i]` evaluates it.
pub fn list_index(items: &Vec<Value>, idx: i64) -> (r: Result<Value, Error>)
    ensures
        conforms(r, spec_list_index(view_values(items@), idx as int)),
{
    proof {
        lemma_view_values(items@);
    }
    let n: usize = items.len();
    if (n as u64) > (i64::MAX as u64) {
        return Err(Error::Unsupported(String::from_str("oversized list")));
    }
    let len_i: i64 = n as i64;
    let eff: i64 = if idx < 0 {
        len_i + idx
    } else {
        idx
    };
    if eff < 0 || eff >= len_i {
        Err(Error::IndexOutOfBounds { index: idx, len: n })
    } else {
        Ok(duplicate(&items[eff as usize]))
    }
}

/// An index normalized for a receiver of length `len`: negative indices
/// count from the end, and the result is clamped into `[0, len]`.
pub open spec fn spec_clamp_index(i: int, len: int) -> int {
    let e = if i < 0 {
        len + i
    } else {
        i
    };
    if e < 0 {
        0
    } else if e > len {
        len
    } else {
        e
    }
}

/// Whether some element of `items` is deep-equal to `v`.
pub open spec fn spec_list_contains(items: Seq<ValueV>, v: ValueV) -> bool {
    exists|i: int| 0 <= i < items.len() && spec_value_eq(#[trigger] items[i], v)
}

/// The renderings of `items` joined by `sep`.
pub open spec fn spec_join(items: Seq<ValueV>, sep: Seq<char>) -> Seq<char>
    decreases items,
{
    if items.len() == 0 {
        Seq::empty()
    } else if items.len() == 1 {
        spec_value_str(items[0])
    } else {
        spec_join(items.drop_last(), sep) + sep + spec_value_str(items.last())
    }
}

/// The keys of a dictionary, as a snapshot list of strings.
pub open spec fn spec_dict_keys(pairs: Seq<(Seq<char>, ValueV)>) -> Seq<ValueV> {
    Seq::new(pairs.len(), |i: int| ValueV::Primitive(PrimitiveV::Str(pairs[i].0)))
}

/// The values of a dictionary, as a snapshot list.
pub open spec fn spec_dict_values(pairs: Seq<(Seq<char>, ValueV)>) -> Seq<ValueV> {
    Seq::new(pairs.len(), |i: int| pairs[i].1)
}

/// Applying a bound string method to evaluated arguments.
pub open spec fn spec_apply_str_fn(m: StrMethod, s: Seq<char>, args: Seq<ValueV>) -> Outcome {
    match m {
        StrMethod::ToUpper => if args.len() != 0 {
            Outcome::Fail(ErrorV::EvaluationFailed("expected 0 args"@))
        } else {
            Outcome::Val(ValueV::Primitive(PrimitiveV::Str(spec_upper(s))))
        },
        StrMethod::ToLower => if args.len() != 0 {
            Outcome::Fail(ErrorV::EvaluationFailed("expected 0 args"@))
        } else {
            Outcome::Val(ValueV::Primitive(PrimitiveV::Str(spec_lower(s))))
        },
        StrMethod::Trim => if args.len() != 0 {
            Outcome::Fail(ErrorV::EvaluationFailed("expected 0 args"@))
        } else {
            Outcome::Val(ValueV::Primitive(PrimitiveV::Str(spec_trim(s))))
        },
        StrMethod::Contains => if args.len() != 1 {
            Outcome::Fail(ErrorV::EvaluationFailed("expected 1 arg"@))
        } else {
            match args[0] {
                ValueV::Primitive(PrimitiveV::Str(n)) => Outcome::Val(
                    ValueV::Primitive(PrimitiveV::Bool(spec_str_contains(s, n))),
                ),
                _ => Outcome::Fail(ErrorV::TypeMismatch("contains expects a string"@)),
            }
        },
        StrMethod::Substring => spec_substring(s, args),
    }
}

/// The `substring` method: start and end are normalized and clamped into
/// the string, and a crossed pair collapses to the empty string.
pub open spec fn spec_substring(s: Seq<char>, args: Seq<ValueV>) -> Outcome {
    if args.len() == 0 || args.len() > 2 {
        Outcome::Fail(ErrorV::EvaluationFailed("expected 1 or 2 args"@))
    } else {
        match args[0] {
            ValueV::Primitive(PrimitiveV::Int(st)) => {
                if s.len() > i64::MAX {
                    Outcome::Unknown
                } else {
                    let start = spec_clamp_index(st, s.len() as int);
                    if args.len() == 2 {
                        match args[1] {
                            ValueV::Primitive(PrimitiveV::Int(en)) => {
                                let end = spec_clamp_index(en, s.len() as int);
                                if start > end {
                                    Outcome::Val(
                                        ValueV::Primitive(PrimitiveV::Str(Seq::empty())),
                                    )
                                } else {
                                    Outcome::Val(
                                        ValueV::Primitive(
                                            PrimitiveV::Str(s.subrange(start, end)),
                                        ),
                                    )
                                }
                            },
                            _ => Outcome::Fail(
                                ErrorV::TypeMismatch("substring expects int end"@),
                            ),
                        }
                    } else {
                        Outcome::Val(
                            ValueV::Primitive(
                                PrimitiveV::Str(s.subrange(start, s.len() as int)),
                            ),
                        )
                    }
                }
            },
            _ => Outcome::Fail(ErrorV::TypeMismatch("substring expects int start"@)),
        }
    }
}

/// Applying a bound list method to evaluated arguments.
pub open spec fn spec_apply_list_fn(m: ListMethod, items: Seq<ValueV>, args: Seq<ValueV>) -> Outcome {
    match m {
        ListMethod::Contains => if args.len() != 1 {
            Outcome::Fail(ErrorV::EvaluationFailed("expected 1 arg"@))
        } else {
            Outcome::Val(ValueV::Primitive(PrimitiveV::Bool(spec_list_contains(items, args[0]))))
        },
        ListMethod::Get => if args.len() != 2 {
            Outcome::Fail(ErrorV::EvaluationFailed("expected 2 args"@))
        } else {
            match args[0] {
                ValueV::Primitive(PrimitiveV::Int(idx)) => {
                    if items.len() > i64::MAX {
                        Outcome::Unknown
                    } else {
                        let eff = if idx < 0 {
                            items.len() + idx
                        } else {
                            idx
                        };
                        if eff < 0 || eff >= items.len() {
                            Outcome::Val(args[1])
                        } else {
                            Outcome::Val(items[eff])
                        }
                    }
                },
                _ => Outcome::Fail(ErrorV::TypeMismatch("get expects int index"@)),
            }
        },
        ListMethod::Join => if args.len() != 1 {
            Outcome::Fail(ErrorV::EvaluationFailed("expected 1 arg"@))
        } else {
            match args[0] {
                ValueV::Primitive(PrimitiveV::Str(sep)) => Outcome::Val(
                    ValueV::Primitive(PrimitiveV::Str(spec_join(items, sep))),
                ),
                _ => Outcome::Fail(ErrorV::TypeMismatch("join expects a string joiner"@)),
            }
        },
    }
}

/// Applying a bound dictionary method to evaluated arguments.
pub open spec fn spec_apply_dict_fn(
    m: DictMethod,
    pairs: Seq<(Seq<char>, ValueV)>,
    args: Seq<ValueV>,
) -> Outcome {
    match m {
        DictMethod::Keys => if args.len() != 0 {
            Outcome::Fail(ErrorV::EvaluationFailed("expected 0 args"@))
        } else {
            Outcome::Val(ValueV::List(spec_dict_keys(pairs)))
        },
        DictMethod::Values => if args.len() != 0 {
            Outcome::Fail(ErrorV::EvaluationFailed("expected 0 args"@))
        } else {
            Outcome::Val(ValueV::List(spec_dict_values(pairs)))
        },
        DictMethod::Contains => if args.len() != 1 {
            Outcome::Fail(ErrorV::EvaluationFailed("expected 1 arg"@))
        } else {
            match args[0] {
                ValueV::Primitive(PrimitiveV::Str(k)) => Outcome::Val(
                    ValueV::Primitive(PrimitiveV::Bool(spec_dict_lookup(pairs, k) is Some)),
                ),
                _ => Outcome::Fail(ErrorV::TypeMismatch("contains expects a string"@)),
            }
        },
        DictMethod::Get => if args.len() != 2 {
            Outcome::Fail(ErrorV::EvaluationFailed("expected 2 args"@))
        } else {
            match args[0] {
                ValueV::Primitive(PrimitiveV::Str(k)) => match spec_dict_lookup(pairs, k) {
                    Some(v) => Outcome::Val(v),
                    None => Outcome::Val(args[1]),
                },
                _ => Outcome::Fail(ErrorV::TypeMismatch("get expects string key"@)),
            }
        },
    }
}

/// Applying a function value: a host native is left to the host, a bound
/// built-in method is pinned exactly.
pub open spec fn spec_apply_func(f: FuncV, args: Seq<ValueV>) -> Outcome {
    match f {
        FuncV::Native(_) => Outcome::Unknown,
        FuncV::StrFn(m, s) => spec_apply_str_fn(m, s, args),
        FuncV::ListFn(m, items) => spec_apply_list_fn(m, items, args),
        FuncV::DictFn(m, pairs) => spec_apply_dict_fn(m, pairs, args),
    }
}

/// A clamped index for a receiver of length `len`.
pub fn clamp_index(i: i64, len: i64) -> (r: i64)
    requires
        len >= 0,
    ensures
        r == spec_clamp_index(i as int, len as int),
        0 <= r <= len,
{
    if i < 0 {
        let e: i64 = len + i;
        if e < 0 {
            0
        } else {
            e
        }
    } else {
        if i > len {
            len
        } else {
            i
        }
    }
}

/// A bound string method applied to its arguments.
pub fn apply_str_fn(m: StrMethod, s: &String, args: &Vec<Value>) -> (r: Result<Value, Error>)
    ensures
        conforms(r, spec_apply_str_fn(m, s@, view_values(args@))),
{
    proof {
        lemma_view_values(args@);
    }
    match m {
        StrMethod::ToUpper => {
            if args.len() != 0 {
                Err(Error::EvaluationFailed(String::from_str("expected 0 args")))
            } else {
                Ok(Value::Primitive(Primitive::Str(str_to_upper(s.as_str()))))
            }
        },
        StrMethod::ToLower => {
            if args.len() != 0 {
                Err(Error::EvaluationFailed(String::from_str("expected 0 args")))
            } else {
                Ok(Value::Primitive(Primitive::Str(str_to_lower(s.as_str()))))
            }
        },
        StrMethod::Trim => {
            if args.len() != 0 {
                Err(Error::EvaluationFailed(String::from_str("expected 0 args")))
            } else {
                Ok(Value::Primitive(Primitive::Str(str_trim(s.as_str()))))
            }
        },
        StrMethod::Contains => {
            if args.len() != 1 {
                Err(Error::EvaluationFailed(String::from_str("expected 1 arg")))
            } else {
                proof {
                    assert(view_values(args@)[0] == args@[0]@);
                }
                match &args[0] {
                    Value::Primitive(Primitive::Str(n)) => Ok(
                        Value::Primitive(
                            Primitive::Bool(str_contains(s.as_str(), n.as_str())),
                        ),
                    ),
                    _ => Err(Error::TypeMismatch(String::from_str("contains expects a string"))),
                }
            }
        },
        StrMethod::Substring => {
            if args.len() == 0 || args.len() > 2 {
                return Err(Error::EvaluationFailed(String::from_str("expected 1 or 2 args")));
            }
            proof {
                assert(view_values(args@)[0] == args@[0]@);
                if args@.len() == 2 {
                    assert(view_values(args@)[1] == args@[1]@);
                }
            }
            match &args[0] {
                Value::Primitive(Primitive::Int(st)) => {
                    let n: usize = s.as_str().unicode_len();
                    if (n as u64) > (i64::MAX as u64) {
                        return Err(Error::Unsupported(String::from_str("oversized string")));
                    }
                    let len_i: i64 = n as i64;
                    let start: i64 = clamp_index(*st, len_i);
                    if args.len() == 2 {
                        match &args[1] {
                            Value::Primitive(Primitive::Int(en)) => {
                                let end: i64 = clamp_index(*en, len_i);
                                if start > end {
                                    Ok(Value::Primitive(Primitive::Str(String::new())))
                                } else {
                                    let sub = s.as_str().substring_char(
                                        start as usize,
                                        end as usize,
                                    );
                                    Ok(Value::Primitive(Primitive::Str(sub.to_owned())))
                                }
                            },
                            _ => Err(
                                Error::TypeMismatch(
                                    String::from_str("substring expects int end"),
                                ),
                            ),
                        }
                    } else {
                        let sub = s.as_str().substring_char(start as usize, n);
                        Ok(Value::Primitive(Primitive::Str(sub.to_owned())))
                    }
                },
                _ => Err(Error::TypeMismatch(String::from_str("substring expects int start"))),
            }
        },
    }
}

/// A bound list method applied to its arguments.
#[verifier::loop_isolation(false)]
pub fn apply_list_fn(m: ListMethod, items: &Rc<Vec<Value>>, args: &Vec<Value>) -> (r: Result<
    Value,
    Error,
>)
    ensures
        conforms(r, spec_apply_list_fn(m, view_values((**items)@), view_values(args@))),
{
    proof {
        lemma_view_values(args@);
        lemma_view_values((**items)@);
    }
    let ghost iv = view_values((**items)@);
    match m {
        ListMethod::Contains => {
            if args.len() != 1 {
                return Err(Error::EvaluationFailed(String::from_str("expected 1 arg")));
            }
            proof {
                assert(view_values(args@)[0] == args@[0]@);
            }
            let n: usize = (**items).len();
            let mut j: usize = 0;
            while j < n
                invariant
                    j <= n,
                    forall|k: int| 0 <= k < j ==> !spec_value_eq(#[trigger] iv[k], view_values(args@)[0]),
                decreases n - j,
            {
                proof {
                    assert(iv[j as int] == (**items)@[j as int]@);
                }
                if value_eq(&(**items)[j], &args[0]) {
                    return Ok(Value::Primitive(Primitive::Bool(true)));
                }
                j = j + 1;
            }
            Ok(Value::Primitive(Primitive::Bool(false)))
        },
        ListMethod::Get => {
            if args.len() != 2 {
                return Err(Error::EvaluationFailed(String::from_str("expected 2 args")));
            }
            proof {
                assert(view_values(args@)[0] == args@[0]@);
                assert(view_values(args@)[1] == args@[1]@);
            }
            match &args[0] {
                Value::Primitive(Primitive::Int(idx)) => {
                    let n: usize = (**items).len();
                    if (n as u64) > (i64::MAX as u64) {
                        return Err(Error::Unsupported(String::from_str("oversized list")));
                    }
                    let len_i: i64 = n as i64;
                    let eff: i64 = if *idx < 0 {
                        len_i + *idx
                    } else {
                        *idx
                    };
                    if eff < 0 || eff >= len_i {
                        Ok(duplicate(&args[1]))
                    } else {
                        proof {
                            assert(iv[eff as int] == (**items)@[eff as int]@);
                        }
                        Ok(duplicate(&(**items)[eff as usize]))
                    }
                },
                _ => Err(Error::TypeMismatch(String::from_str("get expects int index"))),
            }
        },
        ListMethod::Join => {
            if args.len() != 1 {
                return Err(Error::EvaluationFailed(String::from_str("expected 1 arg")));
            }
            proof {
                assert(view_values(args@)[0] == args@[0]@);
            }
            match &args[0] {
                Value::Primitive(Primitive::Str(sep)) => {
                    let n: usize = (**items).len();
                    let mut out = String::new();
                    proof {
                        assert(out@ =~= spec_join(iv.take(0), sep@));
                    }
                    let mut j: usize = 0;
                    while j < n
                        invariant
                            j <= n,
                            out@ == spec_join(iv.take(j as int), sep@),
                        decreases n - j,
                    {
                        if j > 0 {
                            out.append(sep.as_str());
                        }
                        let part = (**items)[j].as_str_lossy();
                        out.append(part.as_str());
                        proof {
                            let t = j as int;
                            assert(iv.take(t + 1).drop_last() =~= iv.take(t));
                            assert(iv.take(t + 1).last() == iv[t]);
                            if t == 0 {
                                assert(iv.take(1)[0] == iv[0]);
                                assert(spec_join(iv.take(1), sep@) == spec_value_str(iv[0]));
                            } else {
                                assert(spec_join(iv.take(t + 1), sep@) == spec_join(
                                    iv.take(t),
                                    sep@,
                                ) + sep@ + spec_value_str(iv[t]));
                            }
                        }
                        j = j + 1;
                    }
                    proof {
                        assert(iv.take(n as int) =~= iv);
                    }
                    Ok(Value::Primitive(Primitive::Str(out)))
                },
                _ => Err(Error::TypeMismatch(String::from_str("join expects a string joiner"))),
            }
        },
    }
}

/// A bound dictionary method applied to its arguments.
#[verifier::loop_isolation(false)]
pub fn apply_dict_fn(m: DictMethod, pairs: &Rc<Vec<(String, Value)>>, args: &Vec<Value>) -> (r:
    Result<Value, Error>)
    ensures
        conforms(r, spec_apply_dict_fn(m, view_pairs((**pairs)@), view_values(args@))),
{
    proof {
        lemma_view_values(args@);
        lemma_view_pairs((**pairs)@);
    }
    let ghost ps = view_pairs((**pairs)@);
    match m {
        DictMethod::Keys => {
            if args.len() != 0 {
                return Err(Error::EvaluationFailed(String::from_str("expected 0 args")));
            }
            let n: usize = (**pairs).len();
            let mut out: Vec<Value> = Vec::new();
            let mut j: usize = 0;
            while j < n
                invariant
                    j <= n,
                    out@.len() == j,
                    forall|k: int|
                        0 <= k < j ==> #[trigger] out@[k]@ == ValueV::Primitive(
                            PrimitiveV::Str(ps[k].0),
                        ),
                decreases n - j,
            {
                proof {
                    assert(ps[j as int] == ((**pairs)@[j as int].0@, (**pairs)@[j as int].1@));
                }
                out.push(Value::Primitive(Primitive::Str((**pairs)[j].0.clone())));
                j = j + 1;
            }
            proof {
                lemma_view_values(out@);
                assert forall|k: int|
                    0 <= k < n as int implies view_values(out@)[k] == spec_dict_keys(ps)[k] by {
                    assert(view_values(out@)[k] == out@[k]@);
                }
                assert(view_values(out@) =~= spec_dict_keys(ps));
            }
            Ok(Value::List(Rc::new(out)))
        },
        DictMethod::Values => {
            if args.len() != 0 {
                return Err(Error::EvaluationFailed(String::from_str("expected 0 args")));
            }
            let n: usize = (**pairs).len();
            let mut out: Vec<Value> = Vec::new();
            let mut j: usize = 0;
            while j < n
                invariant
                    j <= n,
                    out@.len() == j,
                    forall|k: int| 0 <= k < j ==> #[trigger] out@[k]@ == ps[k].1,
                decreases n - j,
            {
                proof {
                    assert(ps[j as int] == ((**pairs)@[j as int].0@, (**pairs)@[j as int].1@));
                }
                out.push(duplicate(&(**pairs)[j].1));
                j = j + 1;
            }
            proof {
                lemma_view_values(out@);
                assert forall|k: int|
                    0 <= k < n as int implies view_values(out@)[k] == spec_dict_values(ps)[k] by {
                    assert(view_values(out@)[k] == out@[k]@);
                }
                assert(view_values(out@) =~= spec_dict_values(ps));
            }
            Ok(Value::List(Rc::new(out)))
        },
        DictMethod::Contains => {
            if args.len() != 1 {
                return Err(Error::EvaluationFailed(String::from_str("expected 1 arg")));
            }
            proof {
                assert(view_values(args@)[0] == args@[0]@);
            }
            match &args[0] {
                Value::Primitive(Primitive::Str(k)) => {
                    match dict_lookup(&**pairs, k.as_str()) {
                        Some(_) => Ok(Value::Primitive(Primitive::Bool(true))),
                        None => Ok(Value::Primitive(Primitive::Bool(false))),
                    }
                },
                _ => Err(Error::TypeMismatch(String::from_str("contains expects a string"))),
            }
        },
        DictMethod::Get => {
            if args.len() != 2 {
                return Err(Error::EvaluationFailed(String::from_str("expected 2 args")));
            }
            proof {
                assert(view_values(args@)[0] == args@[0]@);
                assert(view_values(args@)[1] == args@[1]@);
            }
            match &args[0] {
                Value::Primitive(Primitive::Str(k)) => {
                    match dict_lookup(&**pairs, k.as_str()) {
                        Some(v) => Ok(v),
                        None => Ok(duplicate(&args[1])),
                    }
                },
                _ => Err(Error::TypeMismatch(String::from_str("get expects string key"))),
            }
        },
    }
}

} // verus!
