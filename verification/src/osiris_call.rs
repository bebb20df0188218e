//! Looking up Osiris calls and queries by name and arity, and preparing the
//! arguments that the engine expects for them.
use vstd::prelude::*;
use crate::osiris::{c_bytes, handle_of, out_bit, Function as FunctionRecord, FunctionDb, OsiString};
use crate::value_type::ValueType;
use crate::text::{decimal_chars, push_text};
use vstd::string::StringSliceAdditionalSpecFns;

verus! {

broadcast use vstd::string::group_string_axioms;

/// One step of the engine's name hash: the byte with the lowercase bit set,
/// plus 129 times the hash so far reduced modulo 4294967.
pub open spec fn hash_step(hash: u32, c: u8) -> u32 {
    ((c as u32 | 0x20u32) + 129 * (hash % 4294967)) as u32
}

/// The name hash of the bytes before the first nul, continuing from `acc`.
pub open spec fn name_hash_from(s: Seq<u8>, acc: u32) -> u32
    decreases s.len(),
{
    if s.len() == 0 || s[0] == 0 {
        acc
    } else {
        name_hash_from(s.drop_first(), hash_step(acc, s[0]))
    }
}

/// The engine's hash of a function name.
pub open spec fn name_hash(s: Seq<u8>) -> u32 {
    name_hash_from(s, 0)
}

/// The engine's hash of a function name, over the bytes before the first nul.
pub fn function_name_hash(s: &[u8]) -> (res: u32)
    ensures
        res == name_hash(s@),
        res <= 554050869,
{
    let mut hash: u32 = 0;
    let mut i: usize = 0;
    assert(s@.skip(0) =~= s@);
    while i < s.len() && s[i] != 0
        invariant
            i <= s@.len(),
            hash <= 554050869,
            name_hash(s@) == name_hash_from(s@.skip(i as int), hash),
        decreases s@.len() - i,
    {
        let c = s[i];
        let low: u32 = c as u32 | 0x20u32;
        assert(c as u32 | 0x20u32 <= 255) by (bit_vector);
        assert(s@.skip(i as int).drop_first() =~= s@.skip(i + 1));
        hash = low + 129 * (hash % 4294967);
        i = i + 1;
    }
    hash
}

/// The decimal digits of `n`, as ASCII bytes.
pub open spec fn decimal(n: nat) -> Seq<u8>
    decreases n,
{
    if n < 10 {
        seq![(48 + n) as u8]
    } else {
        decimal(n / 10).push((48 + n % 10) as u8)
    }
}

fn push_decimal(n: usize, out: &mut Vec<u8>)
    ensures
        final(out)@ == old(out)@ + decimal(n as nat),
    decreases n,
{
    if n >= 10 {
        push_decimal(n / 10, out);
    }
    let d: u8 = (n % 10) as u8;
    out.push(48u8 + d);
}

/// The name under which the engine files a function: its name, a slash and
/// its number of parameters in decimal.
pub open spec fn signature_name(name: Seq<u8>, n: nat) -> Seq<u8> {
    name + seq![47u8] + decimal(n)
}

proof fn lemma_c_bytes_padded(a: Seq<u8>, z: Seq<u8>)
    requires
        z.len() > 0,
        z[0] == 0,
    ensures
        c_bytes(a + z) == c_bytes(a),
    decreases a.len(),
{
    if a.len() == 0 {
        assert(a + z =~= z);
    } else if a[0] != 0 {
        assert((a + z).drop_first() =~= a.drop_first() + z);
        lemma_c_bytes_padded(a.drop_first(), z);
    }
}

/// The engine string under which a function of `n` parameters is filed.
fn signature_key(name: &str, n: usize) -> (res: OsiString)
    ensures
        c_bytes(res.str.buf@) == c_bytes(signature_name(name.spec_bytes(), n as nat)),
{
    let mut bytes = vstd::slice::slice_to_vec(name.as_bytes());
    bytes.push(47u8);
    push_decimal(n, &mut bytes);
    let ghost key = bytes@;
    assert(key =~= signature_name(name.spec_bytes(), n as nat));
    let res = OsiString::from_bytes(bytes.as_slice());
    proof {
        if key.len() < 16 {
            lemma_c_bytes_padded(key, Seq::new((16 - key.len()) as nat, |i: int| 0u8));
        } else {
            assert(key.push(0) =~= key + seq![0u8]);
            lemma_c_bytes_padded(key, seq![0u8]);
        }
    }
    res
}

/// Why a function could not be had as a call or a query.
#[derive(Clone, Copy, Debug, PartialEq, Eq)]
pub enum FunctionError {
    /// No function of that name and number of parameters is filed.
    NotFound,
    /// The function has out parameters, so it is a query.
    HasOutParams,
    /// The function has no out parameters, so it is a call.
    NoOutParams,
}

/// The type of the `k`-th parameter of a function record.
pub open spec fn param_type(f: FunctionRecord, k: int) -> u16 {
    f.signature.params.nodes@[f.signature.params.item_nodes()[k]].item.ty
}

/// Whether the `k`-th parameter of a function record is an out parameter.
pub open spec fn param_is_out(f: FunctionRecord, k: int) -> bool {
    out_bit(f.signature.out_param_list.params@, k)
}

/// Whether a function record has an out parameter.
pub open spec fn has_out_param(f: FunctionRecord) -> bool {
    exists|k: int| 0 <= k < f.signature.params.size && #[trigger] param_is_out(f, k)
}

/// The hash under which a function of `n` parameters is filed.
pub open spec fn signature_hash(name: Seq<u8>, n: usize) -> u32 {
    (name_hash(name) + (n as u32)) as u32
}

/// Whether the hash of a function of `n` parameters stays within `u32`.
pub open spec fn hash_fits(name: Seq<u8>, n: usize) -> bool {
    name_hash(name) + (n as u32) <= u32::MAX
}

/// Whether the signature hash of `name` with `n` parameters fits in 32 bits.
pub fn signature_hash_fits(name: &str, n: usize) -> (res: bool)
    ensures
        res == hash_fits(name.spec_bytes(), n),
{
    #[verifier::truncate]
    let n32: u32 = n as u32;
    function_name_hash(name.as_bytes()).checked_add(n32).is_some()
}

/// The record filed for the function `name` with `n` parameters.
pub open spec fn lookup_signature(db: FunctionDb, name: Seq<u8>, n: usize) -> Option<usize> {
    db.lookup_name(signature_hash(name, n), c_bytes(signature_name(name, n as nat)))
}

/// A call: a function without out parameters.
#[derive(Debug)]
pub struct Call {
    pub name: String,
    pub handle: u32,
    pub args: Vec<ValueType>,
}

impl Call {
    /// This call is the function record `f` under the name `name`.
    pub open spec fn describes(&self, name: Seq<char>, f: FunctionRecord) -> bool {
        &&& self.name@ == name
        &&& self.handle == handle_of(f.key@)
        &&& self.args@.len() == f.signature.params.size
        &&& forall|k: int| 0 <= k < self.args@.len() ==> self.args@[k] == ValueType::spec_from(#[trigger] param_type(f, k))
    }

    /// The call `name` with `n_args` parameters, if the database files it and
    /// it has no out parameters.
    pub fn new(db: &FunctionDb, name: &str, n_args: usize) -> (res: Result<Call, FunctionError>)
        requires
            db.wf(),
            hash_fits(name.spec_bytes(), n_args),
        ensures
            match lookup_signature(*db, name.spec_bytes(), n_args) {
                None => res == Err::<Call, FunctionError>(FunctionError::NotFound),
                Some(i) => if has_out_param(db.records@[i as int]) {
                    res == Err::<Call, FunctionError>(FunctionError::HasOutParams)
                } else {
                    res matches Ok(c) && c.describes(name@, db.records@[i as int])
                },
            },
    {
        let key = signature_key(name, n_args);
        #[verifier::truncate]
        let n32: u32 = n_args as u32;
        let hash = function_name_hash(name.as_bytes()) + n32;
        let found = db.find(hash, &key.str);
        let i = match found {
            None => {
                return Err(FunctionError::NotFound);
            },
            Some(i) => *i,
        };
        let f = &db.records[i];
        let params = f.signature.params.iter();
        let mut args: Vec<ValueType> = Vec::new();
        let mut k: usize = 0;
        while k < params.len()
            invariant
                f.wf(),
                i < db.records@.len(),
                *f == db.records@[i as int],
                lookup_signature(*db, name.spec_bytes(), n_args) == Some(i),
                params@.len() == f.signature.params.size,
                forall|j: int| 0 <= j < params@.len() ==> *params@[j] == f.signature.params.nodes@[#[trigger] f.signature.params.item_nodes()[j]].item,
                k <= params@.len(),
                args@.len() == k,
                forall|j: int| 0 <= j < k ==> !param_is_out(*f, j),
                forall|j: int| 0 <= j < k ==> args@[j] == ValueType::spec_from(#[trigger] param_type(*f, j)),
            decreases params@.len() - k,
        {
            if f.signature.out_param_list.is_out_param(k) {
                assert(param_is_out(*f, k as int));
                return Err(FunctionError::HasOutParams);
            }
            let ty = params[k].ty;
            args.push(ValueType::from(ty));
            k = k + 1;
        }
        proof {
            assert(!has_out_param(*f));
        }
        Ok(Call { name: name.to_owned(), handle: f.handle(), args })
    }

    /// `Call::new`, where the signature hash of `name` with `n_args`
    /// parameters fits in 32 bits; `None` where adding the parameter count
    /// would overflow it.
    pub fn try_new(db: &FunctionDb, name: &str, n_args: usize) -> (res: Option<Result<Call, FunctionError>>)
        requires
            db.wf(),
        ensures
            res is Some <==> hash_fits(name.spec_bytes(), n_args),
            res matches Some(r) ==> match lookup_signature(*db, name.spec_bytes(), n_args) {
                None => r == Err::<Call, FunctionError>(FunctionError::NotFound),
                Some(i) => if has_out_param(db.records@[i as int]) {
                    r == Err::<Call, FunctionError>(FunctionError::HasOutParams)
                } else {
                    r matches Ok(c) && c.describes(name@, db.records@[i as int])
                },
            },
    {
        if signature_hash_fits(name, n_args) {
            Some(Call::new(db, name, n_args))
        } else {
            None
        }
    }
}

/// A parameter of a query, with its type.
#[derive(Clone, Copy, Debug, PartialEq, Eq)]
pub enum Arg {
    In(ValueType),
    Out(ValueType),
}

impl Arg {
    pub open spec fn spec_ty(self) -> ValueType {
        match self {
            Arg::In(x) => x,
            Arg::Out(x) => x,
        }
    }

    /// The parameter's type, in or out.
    #[verifier::when_used_as_spec(spec_ty)]
    pub fn ty(self) -> (res: ValueType)
        ensures
            res == self.spec_ty(),
    {
        match self {
            Arg::In(x) => x,
            Arg::Out(x) => x,
        }
    }
}

/// A query: a function with at least one out parameter.
#[derive(Debug)]
pub struct Query {
    pub name: String,
    pub handle: u32,
    pub args: Vec<Arg>,
}

impl Query {
    /// This query is the function record `f` under the name `name`.
    pub open spec fn describes(&self, name: Seq<char>, f: FunctionRecord) -> bool {
        &&& self.name@ == name
        &&& self.handle == handle_of(f.key@)
        &&& self.args@.len() == f.signature.params.size
        &&& forall|k: int|
            0 <= k < self.args@.len() ==> #[trigger] self.args@[k] == if param_is_out(f, k) {
                Arg::Out(ValueType::spec_from(param_type(f, k)))
            } else {
                Arg::In(ValueType::spec_from(param_type(f, k)))
            }
    }

    /// A query has an out parameter; the first one receives the result.
    pub open spec fn wf(&self) -> bool {
        exists|k: int| 0 <= k < self.args@.len() && #[trigger] self.args@[k] is Out
    }

    /// The query `name` taking `n_args` parameters besides its result, if the
    /// database files it (with `n_args + 1` parameters) and it has an out
    /// parameter.
    pub fn new(db: &FunctionDb, name: &str, n_args: usize) -> (res: Result<Query, FunctionError>)
        requires
            db.wf(),
            n_args < usize::MAX,
            hash_fits(name.spec_bytes(), (n_args + 1) as usize),
        ensures
            match lookup_signature(*db, name.spec_bytes(), (n_args + 1) as usize) {
                None => res == Err::<Query, FunctionError>(FunctionError::NotFound),
                Some(i) => if !has_out_param(db.records@[i as int]) {
                    res == Err::<Query, FunctionError>(FunctionError::NoOutParams)
                } else {
                    res matches Ok(q) && q.describes(name@, db.records@[i as int]) && q.wf()
                },
            },
    {
        let n_args = n_args + 1;
        let key = signature_key(name, n_args);
        #[verifier::truncate]
        let n32: u32 = n_args as u32;
        let hash = function_name_hash(name.as_bytes()) + n32;
        let found = db.find(hash, &key.str);
        let i = match found {
            None => {
                return Err(FunctionError::NotFound);
            },
            Some(i) => *i,
        };
        let f = &db.records[i];
        let params = f.signature.params.iter();
        let mut args: Vec<Arg> = Vec::new();
        let mut any_out = false;
        let mut k: usize = 0;
        while k < params.len()
            invariant
                f.wf(),
                params@.len() == f.signature.params.size,
                forall|j: int| 0 <= j < params@.len() ==> *params@[j] == f.signature.params.nodes@[#[trigger] f.signature.params.item_nodes()[j]].item,
                k <= params@.len(),
                args@.len() == k,
                any_out == exists|j: int| 0 <= j < k && #[trigger] param_is_out(*f, j),
                forall|j: int|
                    0 <= j < k ==> #[trigger] args@[j] == if param_is_out(*f, j) {
                        Arg::Out(ValueType::spec_from(param_type(*f, j)))
                    } else {
                        Arg::In(ValueType::spec_from(param_type(*f, j)))
                    },
            decreases params@.len() - k,
        {
            let ty = ValueType::from(params[k].ty);
            if f.signature.out_param_list.is_out_param(k) {
                args.push(Arg::Out(ty));
                any_out = true;
            } else {
                args.push(Arg::In(ty));
            }
            proof {
                if param_is_out(*f, k as int) {
                    assert(param_is_out(*f, k as int));
                } else {
                    assert forall|j: int| 0 <= j < k + 1 && param_is_out(*f, j) implies 0 <= j < k by {}
                }
            }
            k = k + 1;
        }
        if !any_out {
            return Err(FunctionError::NoOutParams);
        }
        let q = Query { name: name.to_owned(), handle: f.handle(), args };
        proof {
            let j = choose|j: int| 0 <= j < params@.len() && #[trigger] param_is_out(*f, j);
            assert(q.args@[j] is Out);
        }
        Ok(q)
    }

    /// `Query::new`, where the signature hash of `name` with `n_args + 1`
    /// parameters fits in 32 bits; `None` where it would overflow.
    pub fn try_new(db: &FunctionDb, name: &str, n_args: usize) -> (res: Option<Result<Query, FunctionError>>)
        requires
            db.wf(),
            n_args < usize::MAX,
        ensures
            res is Some <==> hash_fits(name.spec_bytes(), (n_args + 1) as usize),
            res matches Some(r) ==> match lookup_signature(*db, name.spec_bytes(), (n_args + 1) as usize) {
                None => r == Err::<Query, FunctionError>(FunctionError::NotFound),
                Some(i) => if !has_out_param(db.records@[i as int]) {
                    r == Err::<Query, FunctionError>(FunctionError::NoOutParams)
                } else {
                    r matches Ok(q) && q.describes(name@, db.records@[i as int]) && q.wf()
                },
            },
    {
        if signature_hash_fits(name, n_args + 1) {
            Some(Query::new(db, name, n_args))
        } else {
            None
        }
    }
}

/// Whether the function `name` with `n` parameters is filed and is a call.
pub open spec fn call_found(db: FunctionDb, name: Seq<u8>, n: usize) -> bool {
    lookup_signature(db, name, n) matches Some(i) && !has_out_param(db.records@[i as int])
}

/// A function of the engine, as a call or a query.
#[derive(Debug)]
pub enum Function {
    Call(Call),
    Query(Query),
}

impl Function {
    /// The function `name` with `n_args` parameters: the call of that arity if
    /// there is one, otherwise the query taking `n_args` parameters besides its
    /// result.
    pub fn new(db: &FunctionDb, name: &str, n_args: usize) -> (res: Result<Function, FunctionError>)
        requires
            db.wf(),
            n_args < usize::MAX,
            hash_fits(name.spec_bytes(), n_args),
            hash_fits(name.spec_bytes(), (n_args + 1) as usize),
        ensures
            call_found(*db, name.spec_bytes(), n_args) ==> (res matches Ok(Function::Call(c)) && c.describes(
                name@,
                db.records@[lookup_signature(*db, name.spec_bytes(), n_args)->0 as int],
            )),
            !call_found(*db, name.spec_bytes(), n_args) ==> match lookup_signature(
                *db,
                name.spec_bytes(),
                (n_args + 1) as usize,
            ) {
                None => res == Err::<Function, FunctionError>(FunctionError::NotFound),
                Some(i) => if !has_out_param(db.records@[i as int]) {
                    res == Err::<Function, FunctionError>(FunctionError::NoOutParams)
                } else {
                    res matches Ok(Function::Query(q)) && q.describes(name@, db.records@[i as int]) && q.wf()
                },
            },
    {
        if let Ok(f) = Call::new(db, name, n_args) {
            return Ok(Function::Call(f));
        }
        match Query::new(db, name, n_args) {
            Ok(q) => Ok(Function::Query(q)),
            Err(e) => Err(e),
        }
    }

    /// `Function::new`, where the signature hashes of `name` with `n_args`
    /// and with `n_args + 1` parameters fit in 32 bits; `None` where either
    /// would overflow.
    pub fn try_new(db: &FunctionDb, name: &str, n_args: usize) -> (res: Option<Result<Function, FunctionError>>)
        requires
            db.wf(),
            n_args < usize::MAX,
        ensures
            res is Some <==> hash_fits(name.spec_bytes(), n_args) && hash_fits(
                name.spec_bytes(),
                (n_args + 1) as usize,
            ),
            res matches Some(r) ==> {
                &&& call_found(*db, name.spec_bytes(), n_args) ==> (r matches Ok(Function::Call(c)) && c.describes(
                    name@,
                    db.records@[lookup_signature(*db, name.spec_bytes(), n_args)->0 as int],
                ))
                &&& !call_found(*db, name.spec_bytes(), n_args) ==> match lookup_signature(
                    *db,
                    name.spec_bytes(),
                    (n_args + 1) as usize,
                ) {
                    None => r == Err::<Function, FunctionError>(FunctionError::NotFound),
                    Some(i) => if !has_out_param(db.records@[i as int]) {
                        r == Err::<Function, FunctionError>(FunctionError::NoOutParams)
                    } else {
                        r matches Ok(Function::Query(q)) && q.describes(name@, db.records@[i as int]) && q.wf()
                    },
                }
            },
    {
        if signature_hash_fits(name, n_args) && signature_hash_fits(name, n_args + 1) {
            Some(Function::new(db, name, n_args))
        } else {
            None
        }
    }
}

/// A number as a caller gave it: an integer, or the bits of an `f32`.
#[derive(Clone, Copy, Debug, PartialEq, Eq)]
pub enum Number {
    Int(i64),
    Float(u32),
}

/// A value handed to or received from an Osiris function.
#[derive(Clone, Debug)]
pub enum Value {
    /// No value.
    Nil,
    Int(i64),
    /// An `f32`, by its bits.
    Float(u32),
    /// Text, without a terminating nul.
    String(Vec<u8>),
}

/// An argument in the form the engine takes it. Where the parameter's type is
/// numeric and the value is of the other kind, the conversion through
/// floating point is named, not performed.
#[derive(Clone, Debug)]
pub enum ArgValue {
    /// The `None` type, without a value.
    NoneArg,
    /// The `Undefined` type, without a value.
    Undefined,
    /// A parameter of the given type with an empty payload.
    Null(ValueType),
    Int32(i32),
    Int64(i64),
    /// An `f32`, by its bits.
    Real(u32),
    /// An `f32` (by its bits) converted to `i32` with `as`.
    FloatAsInt32(u32),
    /// An `f32` (by its bits) converted to `i64` with `as`.
    FloatAsInt64(u32),
    /// An integer converted to `f32` with `as`.
    IntAsReal(i64),
    /// Text of one of the string-valued types.
    Text(ValueType, Vec<u8>),
}

/// The types whose values are passed as text.
pub open spec fn is_text_type(ty: ValueType) -> bool {
    ty is String || ty is GuidString || ty is Character || ty is Item || ty is ItemRoot
}

/// How each kind of value is passed for each parameter type (what `to_ffi`
/// gives, since it gives a value exactly when `accepts` holds and then one
/// that `passed_as` allows): a `None` or `Undefined` parameter takes any value
/// as itself; otherwise `None` is passed as an empty payload of the
/// parameter's type; an integer or a floating-point number goes to an
/// `Integer` (as `i32`), an `Integer64` or a `Real`, converted as needed; a
/// string goes as text of its type to a `String`, `GuidString`, `Character`,
/// `Item` or `ItemRoot`; every other pairing is refused.
pub proof fn lemma_argument_conversion(v: Value, ty: ValueType, out: ArgValue)
    ensures
        ty == ValueType::NoneType ==> v.accepts(ty) && (v.passed_as(ty, out) <==> out == ArgValue::NoneArg),
        ty == ValueType::Undefined ==> v.accepts(ty) && (v.passed_as(ty, out) <==> out == ArgValue::Undefined),
        ty != ValueType::NoneType && ty != ValueType::Undefined ==> {
            &&& v == Value::Nil ==> v.accepts(ty) && (v.passed_as(ty, out) <==> out == ArgValue::Null(ty))
            &&& v matches Value::Int(x) ==> {
                &&& ty == ValueType::Integer ==> v.accepts(ty) && (v.passed_as(ty, out) <==> out
                    == ArgValue::Int32(x as i32))
                &&& ty == ValueType::Integer64 ==> v.accepts(ty) && (v.passed_as(ty, out) <==> out
                    == ArgValue::Int64(x))
                &&& ty == ValueType::Real ==> v.accepts(ty) && (v.passed_as(ty, out) <==> out
                    == ArgValue::IntAsReal(x))
                &&& !(ty == ValueType::Integer || ty == ValueType::Integer64 || ty == ValueType::Real)
                    ==> !v.accepts(ty)
            }
            &&& v matches Value::Float(b) ==> {
                &&& ty == ValueType::Integer ==> v.accepts(ty) && (v.passed_as(ty, out) <==> out
                    == ArgValue::FloatAsInt32(b))
                &&& ty == ValueType::Integer64 ==> v.accepts(ty) && (v.passed_as(ty, out) <==> out
                    == ArgValue::FloatAsInt64(b))
                &&& ty == ValueType::Real ==> v.accepts(ty) && (v.passed_as(ty, out) <==> out
                    == ArgValue::Real(b))
                &&& !(ty == ValueType::Integer || ty == ValueType::Integer64 || ty == ValueType::Real)
                    ==> !v.accepts(ty)
            }
            &&& v matches Value::String(bytes) ==> {
                &&& (ty == ValueType::String || ty == ValueType::GuidString || ty == ValueType::Character || ty
                    == ValueType::Item || ty == ValueType::ItemRoot) ==> v.accepts(ty) && (v.passed_as(ty, out)
                    <==> (out matches ArgValue::Text(t, w) && t == ty && w@ == bytes@))
                &&& !(ty == ValueType::String || ty == ValueType::GuidString || ty == ValueType::Character
                    || ty == ValueType::Item || ty == ValueType::ItemRoot) ==> !v.accepts(ty)
            }
        },
{
}

impl Value {
    /// The name of the value's kind.
    pub open spec fn spec_type_str(&self) -> &'static str {
        match self {
            Value::Nil => "None",
            Value::Int(_) => "Integer",
            Value::Float(_) => "Real",
            Value::String(_) => "String",
        }
    }

    pub fn type_str(&self) -> (res: &'static str)
        ensures
            res == self.spec_type_str(),
    {
        match self {
            Value::Nil => "None",
            Value::Int(_) => "Integer",
            Value::Float(_) => "Real",
            Value::String(_) => "String",
        }
    }

    /// Whether the value can be passed for a parameter of type `ty`.
    pub open spec fn accepts(&self, ty: ValueType) -> bool {
        if ty is NoneType || ty is Undefined {
            true
        } else {
            match self {
                Value::Nil => true,
                Value::Int(_) => ty is Integer || ty is Integer64 || ty is Real,
                Value::Float(_) => ty is Integer || ty is Integer64 || ty is Real,
                Value::String(_) => is_text_type(ty),
            }
        }
    }

    /// `out` is this value passed for a parameter of type `ty` (which accepts it).
    pub open spec fn passed_as(&self, ty: ValueType, out: ArgValue) -> bool {
        if ty is NoneType {
            out is NoneArg
        } else if ty is Undefined {
            out is Undefined
        } else {
            match self {
                Value::Nil => out == ArgValue::Null(ty),
                Value::Int(x) => if ty is Integer {
                    out == ArgValue::Int32(*x as i32)
                } else if ty is Integer64 {
                    out == ArgValue::Int64(*x)
                } else {
                    out == ArgValue::IntAsReal(*x)
                },
                Value::Float(b) => if ty is Integer {
                    out == ArgValue::FloatAsInt32(*b)
                } else if ty is Integer64 {
                    out == ArgValue::FloatAsInt64(*b)
                } else {
                    out == ArgValue::Real(*b)
                },
                Value::String(v) => out matches ArgValue::Text(t, w) && t == ty && w@ == v@,
            }
        }
    }

    /// The value in the form the engine takes for a parameter of type `ty`, or
    /// `None` where the type does not take this kind of value.
    pub fn to_ffi(&self, ty: ValueType) -> (res: Option<ArgValue>)
        ensures
            res is Some <==> self.accepts(ty),
            res matches Some(a) ==> self.passed_as(ty, a),
    {
        match ty {
            ValueType::NoneType => {
                return Some(ArgValue::NoneArg);
            },
            ValueType::Undefined => {
                return Some(ArgValue::Undefined);
            },
            _ => {},
        }
        match self {
            Value::Nil => Some(ArgValue::Null(ty)),
            Value::Int(x) => match ty {
                ValueType::Integer => {
                    #[verifier::truncate]
                    let v: i32 = *x as i32;
                    Some(ArgValue::Int32(v))
                },
                ValueType::Integer64 => Some(ArgValue::Int64(*x)),
                ValueType::Real => Some(ArgValue::IntAsReal(*x)),
                _ => None,
            },
            Value::Float(b) => match ty {
                ValueType::Integer => Some(ArgValue::FloatAsInt32(*b)),
                ValueType::Integer64 => Some(ArgValue::FloatAsInt64(*b)),
                ValueType::Real => Some(ArgValue::Real(*b)),
                _ => None,
            },
            Value::String(v) => match ty {
                ValueType::String | ValueType::GuidString | ValueType::Character | ValueType::Item
                | ValueType::ItemRoot => Some(ArgValue::Text(ty, vstd::slice::slice_to_vec(v.as_slice()))),
                _ => None,
            },
        }
    }
}

/// Why arguments could not be passed to a function.
#[derive(Clone, Copy, Debug, PartialEq, Eq)]
pub enum ArgsError {
    /// The number of arguments differs from the number the function takes.
    Count { expected: usize, got: usize },
    /// The argument at `index` is of a kind its parameter does not take.
    ParamType { index: usize },
}

/// The arguments converted for the parameter types: `Ok` with each argument
/// passed as its type, or the first argument that its type does not take.
pub open spec fn converted(args: Seq<Value>, types: Seq<ValueType>, res: Result<Vec<ArgValue>, ArgsError>) -> bool {
    if forall|k: int| 0 <= k < args.len() ==> #[trigger] args[k].accepts(types[k]) {
        res matches Ok(out) && out@.len() == args.len() && forall|k: int|
            0 <= k < args.len() ==> #[trigger] args[k].passed_as(types[k], out@[k])
    } else {
        res matches Err(ArgsError::ParamType { index }) && index < args.len() && !args[index as int].accepts(
            types[index as int],
        ) && forall|k: int| 0 <= k < index ==> #[trigger] args[k].accepts(types[k])
    }
}

/// Converts each argument for the parameter of the same position.
fn convert_args(args: &[Value], types: &[ValueType]) -> (res: Result<Vec<ArgValue>, ArgsError>)
    requires
        args@.len() == types@.len(),
    ensures
        converted(args@, types@, res),
{
    let mut out: Vec<ArgValue> = Vec::new();
    let mut k: usize = 0;
    while k < args.len()
        invariant
            args@.len() == types@.len(),
            k <= args@.len(),
            out@.len() == k,
            forall|j: int| 0 <= j < k ==> #[trigger] args@[j].accepts(types@[j]),
            forall|j: int| 0 <= j < k ==> #[trigger] args@[j].passed_as(types@[j], out@[j]),
        decreases args@.len() - k,
    {
        match args[k].to_ffi(types[k]) {
            Some(a) => {
                out.push(a);
            },
            None => {
                return Err(ArgsError::ParamType { index: k });
            },
        }
        k = k + 1;
    }
    Ok(out)
}

impl Call {
    /// The arguments for this call in the engine's form; the number of
    /// arguments must match and each must suit its parameter.
    pub fn prepare(&self, args: &[Value]) -> (res: Result<Vec<ArgValue>, ArgsError>)
        ensures
            args@.len() != self.args@.len() ==> res == Err::<Vec<ArgValue>, ArgsError>(
                ArgsError::Count { expected: self.args@.len() as usize, got: args@.len() as usize },
            ),
            args@.len() == self.args@.len() ==> converted(args@, self.args@, res),
    {
        if self.args.len() != args.len() {
            return Err(ArgsError::Count { expected: self.args.len(), got: args.len() });
        }
        convert_args(args, self.args.as_slice())
    }
}

/// The index of the first out parameter.
pub open spec fn first_out(args: Seq<Arg>) -> int
    recommends
        exists|k: int| 0 <= k < args.len() && #[trigger] args[k] is Out,
{
    choose|k: int| 0 <= k < args.len() && args[k] is Out && forall|j: int| 0 <= j < k ==> !(#[trigger] args[j] is Out)
}

/// The arguments of a query with the slot for its result inserted.
pub open spec fn with_result_slot(args: Seq<Value>, slot: int) -> Seq<Value> {
    args.take(slot) + seq![Value::Nil] + args.skip(slot)
}

/// The types of a query's parameters.
pub open spec fn arg_types(args: Seq<Arg>) -> Seq<ValueType> {
    args.map_values(|a: Arg| a.spec_ty())
}

impl Query {
    /// The arguments for this query in the engine's form, with an empty value
    /// in the slot of its first out parameter, and that slot's index; the
    /// number of arguments must be one less than the number of parameters.
    pub fn prepare(&self, args: &[Value]) -> (res: Result<(Vec<ArgValue>, usize), ArgsError>)
        requires
            self.wf(),
        ensures
            args@.len() != self.args@.len() - 1 ==> res == Err::<(Vec<ArgValue>, usize), ArgsError>(
                ArgsError::Count { expected: (self.args@.len() - 1) as usize, got: args@.len() as usize },
            ),
            args@.len() == self.args@.len() - 1 ==> {
                let slot = first_out(self.args@);
                &&& converted(
                    with_result_slot(args@, slot),
                    arg_types(self.args@),
                    match res {
                        Ok((v, _)) => Ok(v),
                        Err(e) => Err(e),
                    },
                )
                &&& (res matches Ok((_, r)) ==> r == slot)
            },
    {
        if self.args.len() - 1 != args.len() {
            return Err(ArgsError::Count { expected: self.args.len() - 1, got: args.len() });
        }
        let mut slot: usize = 0;
        while slot < self.args.len() && !matches!(self.args[slot], Arg::Out(_))
            invariant
                self.wf(),
                slot <= self.args@.len(),
                forall|j: int| 0 <= j < slot ==> !(#[trigger] self.args@[j] is Out),
            decreases self.args@.len() - slot,
        {
            slot = slot + 1;
        }
        proof {
            if slot == self.args@.len() {
                let k = choose|k: int| 0 <= k < self.args@.len() && #[trigger] self.args@[k] is Out;
                assert(false);
            }
            let fo = first_out(self.args@);
            assert(0 <= fo < self.args@.len() && self.args@[fo] is Out);
            if fo < slot {
                assert(!(self.args@[fo] is Out));
            }
            if slot < fo {
                assert(self.args@[slot as int] is Out);
            }
        }
        let mut types: Vec<ValueType> = Vec::new();
        let mut k: usize = 0;
        while k < self.args.len()
            invariant
                k <= self.args@.len(),
                types@ == arg_types(self.args@).take(k as int),
            decreases self.args@.len() - k,
        {
            types.push(self.args[k].ty());
            k = k + 1;
            assert(types@ =~= arg_types(self.args@).take(k as int));
        }
        assert(types@ =~= arg_types(self.args@));
        let ghost full = with_result_slot(args@, slot as int);
        let nil = Value::Nil;
        let mut out: Vec<ArgValue> = Vec::new();
        let mut k: usize = 0;
        while k < types.len()
            invariant
                types@.len() == args@.len() + 1,
                args@.len() == self.args@.len() - 1,
                slot == first_out(self.args@),
                types@ == arg_types(self.args@),
                full == with_result_slot(args@, slot as int),
                slot < types@.len(),
                full.len() == types@.len(),
                nil == Value::Nil,
                k <= types@.len(),
                out@.len() == k,
                forall|j: int| 0 <= j < k ==> #[trigger] full[j].accepts(types@[j]),
                forall|j: int| 0 <= j < k ==> #[trigger] full[j].passed_as(types@[j], out@[j]),
            decreases types@.len() - k,
        {
            let v: &Value = if k < slot {
                &args[k]
            } else if k == slot {
                &nil
            } else {
                &args[k - 1]
            };
            assert(*v == full[k as int]);
            match v.to_ffi(types[k]) {
                Some(a) => {
                    out.push(a);
                },
                None => {
                    return Err(ArgsError::ParamType { index: k });
                },
            }
            k = k + 1;
        }
        Ok((out, slot))
    }
}

/// `call` for a call, `query` for a query.
pub open spec fn kind_word(call: bool) -> Seq<char> {
    if call {
        "call"@
    } else {
        "query"@
    }
}

/// The message for a lookup of `name` with `n` arguments, as a call or as a
/// query, that failed.
pub open spec fn function_error_text(e: FunctionError, name: Seq<char>, n: nat, call: bool) -> Seq<char> {
    match e {
        FunctionError::NotFound => "unable to find "@ + kind_word(call) + " '"@ + name + "' with "@
            + decimal_chars(n) + " arguments"@,
        FunctionError::HasOutParams => name + ": the function has out parameters, so this should be a query"@,
        FunctionError::NoOutParams => name + ": the function has no out parameters, so this should be a call"@,
    }
}

impl FunctionError {
    /// The message shown for a failed lookup of `name` with `n_args`
    /// arguments, as a call (`call`) or as a query.
    pub fn message(&self, name: &str, n_args: usize, call: bool) -> (res: String)
        ensures
            res@ == function_error_text(*self, name@, n_args as nat, call),
    {
        let mut s = String::new();
        match self {
            FunctionError::NotFound => {
                push_text(&mut s, "unable to find ");
                push_text(&mut s, if call { "call" } else { "query" });
                push_text(&mut s, " '");
                push_text(&mut s, name);
                push_text(&mut s, "' with ");
                crate::text::push_decimal(&mut s, n_args as u64);
                push_text(&mut s, " arguments");
            },
            FunctionError::HasOutParams => {
                push_text(&mut s, name);
                push_text(&mut s, ": the function has out parameters, so this should be a query");
            },
            FunctionError::NoOutParams => {
                push_text(&mut s, name);
                push_text(&mut s, ": the function has no out parameters, so this should be a call");
            },
        }
        s
    }
}

/// The message for arguments that the call or query `name` refused; for a
/// refused argument, `expected` is its parameter's type, `provided` the
/// argument and `shown` the argument as the console shows values.
pub open spec fn args_error_text(
    e: ArgsError,
    name: Seq<char>,
    call: bool,
    expected: ValueType,
    provided: Value,
    shown: Seq<char>,
) -> Seq<char> {
    match e {
        ArgsError::Count { expected: n, got } => kind_word(call) + " "@ + name
            + ": incorrect number of arguments supplied: expected "@ + decimal_chars(n as nat) + ", got "@
            + decimal_chars(got as nat),
        ArgsError::ParamType { index } => kind_word(call) + " "@ + name + ": incorrect function parameter type "@
            + decimal_chars(index as nat) + ": expected "@ + expected.spec_name()@ + ", got "@
            + provided.spec_type_str()@ + " ("@ + shown + ")"@,
    }
}

impl ArgsError {
    /// The message shown for arguments that the call (`call`) or query
    /// `name` refused; for a refused argument, `expected` is its parameter's
    /// type, `provided` the argument and `shown` the argument as the console
    /// shows values.
    pub fn message(&self, name: &str, call: bool, expected: ValueType, provided: &Value, shown: &str) -> (res:
        String)
        ensures
            res@ == args_error_text(*self, name@, call, expected, *provided, shown@),
    {
        let mut s = String::new();
        push_text(&mut s, if call { "call" } else { "query" });
        push_text(&mut s, " ");
        push_text(&mut s, name);
        match self {
            ArgsError::Count { expected: n, got } => {
                push_text(&mut s, ": incorrect number of arguments supplied: expected ");
                crate::text::push_decimal(&mut s, *n as u64);
                push_text(&mut s, ", got ");
                crate::text::push_decimal(&mut s, *got as u64);
            },
            ArgsError::ParamType { index } => {
                push_text(&mut s, ": incorrect function parameter type ");
                crate::text::push_decimal(&mut s, *index as u64);
                push_text(&mut s, ": expected ");
                push_text(&mut s, expected.name());
                push_text(&mut s, ", got ");
                push_text(&mut s, provided.type_str());
                push_text(&mut s, " (");
                push_text(&mut s, shown);
                push_text(&mut s, ")");
            },
        }
        s
    }
}

/// The argument list the engine receives, first argument first.
#[derive(Debug)]
pub struct OsiArgumentDesc {
    pub values: Vec<ArgValue>,
}

impl OsiArgumentDesc {
    /// A list of one value.
    pub fn new(value: ArgValue) -> (res: OsiArgumentDesc)
        ensures
            res.values@ == seq![value],
    {
        let mut values: Vec<ArgValue> = Vec::new();
        values.push(value);
        OsiArgumentDesc { values }
    }

    /// The list with `value` put in front.
    pub fn prepend(self, value: ArgValue) -> (res: OsiArgumentDesc)
        ensures
            res.values@ == seq![value] + self.values@,
    {
        let mut values = self.values;
        values.insert(0, value);
        OsiArgumentDesc { values }
    }

    /// The list of the arguments in order; an empty argument list is passed as
    /// a single `Undefined` value, since the engine's list always holds one.
    pub fn from_values(values: Vec<ArgValue>) -> (res: OsiArgumentDesc)
        ensures
            values@.len() == 0 ==> res.values@ == seq![ArgValue::Undefined],
            values@.len() > 0 ==> res.values@ == values@,
    {
        if values.len() == 0 {
            OsiArgumentDesc::new(ArgValue::Undefined)
        } else {
            OsiArgumentDesc { values }
        }
    }
}

impl Call {
    /// The argument list this call hands the engine: the arguments converted
    /// for their parameters, or a single `Undefined` value for a call without
    /// parameters.
    pub fn argument_list(&self, args: &[Value]) -> (res: Result<OsiArgumentDesc, ArgsError>)
        ensures
            args@.len() != self.args@.len() ==> res == Err::<OsiArgumentDesc, ArgsError>(
                ArgsError::Count { expected: self.args@.len() as usize, got: args@.len() as usize },
            ),
            (args@.len() == self.args@.len() && args@.len() == 0) ==> (res matches Ok(d) && d.values@
                == seq![ArgValue::Undefined]),
            args@.len() == self.args@.len() && args@.len() > 0 ==> converted(
                args@,
                self.args@,
                match res {
                    Ok(d) => Ok(d.values),
                    Err(e) => Err(e),
                },
            ),
    {
        match self.prepare(args) {
            Ok(values) => Ok(OsiArgumentDesc::from_values(values)),
            Err(e) => Err(e),
        }
    }
}

impl Query {
    /// The argument list this query hands the engine, with the empty value in
    /// the slot of its first out parameter, and that slot's index.
    pub fn argument_list(&self, args: &[Value]) -> (res: Result<(OsiArgumentDesc, usize), ArgsError>)
        requires
            self.wf(),
        ensures
            args@.len() != self.args@.len() - 1 ==> res == Err::<(OsiArgumentDesc, usize), ArgsError>(
                ArgsError::Count { expected: (self.args@.len() - 1) as usize, got: args@.len() as usize },
            ),
            args@.len() == self.args@.len() - 1 ==> {
                let slot = first_out(self.args@);
                &&& converted(
                    with_result_slot(args@, slot),
                    arg_types(self.args@),
                    match res {
                        Ok((d, _)) => Ok(d.values),
                        Err(e) => Err(e),
                    },
                )
                &&& (res matches Ok((_, r)) ==> r == slot)
            },
    {
        match self.prepare(args) {
            Ok((values, slot)) => {
                let d = OsiArgumentDesc::from_values(values);
                Ok((d, slot))
            },
            Err(e) => Err(e),
        }
    }
}

} // verus!
