use bg3_debug_tool::osiris::{
    FuncSigOutParamList, Function, FunctionDb, FunctionIdHash, FunctionParamDesc, FunctionSignature,
    FunctionType, HashSlot, List, ListNode, OsiStr, OsiString, TMap, TMapNode,
};
use bg3_debug_tool::osiris_call::{
    function_name_hash, Arg, ArgValue, ArgsError, Call, Function as OsiFunction, FunctionError, OsiArgumentDesc, Query,
    Value,
};
use bg3_debug_tool::value_type::ValueType;

fn empty_str() -> OsiStr {
    OsiString::from_bytes(b"").str
}

fn map_with<K, V>(sentinel_key: K, sentinel_value: V, entries: Vec<(K, V)>) -> TMap<K, V> {
    // A right-leaning chain of nodes in key order under the sentinel.
    let n = entries.len();
    let mut nodes = vec![TMapNode {
        left: 0,
        root: if n > 0 { 1 } else { 0 },
        right: 0,
        color: false,
        is_root: true,
        key: sentinel_key,
        value: sentinel_value,
    }];
    for (i, (key, value)) in entries.into_iter().enumerate() {
        let right = if i + 1 < n { i + 2 } else { 0 };
        nodes.push(TMapNode { left: 0, root: 0, right, color: false, is_root: false, key, value });
    }
    TMap { nodes, root: 0 }
}

fn param_list(types: &[u16]) -> List<FunctionParamDesc> {
    let n = types.len();
    let mut nodes = vec![ListNode { next: if n > 0 { 1 } else { 0 }, head: 0, item: FunctionParamDesc { ty: 0, unknown: 0 } }];
    for (i, t) in types.iter().enumerate() {
        let next = if i + 1 < n { i + 2 } else { 0 };
        nodes.push(ListNode { next, head: 0, item: FunctionParamDesc { ty: *t, unknown: 0 } });
    }
    List { nodes, head: 0, size: n as u64 }
}

fn record(types: &[u16], out_bits: Vec<u8>, ty: FunctionType, key: [u32; 4]) -> Function {
    let count = out_bits.len() as u32;
    Function {
        line: 0,
        signature: FunctionSignature {
            params: param_list(types),
            out_param_list: FuncSigOutParamList { params: out_bits, count },
        },
        ty,
        key,
        osi_function_id: key[2],
    }
}

fn bucket_of(name: &str, n: usize) -> usize {
    ((function_name_hash(name.as_bytes()) + n as u32) % 0x3FF) as usize
}

/// A database with `AddGold/2` (a call), `GetHost/1` (a query with its result
/// first) and `Odd/1` (a call filed with an out parameter).
fn sample_db() -> FunctionDb {
    let mut buckets: Vec<Vec<(OsiStr, usize)>> = (0..1023).map(|_| Vec::new()).collect();
    let entries = [("AddGold", 2usize, 0usize), ("GetHost", 1, 1), ("Odd", 1, 2)];
    for (name, n, i) in entries {
        let key = OsiString::from_bytes(format!("{name}/{n}").as_bytes()).str;
        buckets[bucket_of(name, n)].push((key, i));
    }
    for b in buckets.iter_mut() {
        b.sort_by(|x, y| x.0.as_cstr().cmp(y.0.as_cstr()));
    }
    let hash = buckets.into_iter().map(|e| HashSlot { node_map: map_with(empty_str(), 0, e) }).collect();
    let function_id_hash = (0..1023).map(|_| FunctionIdHash { node_map: map_with(0u32, 0, vec![]) }).collect();
    FunctionDb {
        hash,
        num_items: 3,
        function_id_hash,
        all_function_ids: map_with(0u32, 0u32, vec![]),
        records: vec![
            record(&[6, 1], vec![0x00], FunctionType::Call, [3, 0, 5, 1]),
            record(&[6], vec![0x80], FunctionType::Query, [2, 0, 7, 0]),
            record(&[1], vec![0x80], FunctionType::Call, [3, 0, 9, 0]),
        ],
    }
}

#[test]
fn name_hash_ignores_case_and_stops_at_nul() {
    assert_eq!(function_name_hash(b""), 0);
    assert_eq!(function_name_hash(b"a"), 97);
    assert_eq!(function_name_hash(b"ab"), 98 + 129 * 97);
    assert_eq!(function_name_hash(b"AB"), function_name_hash(b"ab"));
    assert_eq!(function_name_hash(b"ab\0cd"), function_name_hash(b"ab"));
}

#[test]
fn function_handles_pack_the_key() {
    let f = record(&[], vec![], FunctionType::Call, [3, 0, 5, 1]);
    assert_eq!(f.handle(), 0x8000_0000 | (5 << 3) | 3);
    let g = record(&[], vec![], FunctionType::Database, [4, 0x1AB, 0x2_0001, 0]);
    assert_eq!(g.handle(), 4 | (1 << 3) | (0xAB << 20));
}

#[test]
fn function_kinds_have_display_names() {
    assert_eq!(FunctionType::Proc.display_name(), "Procedure");
    assert_eq!(FunctionType::SysQuery.display_name(), "System Query");
    assert_eq!(FunctionType::Event.display_name(), "Event");
}

#[test]
fn lists_walk_from_the_head() {
    let l = param_list(&[4, 5, 6]);
    let items: Vec<u16> = l.iter().into_iter().map(|p| p.ty).collect();
    assert_eq!(items, vec![4, 5, 6]);
    assert!(param_list(&[]).iter().is_empty());
}

#[test]
fn out_parameter_bitmaps() {
    let l = FuncSigOutParamList { params: vec![0b1010_0000, 0b0000_0001], count: 2 };
    assert_eq!(l.num_out_params(), 3);
    assert!(l.is_out_param(0));
    assert!(!l.is_out_param(1));
    assert!(l.is_out_param(2));
    assert!(l.is_out_param(15));
    assert!(!l.is_out_param(14));
}

#[test]
fn engine_strings_inline_or_heap() {
    let short = OsiString::from_bytes(b"abc");
    assert_eq!(short.str.capacity, 15);
    assert_eq!(short.str.buf.len(), 16);
    assert!(!short.str.is_large_mode());
    assert_eq!(short.str.as_cstr(), b"abc");
    assert_eq!(short.str.as_str(), "abc");
    let long = OsiString::from_bytes(b"0123456789abcdefXYZ");
    assert_eq!(long.str.capacity, 19);
    assert!(long.str.is_large_mode());
    assert_eq!(long.str.buf.last(), Some(&0));
    assert_eq!(long.str.as_str(), "0123456789abcdefXYZ");
}

#[test]
fn tree_maps_find_keys() {
    let m = map_with(0u32, "", vec![(3u32, "c"), (7, "g"), (9, "i")]);
    assert_eq!(m.find(&7), Some(&"g"));
    assert_eq!(m.find(&3), Some(&"c"));
    assert_eq!(m.find(&8), None);
    assert_eq!(m.find(&10), None);
    let keys: Vec<u32> = m.iter().into_iter().map(|n| n.key).collect();
    assert_eq!(keys, vec![3, 7, 9]);
}

#[test]
fn database_finds_by_name() {
    let db = sample_db();
    let h = function_name_hash(b"AddGold") + 2;
    assert_eq!(db.find(h, &OsiString::from_bytes(b"AddGold/2").str), Some(&0));
    assert_eq!(db.find(h, &OsiString::from_bytes(b"AddGold/3").str), None);
}

#[test]
fn calls_are_found_by_name_and_arity() {
    let db = sample_db();
    let c = Call::new(&db, "AddGold", 2).unwrap();
    assert_eq!(c.name, "AddGold");
    assert_eq!(c.handle, 0x8000_0000 | (5 << 3) | 3);
    assert_eq!(c.args, vec![ValueType::Character, ValueType::Integer]);
    assert_eq!(Call::new(&db, "AddGold", 3).unwrap_err(), FunctionError::NotFound);
    assert_eq!(Call::new(&db, "Odd", 1).unwrap_err(), FunctionError::HasOutParams);
}

#[test]
fn queries_count_their_result() {
    let db = sample_db();
    let q = Query::new(&db, "GetHost", 0).unwrap();
    assert_eq!(q.args, vec![Arg::Out(ValueType::Character)]);
    assert_eq!(q.args[0].ty(), ValueType::Character);
    assert_eq!(Query::new(&db, "AddGold", 1).unwrap_err(), FunctionError::NoOutParams);
    assert_eq!(Query::new(&db, "Missing", 0).unwrap_err(), FunctionError::NotFound);
}

#[test]
fn functions_prefer_calls() {
    let db = sample_db();
    assert!(matches!(OsiFunction::new(&db, "AddGold", 2), Ok(OsiFunction::Call(_))));
    assert!(matches!(OsiFunction::new(&db, "GetHost", 0), Ok(OsiFunction::Query(_))));
    assert!(matches!(OsiFunction::new(&db, "Odd", 1), Err(FunctionError::NotFound)));
}

#[test]
fn values_convert_for_parameter_types() {
    assert!(matches!(Value::Int(5).to_ffi(ValueType::Integer), Some(ArgValue::Int32(5))));
    assert!(matches!(Value::Int(1 << 33).to_ffi(ValueType::Integer), Some(ArgValue::Int32(0))));
    assert!(matches!(Value::Int(-2).to_ffi(ValueType::Integer64), Some(ArgValue::Int64(-2))));
    assert!(matches!(Value::Int(3).to_ffi(ValueType::Real), Some(ArgValue::IntAsReal(3))));
    let bits = 1.5f32.to_bits();
    assert!(matches!(Value::Float(bits).to_ffi(ValueType::Real), Some(ArgValue::Real(b)) if b == bits));
    assert!(matches!(Value::Float(bits).to_ffi(ValueType::Integer), Some(ArgValue::FloatAsInt32(b)) if b == bits));
    assert!(matches!(Value::Nil.to_ffi(ValueType::Character), Some(ArgValue::Null(ValueType::Character))));
    assert!(matches!(Value::Int(1).to_ffi(ValueType::NoneType), Some(ArgValue::NoneArg)));
    assert!(matches!(Value::Int(1).to_ffi(ValueType::Undefined), Some(ArgValue::Undefined)));
    match Value::String(b"abc".to_vec()).to_ffi(ValueType::GuidString) {
        Some(ArgValue::Text(t, s)) => {
            assert_eq!(t, ValueType::GuidString);
            assert_eq!(s, b"abc".to_vec());
        }
        other => panic!("unexpected {:?}", other),
    }
    assert!(Value::String(b"abc".to_vec()).to_ffi(ValueType::Integer).is_none());
    assert!(Value::Int(1).to_ffi(ValueType::String).is_none());
    assert!(Value::Int(1).to_ffi(ValueType::Flag).is_none());
}

#[test]
fn value_kind_names() {
    assert_eq!(Value::Nil.type_str(), "None");
    assert_eq!(Value::Int(0).type_str(), "Integer");
    assert_eq!(Value::Float(0).type_str(), "Real");
    assert_eq!(Value::String(vec![]).type_str(), "String");
}

#[test]
fn call_arguments_are_checked() {
    let db = sample_db();
    let c = Call::new(&db, "AddGold", 2).unwrap();
    assert_eq!(c.prepare(&[Value::Int(1)]).unwrap_err(), ArgsError::Count { expected: 2, got: 1 });
    assert_eq!(
        c.prepare(&[Value::String(b"x".to_vec()), Value::String(b"y".to_vec())]).unwrap_err(),
        ArgsError::ParamType { index: 1 }
    );
    let v = c.prepare(&[Value::String(b"hero".to_vec()), Value::Int(100)]).unwrap();
    assert_eq!(v.len(), 2);
    assert!(matches!(v[0], ArgValue::Text(ValueType::Character, ref s) if s == b"hero"));
    assert!(matches!(v[1], ArgValue::Int32(100)));
}

#[test]
fn query_arguments_get_a_result_slot() {
    let q = Query {
        name: "Q".to_string(),
        handle: 1,
        args: vec![Arg::In(ValueType::Integer), Arg::Out(ValueType::String), Arg::In(ValueType::Integer64)],
    };
    let (v, slot) = q.prepare(&[Value::Int(1), Value::Int(2)]).unwrap();
    assert_eq!(slot, 1);
    assert!(matches!(v[0], ArgValue::Int32(1)));
    assert!(matches!(v[1], ArgValue::Null(ValueType::String)));
    assert!(matches!(v[2], ArgValue::Int64(2)));
    assert_eq!(q.prepare(&[Value::Int(1)]).unwrap_err(), ArgsError::Count { expected: 2, got: 1 });
    assert_eq!(
        q.prepare(&[Value::Int(1), Value::String(vec![])]).unwrap_err(),
        ArgsError::ParamType { index: 2 }
    );
}

#[test]
fn database_lists_its_functions_by_bucket() {
    let db = sample_db();
    let listed = db.functions();
    assert_eq!(listed.len(), 3);
    let mut buckets: Vec<(usize, String)> = [("AddGold", 2usize), ("GetHost", 1), ("Odd", 1)]
        .iter()
        .map(|(name, n)| (bucket_of(name, *n), format!("{name}/{n}")))
        .collect();
    buckets.sort();
    let names: Vec<String> =
        listed.iter().map(|(name, _)| String::from_utf8(name.as_cstr().to_vec()).unwrap()).collect();
    let expected: Vec<String> = buckets.into_iter().map(|(_, n)| n).collect();
    assert_eq!(names, expected);
    for (name, f) in listed {
        let text = String::from_utf8(name.as_cstr().to_vec()).unwrap();
        let want = match text.as_str() {
            "AddGold/2" => FunctionType::Call,
            "GetHost/1" => FunctionType::Query,
            _ => FunctionType::Call,
        };
        assert_eq!(f.ty, want);
    }
}

#[test]
fn lookup_and_argument_messages() {
    assert_eq!(FunctionError::NotFound.message("AddGold", 2, true), "unable to find call 'AddGold' with 2 arguments");
    assert_eq!(FunctionError::NotFound.message("GetHost", 0, false), "unable to find query 'GetHost' with 0 arguments");
    assert_eq!(
        FunctionError::HasOutParams.message("Odd", 1, true),
        "Odd: the function has out parameters, so this should be a query"
    );
    assert_eq!(
        FunctionError::NoOutParams.message("AddGold", 2, false),
        "AddGold: the function has no out parameters, so this should be a call"
    );
    let count = ArgsError::Count { expected: 2, got: 3 };
    assert_eq!(
        count.message("AddGold", true, ValueType::Integer, &Value::Nil, "None"),
        "call AddGold: incorrect number of arguments supplied: expected 2, got 3"
    );
    let wrong = ArgsError::ParamType { index: 1 };
    assert_eq!(
        wrong.message("AddGold", true, ValueType::Integer, &Value::String(b"x".to_vec()), "x"),
        "call AddGold: incorrect function parameter type 1: expected Integer, got String (x)"
    );
    assert_eq!(
        wrong.message("GetHost", false, ValueType::GuidString, &Value::Int(5), "5"),
        "query GetHost: incorrect function parameter type 1: expected GuidString, got Integer (5)"
    );
}

#[test]
fn engine_argument_lists_are_never_empty() {
    let empty = OsiArgumentDesc::from_values(vec![]);
    assert_eq!(empty.values.len(), 1);
    assert!(matches!(empty.values[0], ArgValue::Undefined));
    let two = OsiArgumentDesc::from_values(vec![ArgValue::Int32(1), ArgValue::Int64(2)]);
    assert!(matches!(two.values[..], [ArgValue::Int32(1), ArgValue::Int64(2)]));
    let three = two.prepend(ArgValue::NoneArg);
    assert!(matches!(three.values[..], [ArgValue::NoneArg, ArgValue::Int32(1), ArgValue::Int64(2)]));
    assert!(matches!(OsiArgumentDesc::new(ArgValue::Int32(7)).values[..], [ArgValue::Int32(7)]));
}

#[test]
fn search_tree_finds_every_stored_key_and_walks_each_node_once() {
    // sentinel 0; top 10 at node 1, with 5 (node 2) on its left and 20 (node 3) on its right.
    let node = |left, right, key: u32, value: u32| TMapNode { left, root: 0, right, color: false, is_root: false, key, value };
    let nodes = vec![
        TMapNode { left: 0, root: 1, right: 0, color: false, is_root: true, key: 0u32, value: 0u32 },
        node(2, 3, 10, 100),
        node(0, 0, 5, 50),
        node(0, 0, 20, 200),
    ];
    let map = TMap { nodes, root: 0 };
    assert_eq!(map.find(&10), Some(&100));
    assert_eq!(map.find(&5), Some(&50));
    assert_eq!(map.find(&20), Some(&200));
    assert_eq!(map.find(&0), None);
    assert_eq!(map.find(&7), None);
    assert_eq!(map.find(&15), None);
    assert_eq!(map.find(&25), None);
    let keys: Vec<u32> = map.iter().iter().map(|n| n.key).collect();
    assert_eq!(keys, vec![10, 5, 20]);
}

#[test]
fn checked_constructors_refuse_overflowing_hashes() {
    let db = sample_db();
    let c = Call::try_new(&db, "AddGold", 2).unwrap().unwrap();
    assert_eq!(c.name, "AddGold");
    assert_eq!(Call::try_new(&db, "AddGold", 3).unwrap().unwrap_err(), FunctionError::NotFound);
    assert!(Call::try_new(&db, "AddGold", u32::MAX as usize).is_none());
    assert!(Query::try_new(&db, "GetHost", 0).unwrap().is_ok());
    assert!(Query::try_new(&db, "GetHost", u32::MAX as usize - 1).is_none());
    assert!(bg3_debug_tool::osiris_call::signature_hash_fits("", u32::MAX as usize));
    assert!(matches!(OsiFunction::try_new(&db, "AddGold", 2), Some(Ok(OsiFunction::Call(_)))));
    assert!(matches!(OsiFunction::try_new(&db, "GetHost", 0), Some(Ok(OsiFunction::Query(_)))));
    assert!(OsiFunction::try_new(&db, "AddGold", u32::MAX as usize).is_none());
}

#[test]
fn engine_argument_lists_of_calls_and_queries() {
    let none = Call { name: "Ping".to_string(), handle: 7, args: vec![] };
    let list = none.argument_list(&[]).unwrap();
    assert_eq!(list.values.len(), 1);
    assert!(matches!(list.values[0], ArgValue::Undefined));
    assert_eq!(none.argument_list(&[Value::Int(1)]).unwrap_err(), ArgsError::Count { expected: 0, got: 1 });

    let one = Call { name: "Set".to_string(), handle: 8, args: vec![ValueType::Integer] };
    let list = one.argument_list(&[Value::Int(5)]).unwrap();
    assert_eq!(list.values.len(), 1);
    assert!(matches!(list.values[0], ArgValue::Int32(5)));

    let q = Query { name: "Q".to_string(), handle: 1, args: vec![Arg::Out(ValueType::Integer)] };
    let (list, slot) = q.argument_list(&[]).unwrap();
    assert_eq!(slot, 0);
    assert_eq!(list.values.len(), 1);
    assert!(matches!(list.values[0], ArgValue::Null(ValueType::Integer)));
}
