use bg3_debug_tool::collections::{
    Guid as GameGuid, MapInternals, MapNode, MultiHashMap, MultiHashSet, RefMapInternals,
};
use bg3_debug_tool::function_search::{Function, FunctionCategory};
use bg3_debug_tool::osiris::{
    FuncSigOutParamList, Function as FunctionRecord, FunctionParamDesc, FunctionSignature, FunctionType, List,
    ListNode, OsiString,
};
use bg3_debug_tool::shims::{
    lua::{CallWithTraceback, DoConsoleCommandEvent},
    lua_tostring, luaL_loadstring, static_symbols, Config, CoreLibPlatformInterface, Debugger, EnumInfo, Extender,
    LuaVirtualPin, Todo,
};
use bg3_debug_tool::table::{
    search_rows, slice_order, sorted_rows, SearchOptions, TableColumn, TableOrd, TableOrder, TablePage,
};
use bg3_debug_tool::text::trim_end;
use bg3_debug_tool::value_type::ValueType;

fn record(types: &[u16], out_bits: Vec<u8>) -> FunctionRecord {
    let n = types.len();
    let mut nodes = vec![ListNode { next: if n > 0 { 1 } else { 0 }, head: 0, item: FunctionParamDesc { ty: 0, unknown: 0 } }];
    for (i, t) in types.iter().enumerate() {
        nodes.push(ListNode { next: if i + 1 < n { i + 2 } else { 0 }, head: 0, item: FunctionParamDesc { ty: *t, unknown: 0 } });
    }
    let count = out_bits.len() as u32;
    FunctionRecord {
        line: 0,
        signature: FunctionSignature {
            params: List { nodes, head: 0, size: n as u64 },
            out_param_list: FuncSigOutParamList { params: out_bits, count },
        },
        ty: FunctionType::Query,
        key: [2, 0, 1, 0],
        osi_function_id: 1,
    }
}

#[test]
fn function_rows_show_signatures() {
    let name = OsiString::from_bytes(b"QRY_Find/3");
    let f = Function::new(&name.str, &record(&[4, 1, 6], vec![0b0110_0000]));
    assert_eq!(f.name, "QRY_Find");
    assert_eq!(f.ty, FunctionType::Query);
    assert_eq!(f.ret_type.as_deref(), Some("Integer"));
    assert_eq!(f.args, vec!["String".to_string(), "OUT Character".to_string()]);
    assert_eq!(f.signature(), "QRY_Find(String, OUT Character) -> Integer");
    let call = Function::new(&OsiString::from_bytes(b"a/b/0").str, &record(&[], vec![]));
    assert_eq!(call.name, "a/b");
    assert_eq!(call.signature(), "a/b()");
}

#[test]
fn function_rows_columns_and_fields() {
    let f = Function::new(&OsiString::from_bytes(b"QRY_Find/3").str, &record(&[4, 1, 6], vec![0b0110_0000]));
    let cols = Function::columns();
    assert_eq!(cols.len(), 2);
    assert_eq!(cols[0].name, "Signature");
    assert_eq!(cols[1].name, "Type");
    assert_eq!(f.column_text(0), "QRY_Find(String, OUT Character) -> Integer");
    assert_eq!(f.column_text(1), "Query");
    assert_eq!(f.sort_key(0), "QRY_Find");
    assert_eq!(f.sort_key(1), "Query");
    let fields: Vec<(String, String)> = f.fields();
    let expected: Vec<(String, String)> = [
        ("Signature", "QRY_Find(String, OUT Character) -> Integer"),
        ("Type", "Query"),
        ("Arg 0", "String"),
        ("Arg 1", "OUT Character"),
        ("Return Type", "Integer"),
    ]
    .iter()
    .map(|(a, b)| (a.to_string(), b.to_string()))
    .collect();
    assert_eq!(fields, expected);
    let keys: Vec<String> = ["b", "a"].iter().map(|n| {
        Function::new(&OsiString::from_bytes(format!("{n}/0").as_bytes()).str, &record(&[], vec![])).sort_key(0)
    }).collect();
    assert_eq!(sorted_rows(&keys, false), vec![1, 0]);
}

#[test]
fn function_rows_filter_by_kind() {
    let f = Function::new(&OsiString::from_bytes(b"E/0").str, &record(&[], vec![]));
    let mut cat = FunctionCategory::default();
    assert!(cat.filter(&f));
    cat.incl_query = false;
    assert!(!cat.filter(&f));
}

fn row(cells: &[&str]) -> Vec<String> {
    cells.iter().map(|s| s.to_string()).collect()
}

#[test]
fn table_search_looks_at_searchable_columns() {
    let columns = vec![TableColumn::new("Name", true, true), TableColumn::new("Id", true, false)];
    assert_eq!(columns[0].name, "Name");
    let rows = vec![row(&["Fire Bolt", "fire-1"]), row(&["Ice Knife", "FIRE-2"]), row(&["FIREBALL", "x"])];
    let all = vec![true, true, true];
    assert_eq!(search_rows(&rows, &all, &columns, "fire", SearchOptions { case_sensitive: true }), Vec::<usize>::new());
    assert_eq!(search_rows(&rows, &all, &columns, "Fire", SearchOptions { case_sensitive: true }), vec![0]);
    assert_eq!(search_rows(&rows, &all, &columns, "fire", SearchOptions::default()), vec![0, 2]);
    assert_eq!(search_rows(&rows, &[true, true, false], &columns, "fire", SearchOptions::default()), vec![0]);
}

#[test]
fn table_values_order() {
    assert_eq!(3u32.tbl_order(&5), TableOrder::Less);
    assert_eq!((-1i64).tbl_order(&-1), TableOrder::Equal);
    assert_eq!(Some(1u32).tbl_order(&None), TableOrder::Less);
    assert_eq!(None::<u32>.tbl_order(&Some(0)), TableOrder::Greater);
    assert_eq!(Some(9usize).tbl_order(&Some(2)), TableOrder::Greater);
    assert_eq!(().tbl_order(&()), TableOrder::Equal);
    assert_eq!(slice_order(&[1u32, 2, 3], &[1, 2, 4]), TableOrder::Less);
    assert_eq!(slice_order(&[1u32, 5], &[1, 2]), TableOrder::Greater);
    assert_eq!(slice_order(&[7i32, 7], &[7, 7]), TableOrder::Equal);
}

#[test]
fn trailing_white_space_is_trimmed() {
    assert_eq!(trim_end("exit \t\r\n"), "exit");
    assert_eq!(trim_end("  a b  "), "  a b");
    assert_eq!(trim_end("x\u{3000}"), "x");
    assert_eq!(trim_end(""), "");
}

#[test]
fn value_type_codes() {
    assert_eq!(ValueType::from(0), ValueType::NoneType);
    assert_eq!(ValueType::from(6), ValueType::Character);
    assert_eq!(ValueType::from(21), ValueType::ItemRoot);
    assert_eq!(ValueType::from(0x7F), ValueType::Undefined);
    assert_eq!(ValueType::from(500), ValueType::Undefined);
    assert_eq!(ValueType::Character.code(), 6);
    assert_eq!(ValueType::NoneType.name(), "None");
    assert_eq!(ValueType::GuidString.name(), "GuidString");
}

#[test]
fn multi_hash_maps_find_keys() {
    // Two buckets: even hashes in bucket 0, odd in bucket 1.
    let keys = vec![2u32, 3, 4, 7];
    let set = MultiHashSet { hash_keys: vec![0, 1], next_ids: vec![2, 3, -1, -1], keys };
    assert_eq!(set.find_index(&4), Some(2));
    assert_eq!(set.find_index(&7), Some(3));
    assert_eq!(set.find_index(&5), None);
    assert_eq!(set.len(), 4);
    assert_eq!(set.iter_indecies(), vec![0, 1]);
    let map = MultiHashMap { hash_set: set, values: vec!["two", "three", "four", "seven"] };
    assert_eq!(map.try_get(&3), Some(&"three"));
    assert_eq!(map.try_get(&9), None);
    assert_eq!(map.find_index(&2), Some(0));
    let empty: MultiHashSet<GameGuid> = MultiHashSet { hash_keys: vec![], next_ids: vec![], keys: vec![] };
    assert_eq!(empty.find_index(&GameGuid(1, 2)), None);
}

#[test]
fn multi_hash_maps_list_their_entries() {
    let set = MultiHashSet { hash_keys: vec![-1, 1, 0], next_ids: vec![-1, 2, -1], keys: vec![9u32, 4, 7] };
    assert_eq!(set.iter(), vec![&4, &9]);
    let map = MultiHashMap { hash_set: set, values: vec!["nine", "four", "seven", "extra"] };
    assert_eq!(map.entries(), vec![(&4, &"four"), (&9, &"nine")]);
    assert_eq!(map.iter(), vec![(&9, &"nine"), (&4, &"four"), (&7, &"seven")]);
}

#[test]
fn extender_stand_ins() {
    assert!(static_symbols().client_state().is_none());
    assert!(static_symbols().server_state().is_none());
    assert!(!luaL_loadstring(Todo, "x = 1"));
    assert_eq!(lua_tostring(Todo, -1), "");
    assert!(LuaVirtualPin::new(&Todo).is_some());
    assert_eq!(EnumInfo::Find(3u8).GetString(), "");
    assert!(!CoreLibPlatformInterface::new().enable_debug_break);
    let e = Extender::new();
    assert!(e.config.clear_on_reset);
    assert!(e.debugger.is_none());
    assert!(e.current_extension_state().is_some());
    assert!(!e.server.request_reset_client_lua_state());
    e.client.submit_task_and_wait(|| 1);
    assert!(!Config::new().default_to_client_console);
    assert!(!Debugger {}.is_ready());
    assert!(!CallWithTraceback(Todo, 0, 0));
    assert_eq!(DoConsoleCommandEvent::new().command, "");
}

#[test]
fn text_orders_by_bytes() {
    assert_eq!("abc".to_string().tbl_order(&"abd".to_string()), TableOrder::Less);
    assert_eq!("ab".to_string().tbl_order(&"abc".to_string()), TableOrder::Less);
    assert_eq!("b".to_string().tbl_order(&"abc".to_string()), TableOrder::Greater);
    assert_eq!("Z".to_string().tbl_order(&"a".to_string()), TableOrder::Less);
    assert_eq!("same".to_string().tbl_order(&"same".to_string()), TableOrder::Equal);
}

#[test]
fn sorting_is_stable_in_both_directions() {
    let keys = vec![3u32, 1, 2, 1, 3];
    assert_eq!(sorted_rows(&keys, false), vec![1, 3, 2, 0, 4]);
    assert_eq!(sorted_rows(&keys, true), vec![0, 4, 2, 1, 3]);
    let names: Vec<String> = ["b", "a", "c"].iter().map(|x| x.to_string()).collect();
    assert_eq!(sorted_rows(&names, false), vec![1, 0, 2]);
    let missing = vec![None, Some(2u32), Some(1)];
    assert_eq!(sorted_rows(&missing, false), vec![2, 1, 0]);
    assert!(sorted_rows::<u32>(&[], false).is_empty());
}

#[test]
fn paging_through_rows() {
    let mut p = TablePage::new();
    assert_eq!(p, TablePage { page: 0, items_per_page: 1000 });
    assert_eq!(p.shown_range(10), None);
    assert_eq!(p.visible_rows(10), (0, 10));
    p.set_items_per_page(4);
    assert_eq!(p.last_page(10), 2);
    assert_eq!(p.shown_range(10), Some((1, 4)));
    p.next(10);
    assert_eq!(p.page, 1);
    assert_eq!(p.visible_rows(10), (4, 8));
    p.next(10);
    p.next(10);
    assert_eq!(p.page, 2);
    assert_eq!(p.visible_rows(10), (8, 10));
    assert_eq!(p.shown_range(10), Some((9, 10)));
    p.previous();
    assert_eq!(p.page, 1);
    p.previous();
    p.previous();
    assert_eq!(p.page, 0);
    p.set_items_per_page(-5);
    assert_eq!(p.items_per_page, 1);
    assert_eq!(p.last_page(0), 0);
    p.page = 7;
    assert_eq!(p.visible_rows(3), (3, 3));
    p.next(3);
    assert_eq!(p.page, 2);
}

#[test]
fn chained_maps_walk_bucket_by_bucket() {
    let nodes = vec![
        MapNode { next: Some(1), key: 10u32, value: "a" },
        MapNode { next: None, key: 11, value: "b" },
        MapNode { next: None, key: 12, value: "c" },
    ];
    let map = MapInternals { hash_size: 3, hash_table: vec![Some(0), None, Some(2), Some(1)], item_count: 3, nodes };
    let mut it = map.iter();
    assert_eq!(it.next(), Some(0));
    assert_eq!(it.next(), Some(1));
    assert_eq!(it.next(), Some(2));
    assert_eq!(it.next(), None);
    assert_eq!(it.next(), None);
    assert_eq!(map.nodes[1].value, "b");
    let empty: RefMapInternals<u32, u32> = RefMapInternals { item_count: 0, hash_size: 0, hash_table: vec![None], nodes: vec![] };
    assert_eq!(empty.iter().next(), None);
}
