use bg3_debug_tool::osiris_call::Value;
use bg3_debug_tool::osiris_globals::{find_osiris_globals, resolve_real_function_address, GLOBAL_SCAN_LEN};
use bg3_debug_tool::osiris_helpers::{
    add_passive, add_spell, add_spell_boost, add_status, get_host_character, give_item, remove_passive,
    remove_spell, remove_spell_boost, remove_status,
};

fn text_of(v: &Value) -> Vec<u8> {
    match v {
        Value::String(s) => s.clone(),
        other => panic!("not text: {:?}", other),
    }
}

#[test]
fn real_function_follows_a_jump() {
    let mut code = vec![0x90u8; 100];
    code[0] = 0xE9;
    code[1..5].copy_from_slice(&0x20i32.to_le_bytes());
    assert_eq!(resolve_real_function_address(&code, 0x1000, 0), 0x1000 + 5 + 0x20);
}

#[test]
fn real_function_follows_a_checked_jump_stub() {
    let mut code = vec![0x90u8; 100];
    let p = 3;
    code[p] = 0x48;
    code[p + 1] = 0x83;
    code[p + 2] = 0x3D;
    code[p + 6] = 0x00;
    code[p + 13] = 0xE9;
    code[p + 14..p + 18].copy_from_slice(&(-8i32).to_le_bytes());
    assert_eq!(resolve_real_function_address(&code, 0x1000, 0), 0x1000 + 3 + 18 - 8);
}

#[test]
fn real_function_is_itself_otherwise() {
    let code = vec![0x90u8; 100];
    assert_eq!(resolve_real_function_address(&code, 0x1000, 2), 0x1002);
}

fn store(code: &mut [u8], p: usize, rel: i32) {
    code[p] = 0x48;
    code[p + 1] = 0x8B;
    code[p + 2] = 0x05;
    code[p + 3] = 0x48;
    code[p + 4] = 0x89;
    code[p + 5] = 0x05;
    code[p + 6..p + 10].copy_from_slice(&rel.to_le_bytes());
}

#[test]
fn globals_are_the_first_nine_stores() {
    let mut code = vec![0x90u8; GLOBAL_SCAN_LEN + 9];
    for k in 0..10 {
        store(&mut code, 20 + 16 * k, 100 * k as i32);
    }
    let g = find_osiris_globals(&code, 0x5000).unwrap();
    let at = |k: usize| 0x5000 + 20 + 16 * k + 100 * k + 10;
    assert_eq!(g.variables, at(0));
    assert_eq!(g.types, at(1));
    assert_eq!(g.functions, at(3));
    assert_eq!(g.nodes, at(8));
}

#[test]
fn globals_need_nine_stores() {
    let mut code = vec![0x90u8; GLOBAL_SCAN_LEN + 9];
    for k in 0..8 {
        store(&mut code, 20 + 16 * k, 0);
    }
    assert!(find_osiris_globals(&code, 0).is_none());
}

#[test]
fn helper_calls_name_their_arguments() {
    let host = Value::String(b"S_Player_Hero".to_vec());
    let c = get_host_character();
    assert_eq!(c.ident, "GetHostCharacter");
    assert!(c.args.is_empty());

    let g = give_item("1234-uuid", host.clone(), 5);
    assert_eq!(g.ident, "TemplateAddTo");
    assert_eq!(text_of(&g.args[0]), b"1234-uuid".to_vec());
    assert_eq!(text_of(&g.args[1]), b"S_Player_Hero".to_vec());
    assert!(matches!(g.args[2], Value::Int(5)));
    assert!(matches!(g.args[3], Value::Int(1)));

    let a = add_spell("Fireball", host.clone());
    assert_eq!(a.ident, "AddSpell");
    assert_eq!(a.args.len(), 4);
    assert_eq!(text_of(&a.args[1]), b"Fireball".to_vec());

    let r = remove_spell("Fireball", host.clone());
    assert_eq!(r.ident, "RemoveSpell");
    assert_eq!(r.args.len(), 3);

    let s = add_status("BURNING", 3, host.clone());
    assert_eq!(s.ident, "ApplyStatus");
    assert!(matches!(s.args[2], Value::Int(3)));
    assert_eq!(text_of(&s.args[4]), Vec::<u8>::new());

    assert_eq!(remove_status("BURNING", host.clone()).ident, "RemoveStatus");
    assert_eq!(add_passive("Alert", host.clone()).ident, "AddPassive");
    assert_eq!(remove_passive("Alert", host.clone()).args.len(), 2);
}

#[test]
fn spell_boosts_unlock_the_spell() {
    let host = Value::Int(7);
    let b = add_spell_boost("Shout_Rage", host.clone());
    assert_eq!(b.ident, "AddBoosts");
    assert_eq!(
        String::from_utf8(text_of(&b.args[1])).unwrap(),
        "UnlockSpell(Shout_Rage, AddChildren, d136c5d9-0ff0-43da-acce-a74a07f8d8bf, , )"
    );
    let r = remove_spell_boost("Shout_Rage", host);
    assert_eq!(r.ident, "RemoveBoosts");
    assert_eq!(r.args.len(), 5);
    assert!(matches!(r.args[2], Value::Int(1)));
}
