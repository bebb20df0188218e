//! The engine calls behind the debug menu's actions on the host character.
use vstd::prelude::*;
use crate::osiris_call::Value;
use crate::text::append_bytes;
use vstd::string::StringSliceAdditionalSpecFns;

verus! {

broadcast use vstd::string::group_string_axioms;

/// A call of the engine function `ident` with `args`.
#[derive(Debug)]
pub struct FunctionCall {
    pub ident: String,
    pub args: Vec<Value>,
}

/// The value is the text `t`.
pub open spec fn is_text(v: Value, t: Seq<u8>) -> bool {
    v matches Value::String(s) && s@ == t
}

/// Whether text can be handed to the engine: it holds no nul.
pub open spec fn nul_free(t: Seq<u8>) -> bool {
    forall|i: int| 0 <= i < t.len() ==> t[i] != 0
}

fn text_value(s: &str) -> (res: Value)
    ensures
        is_text(res, s.spec_bytes()),
{
    Value::String(vstd::slice::slice_to_vec(s.as_bytes()))
}

/// The boost that unlocks a spell with its children.
pub open spec fn spell_boost_text(spell: Seq<u8>) -> Seq<u8> {
    "UnlockSpell(".spec_bytes() + spell + ", AddChildren, d136c5d9-0ff0-43da-acce-a74a07f8d8bf, , )".spec_bytes()
}

fn spell_boost(spell: &str) -> (res: Value)
    ensures
        is_text(res, spell_boost_text(spell.spec_bytes())),
{
    let mut t = vstd::slice::slice_to_vec("UnlockSpell(".as_bytes());
    append_bytes(&mut t, spell.as_bytes());
    append_bytes(&mut t, ", AddChildren, d136c5d9-0ff0-43da-acce-a74a07f8d8bf, , )".as_bytes());
    Value::String(t)
}

/// The query for the host character.
pub fn get_host_character() -> (res: FunctionCall)
    ensures
        res.ident@ == "GetHostCharacter"@,
        res.args@.len() == 0,
{
    FunctionCall { ident: "GetHostCharacter".to_owned(), args: Vec::new() }
}

/// Adds `amount` of the item template `uuid` to the host's inventory.
pub fn give_item(uuid: &str, host: Value, amount: i32) -> (res: FunctionCall)
    requires
        nul_free(uuid.spec_bytes()),
    ensures
        res.ident@ == "TemplateAddTo"@,
        res.args@.len() == 4,
        is_text(res.args@[0], uuid.spec_bytes()),
        res.args@[1] == host,
        res.args@[2] == Value::Int(amount as i64),
        res.args@[3] == Value::Int(1),
{
    let args = vec![text_value(uuid), host, Value::Int(amount as i64), Value::Int(1)];
    FunctionCall { ident: "TemplateAddTo".to_owned(), args }
}

/// Teaches the host the spell `name`.
pub fn add_spell(name: &str, host: Value) -> (res: FunctionCall)
    requires
        nul_free(name.spec_bytes()),
    ensures
        res.ident@ == "AddSpell"@,
        res.args@.len() == 4,
        res.args@[0] == host,
        is_text(res.args@[1], name.spec_bytes()),
        res.args@[2] == Value::Int(1),
        res.args@[3] == Value::Int(1),
{
    let args = vec![host, text_value(name), Value::Int(1), Value::Int(1)];
    FunctionCall { ident: "AddSpell".to_owned(), args }
}

/// Removes the spell `name` from the host.
pub fn remove_spell(name: &str, host: Value) -> (res: FunctionCall)
    requires
        nul_free(name.spec_bytes()),
    ensures
        res.ident@ == "RemoveSpell"@,
        res.args@.len() == 3,
        res.args@[0] == host,
        is_text(res.args@[1], name.spec_bytes()),
        res.args@[2] == Value::Int(1),
{
    let args = vec![host, text_value(name), Value::Int(1)];
    FunctionCall { ident: "RemoveSpell".to_owned(), args }
}

/// Gives the host the boost that unlocks `spell`.
pub fn add_spell_boost(spell: &str, host: Value) -> (res: FunctionCall)
    requires
        nul_free(spell.spec_bytes()),
    ensures
        res.ident@ == "AddBoosts"@,
        res.args@.len() == 4,
        res.args@[0] == host,
        is_text(res.args@[1], spell_boost_text(spell.spec_bytes())),
        is_text(res.args@[2], Seq::empty()),
        is_text(res.args@[3], Seq::empty()),
{
    let args = vec![host, spell_boost(spell), Value::String(Vec::new()), Value::String(Vec::new())];
    FunctionCall { ident: "AddBoosts".to_owned(), args }
}

/// Takes from the host the boost that unlocks `spell`.
pub fn remove_spell_boost(spell: &str, host: Value) -> (res: FunctionCall)
    requires
        nul_free(spell.spec_bytes()),
    ensures
        res.ident@ == "RemoveBoosts"@,
        res.args@.len() == 5,
        res.args@[0] == host,
        is_text(res.args@[1], spell_boost_text(spell.spec_bytes())),
        res.args@[2] == Value::Int(1),
        is_text(res.args@[3], Seq::empty()),
        is_text(res.args@[4], Seq::empty()),
{
    let args = vec![
        host,
        spell_boost(spell),
        Value::Int(1),
        Value::String(Vec::new()),
        Value::String(Vec::new()),
    ];
    FunctionCall { ident: "RemoveBoosts".to_owned(), args }
}

/// Applies the status `name` to the host for `duration`.
pub fn add_status(name: &str, duration: i32, host: Value) -> (res: FunctionCall)
    requires
        nul_free(name.spec_bytes()),
    ensures
        res.ident@ == "ApplyStatus"@,
        res.args@.len() == 5,
        res.args@[0] == host,
        is_text(res.args@[1], name.spec_bytes()),
        res.args@[2] == Value::Int(duration as i64),
        res.args@[3] == Value::Int(1),
        is_text(res.args@[4], Seq::empty()),
{
    let args = vec![host, text_value(name), Value::Int(duration as i64), Value::Int(1), Value::String(Vec::new())];
    FunctionCall { ident: "ApplyStatus".to_owned(), args }
}

/// Removes the status `name` from the host.
pub fn remove_status(name: &str, host: Value) -> (res: FunctionCall)
    requires
        nul_free(name.spec_bytes()),
    ensures
        res.ident@ == "RemoveStatus"@,
        res.args@.len() == 3,
        res.args@[0] == host,
        is_text(res.args@[1], name.spec_bytes()),
        is_text(res.args@[2], Seq::empty()),
{
    let args = vec![host, text_value(name), Value::String(Vec::new())];
    FunctionCall { ident: "RemoveStatus".to_owned(), args }
}

/// Gives the host the passive `name`.
pub fn add_passive(name: &str, host: Value) -> (res: FunctionCall)
    requires
        nul_free(name.spec_bytes()),
    ensures
        res.ident@ == "AddPassive"@,
        res.args@.len() == 2,
        res.args@[0] == host,
        is_text(res.args@[1], name.spec_bytes()),
{
    let args = vec![host, text_value(name)];
    FunctionCall { ident: "AddPassive".to_owned(), args }
}

/// Takes the passive `name` from the host.
pub fn remove_passive(name: &str, host: Value) -> (res: FunctionCall)
    requires
        nul_free(name.spec_bytes()),
    ensures
        res.ident@ == "RemovePassive"@,
        res.args@.len() == 2,
        res.args@[0] == host,
        is_text(res.args@[1], name.spec_bytes()),
{
    let args = vec![host, text_value(name)];
    FunctionCall { ident: "RemovePassive".to_owned(), args }
}

} // verus!
