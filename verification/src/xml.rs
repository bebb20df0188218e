//! The binary mappings document as read from its XML form, field for field.
use vstd::prelude::*;

verus! {

pub struct BinaryMappings {
    pub mappings: Mappings,
}

pub struct Mappings {
    pub version: String,
    pub default: bool,
    pub inner: Vec<MappingOrDllImport>,
}

pub enum MappingOrDllImport {
    DllImport(DllImport),
    Mapping(Mapping),
}

pub struct DllImport {
    pub module: String,
    pub proc: String,
    pub symbol: String,
}

pub struct Mapping {
    pub name: String,
    pub critical: bool,
    pub allow_fail: bool,
    pub scope: MappingScope,
    pub props: Vec<MappingProperty>,
}

pub enum MappingProperty {
    Patch(Patch),
    Target(Target),
    Condition(Condition),
    Pattern(String),
}

#[derive(Clone, Copy, Debug, PartialEq, Eq)]
pub enum MappingScope {
    Text,
    Custom,
}

pub struct Condition {
    pub ty: ConditionType,
    pub offset: String,
    pub value: String,
}

#[derive(Clone, Copy, Debug, PartialEq, Eq)]
pub enum ConditionType {
    String,
    FixedString,
    FixedStringIndirect,
}

pub struct Target {
    pub ty: TargetType,
    pub offset: String,
    pub symbol: Option<String>,
    pub next_symbol: Option<String>,
    pub next_symbol_seek_size: Option<String>,
    pub engine_callback: Option<String>,
}

#[derive(Clone, Copy, Debug, PartialEq, Eq)]
pub enum TargetType {
    Absolute,
    Indirect,
}

pub struct Patch {
    pub ty: PatchType,
    pub offset: String,
    pub text: String,
}

#[derive(Clone, Copy, Debug, PartialEq, Eq)]
pub enum PatchType {
    Absolute,
}

} // verus!
