//! The types of Osiris values: their codes in game memory and their names.
use vstd::prelude::*;

verus! {

/// The type of an Osiris value.
#[derive(Clone, Copy, Debug, PartialEq, Eq, Default)]
pub enum ValueType {
    #[default]
    NoneType,
    Integer,
    Integer64,
    Real,
    String,
    GuidString,
    Character,
    Item,
    Trigger,
    Spline,
    LevelTemplate,
    DialogResource,
    EffectResource,
    VoiceBarkResource,
    Animation,
    Tag,
    Flag,
    Faction,
    TimelineResource,
    Root,
    CharacterRoot,
    ItemRoot,
    Platform,
    DisturbanceProperty,
    ShapeshiftRule,
    DifficultyClass,
    DeathType,
    GravityType,
    GoldReward,
    LQuant,
    TutorialEvent,
    TagCategory,
    Dlc,
    RulesetModifier,
    ArmorSet,
    CrowdBehaviour,
    SplatterType,
    Quantity,
    TradableType,
    UnifiedTutorial,
    EquipmentSlot,
    UnsheathState,
    CriticalityType,
    TradeMode,
    Undefined,
}

impl ValueType {
    /// The numeric code of the type in the engine.
    pub open spec fn spec_code(self) -> u16 {
        match self {
            ValueType::NoneType => 0,
            ValueType::Integer => 1,
            ValueType::Integer64 => 2,
            ValueType::Real => 3,
            ValueType::String => 4,
            ValueType::GuidString => 5,
            ValueType::Character => 6,
            ValueType::Item => 7,
            ValueType::Trigger => 8,
            ValueType::Spline => 9,
            ValueType::LevelTemplate => 10,
            ValueType::DialogResource => 11,
            ValueType::EffectResource => 12,
            ValueType::VoiceBarkResource => 13,
            ValueType::Animation => 14,
            ValueType::Tag => 15,
            ValueType::Flag => 16,
            ValueType::Faction => 17,
            ValueType::TimelineResource => 18,
            ValueType::Root => 19,
            ValueType::CharacterRoot => 20,
            ValueType::ItemRoot => 21,
            ValueType::Platform => 22,
            ValueType::DisturbanceProperty => 23,
            ValueType::ShapeshiftRule => 24,
            ValueType::DifficultyClass => 25,
            ValueType::DeathType => 26,
            ValueType::GravityType => 27,
            ValueType::GoldReward => 28,
            ValueType::LQuant => 29,
            ValueType::TutorialEvent => 30,
            ValueType::TagCategory => 31,
            ValueType::Dlc => 32,
            ValueType::RulesetModifier => 33,
            ValueType::ArmorSet => 34,
            ValueType::CrowdBehaviour => 35,
            ValueType::SplatterType => 36,
            ValueType::Quantity => 37,
            ValueType::TradableType => 38,
            ValueType::UnifiedTutorial => 39,
            ValueType::EquipmentSlot => 40,
            ValueType::UnsheathState => 41,
            ValueType::CriticalityType => 42,
            ValueType::TradeMode => 43,
            ValueType::Undefined => 127,
        }
    }

    /// The type with a numeric code; unknown codes read as `Undefined`.
    pub open spec fn spec_from(value: u16) -> ValueType {
        if value == 0 {
            ValueType::NoneType
        } else         if value == 1 {
            ValueType::Integer
        } else         if value == 2 {
            ValueType::Integer64
        } else         if value == 3 {
            ValueType::Real
        } else         if value == 4 {
            ValueType::String
        } else         if value == 5 {
            ValueType::GuidString
        } else         if value == 6 {
            ValueType::Character
        } else         if value == 7 {
            ValueType::Item
        } else         if value == 8 {
            ValueType::Trigger
        } else         if value == 9 {
            ValueType::Spline
        } else         if value == 10 {
            ValueType::LevelTemplate
        } else         if value == 11 {
            ValueType::DialogResource
        } else         if value == 12 {
            ValueType::EffectResource
        } else         if value == 13 {
            ValueType::VoiceBarkResource
        } else         if value == 14 {
            ValueType::Animation
        } else         if value == 15 {
            ValueType::Tag
        } else         if value == 16 {
            ValueType::Flag
        } else         if value == 17 {
            ValueType::Faction
        } else         if value == 18 {
            ValueType::TimelineResource
        } else         if value == 19 {
            ValueType::Root
        } else         if value == 20 {
            ValueType::CharacterRoot
        } else         if value == 21 {
            ValueType::ItemRoot
        } else         if value == 22 {
            ValueType::Platform
        } else         if value == 23 {
            ValueType::DisturbanceProperty
        } else         if value == 24 {
            ValueType::ShapeshiftRule
        } else         if value == 25 {
            ValueType::DifficultyClass
        } else         if value == 26 {
            ValueType::DeathType
        } else         if value == 27 {
            ValueType::GravityType
        } else         if value == 28 {
            ValueType::GoldReward
        } else         if value == 29 {
            ValueType::LQuant
        } else         if value == 30 {
            ValueType::TutorialEvent
        } else         if value == 31 {
            ValueType::TagCategory
        } else         if value == 32 {
            ValueType::Dlc
        } else         if value == 33 {
            ValueType::RulesetModifier
        } else         if value == 34 {
            ValueType::ArmorSet
        } else         if value == 35 {
            ValueType::CrowdBehaviour
        } else         if value == 36 {
            ValueType::SplatterType
        } else         if value == 37 {
            ValueType::Quantity
        } else         if value == 38 {
            ValueType::TradableType
        } else         if value == 39 {
            ValueType::UnifiedTutorial
        } else         if value == 40 {
            ValueType::EquipmentSlot
        } else         if value == 41 {
            ValueType::UnsheathState
        } else         if value == 42 {
            ValueType::CriticalityType
        } else         if value == 43 {
            ValueType::TradeMode
        } else         if value == 127 {
            ValueType::Undefined
        } else {
            ValueType::Undefined
        }
    }

    /// The numeric code of the type in the engine.
    pub fn code(self) -> (res: u16)
        ensures
            res == self.spec_code(),
    {
        match self {
            ValueType::NoneType => 0,
            ValueType::Integer => 1,
            ValueType::Integer64 => 2,
            ValueType::Real => 3,
            ValueType::String => 4,
            ValueType::GuidString => 5,
            ValueType::Character => 6,
            ValueType::Item => 7,
            ValueType::Trigger => 8,
            ValueType::Spline => 9,
            ValueType::LevelTemplate => 10,
            ValueType::DialogResource => 11,
            ValueType::EffectResource => 12,
            ValueType::VoiceBarkResource => 13,
            ValueType::Animation => 14,
            ValueType::Tag => 15,
            ValueType::Flag => 16,
            ValueType::Faction => 17,
            ValueType::TimelineResource => 18,
            ValueType::Root => 19,
            ValueType::CharacterRoot => 20,
            ValueType::ItemRoot => 21,
            ValueType::Platform => 22,
            ValueType::DisturbanceProperty => 23,
            ValueType::ShapeshiftRule => 24,
            ValueType::DifficultyClass => 25,
            ValueType::DeathType => 26,
            ValueType::GravityType => 27,
            ValueType::GoldReward => 28,
            ValueType::LQuant => 29,
            ValueType::TutorialEvent => 30,
            ValueType::TagCategory => 31,
            ValueType::Dlc => 32,
            ValueType::RulesetModifier => 33,
            ValueType::ArmorSet => 34,
            ValueType::CrowdBehaviour => 35,
            ValueType::SplatterType => 36,
            ValueType::Quantity => 37,
            ValueType::TradableType => 38,
            ValueType::UnifiedTutorial => 39,
            ValueType::EquipmentSlot => 40,
            ValueType::UnsheathState => 41,
            ValueType::CriticalityType => 42,
            ValueType::TradeMode => 43,
            ValueType::Undefined => 127,
        }
    }

    /// The type with a numeric code; unknown codes read as `Undefined`.
    pub fn from(value: u16) -> (res: ValueType)
        ensures
            res == ValueType::spec_from(value),
    {
        if value == 0 {
            ValueType::NoneType
        } else         if value == 1 {
            ValueType::Integer
        } else         if value == 2 {
            ValueType::Integer64
        } else         if value == 3 {
            ValueType::Real
        } else         if value == 4 {
            ValueType::String
        } else         if value == 5 {
            ValueType::GuidString
        } else         if value == 6 {
            ValueType::Character
        } else         if value == 7 {
            ValueType::Item
        } else         if value == 8 {
            ValueType::Trigger
        } else         if value == 9 {
            ValueType::Spline
        } else         if value == 10 {
            ValueType::LevelTemplate
        } else         if value == 11 {
            ValueType::DialogResource
        } else         if value == 12 {
            ValueType::EffectResource
        } else         if value == 13 {
            ValueType::VoiceBarkResource
        } else         if value == 14 {
            ValueType::Animation
        } else         if value == 15 {
            ValueType::Tag
        } else         if value == 16 {
            ValueType::Flag
        } else         if value == 17 {
            ValueType::Faction
        } else         if value == 18 {
            ValueType::TimelineResource
        } else         if value == 19 {
            ValueType::Root
        } else         if value == 20 {
            ValueType::CharacterRoot
        } else         if value == 21 {
            ValueType::ItemRoot
        } else         if value == 22 {
            ValueType::Platform
        } else         if value == 23 {
            ValueType::DisturbanceProperty
        } else         if value == 24 {
            ValueType::ShapeshiftRule
        } else         if value == 25 {
            ValueType::DifficultyClass
        } else         if value == 26 {
            ValueType::DeathType
        } else         if value == 27 {
            ValueType::GravityType
        } else         if value == 28 {
            ValueType::GoldReward
        } else         if value == 29 {
            ValueType::LQuant
        } else         if value == 30 {
            ValueType::TutorialEvent
        } else         if value == 31 {
            ValueType::TagCategory
        } else         if value == 32 {
            ValueType::Dlc
        } else         if value == 33 {
            ValueType::RulesetModifier
        } else         if value == 34 {
            ValueType::ArmorSet
        } else         if value == 35 {
            ValueType::CrowdBehaviour
        } else         if value == 36 {
            ValueType::SplatterType
        } else         if value == 37 {
            ValueType::Quantity
        } else         if value == 38 {
            ValueType::TradableType
        } else         if value == 39 {
            ValueType::UnifiedTutorial
        } else         if value == 40 {
            ValueType::EquipmentSlot
        } else         if value == 41 {
            ValueType::UnsheathState
        } else         if value == 42 {
            ValueType::CriticalityType
        } else         if value == 43 {
            ValueType::TradeMode
        } else         if value == 127 {
            ValueType::Undefined
        } else {
            ValueType::Undefined
        }
    }

    /// The type's name as its debug form spells it.
    pub open spec fn spec_name(self) -> &'static str {
        match self {
            ValueType::NoneType => "None",
            ValueType::Integer => "Integer",
            ValueType::Integer64 => "Integer64",
            ValueType::Real => "Real",
            ValueType::String => "String",
            ValueType::GuidString => "GuidString",
            ValueType::Character => "Character",
            ValueType::Item => "Item",
            ValueType::Trigger => "Trigger",
            ValueType::Spline => "Spline",
            ValueType::LevelTemplate => "LevelTemplate",
            ValueType::DialogResource => "DialogResource",
            ValueType::EffectResource => "EffectResource",
            ValueType::VoiceBarkResource => "VoiceBarkResource",
            ValueType::Animation => "Animation",
            ValueType::Tag => "Tag",
            ValueType::Flag => "Flag",
            ValueType::Faction => "Faction",
            ValueType::TimelineResource => "TimelineResource",
            ValueType::Root => "Root",
            ValueType::CharacterRoot => "CharacterRoot",
            ValueType::ItemRoot => "ItemRoot",
            ValueType::Platform => "Platform",
            ValueType::DisturbanceProperty => "DisturbanceProperty",
            ValueType::ShapeshiftRule => "ShapeshiftRule",
            ValueType::DifficultyClass => "DifficultyClass",
            ValueType::DeathType => "DeathType",
            ValueType::GravityType => "GravityType",
            ValueType::GoldReward => "GoldReward",
            ValueType::LQuant => "LQuant",
            ValueType::TutorialEvent => "TutorialEvent",
            ValueType::TagCategory => "TagCategory",
            ValueType::Dlc => "Dlc",
            ValueType::RulesetModifier => "RulesetModifier",
            ValueType::ArmorSet => "ArmorSet",
            ValueType::CrowdBehaviour => "CrowdBehaviour",
            ValueType::SplatterType => "SplatterType",
            ValueType::Quantity => "Quantity",
            ValueType::TradableType => "TradableType",
            ValueType::UnifiedTutorial => "UnifiedTutorial",
            ValueType::EquipmentSlot => "EquipmentSlot",
            ValueType::UnsheathState => "UnsheathState",
            ValueType::CriticalityType => "CriticalityType",
            ValueType::TradeMode => "TradeMode",
            ValueType::Undefined => "Undefined",
        }
    }

    /// The type's name as its debug form spells it.
    pub fn name(self) -> (res: &'static str)
        ensures
            res == self.spec_name(),
    {
        match self {
            ValueType::NoneType => "None",
            ValueType::Integer => "Integer",
            ValueType::Integer64 => "Integer64",
            ValueType::Real => "Real",
            ValueType::String => "String",
            ValueType::GuidString => "GuidString",
            ValueType::Character => "Character",
            ValueType::Item => "Item",
            ValueType::Trigger => "Trigger",
            ValueType::Spline => "Spline",
            ValueType::LevelTemplate => "LevelTemplate",
            ValueType::DialogResource => "DialogResource",
            ValueType::EffectResource => "EffectResource",
            ValueType::VoiceBarkResource => "VoiceBarkResource",
            ValueType::Animation => "Animation",
            ValueType::Tag => "Tag",
            ValueType::Flag => "Flag",
            ValueType::Faction => "Faction",
            ValueType::TimelineResource => "TimelineResource",
            ValueType::Root => "Root",
            ValueType::CharacterRoot => "CharacterRoot",
            ValueType::ItemRoot => "ItemRoot",
            ValueType::Platform => "Platform",
            ValueType::DisturbanceProperty => "DisturbanceProperty",
            ValueType::ShapeshiftRule => "ShapeshiftRule",
            ValueType::DifficultyClass => "DifficultyClass",
            ValueType::DeathType => "DeathType",
            ValueType::GravityType => "GravityType",
            ValueType::GoldReward => "GoldReward",
            ValueType::LQuant => "LQuant",
            ValueType::TutorialEvent => "TutorialEvent",
            ValueType::TagCategory => "TagCategory",
            ValueType::Dlc => "Dlc",
            ValueType::RulesetModifier => "RulesetModifier",
            ValueType::ArmorSet => "ArmorSet",
            ValueType::CrowdBehaviour => "CrowdBehaviour",
            ValueType::SplatterType => "SplatterType",
            ValueType::Quantity => "Quantity",
            ValueType::TradableType => "TradableType",
            ValueType::UnifiedTutorial => "UnifiedTutorial",
            ValueType::EquipmentSlot => "EquipmentSlot",
            ValueType::UnsheathState => "UnsheathState",
            ValueType::CriticalityType => "CriticalityType",
            ValueType::TradeMode => "TradeMode",
            ValueType::Undefined => "Undefined",
        }
    }
}

/// Reading a type's code back gives the type.
pub proof fn lemma_value_type_code_roundtrip(t: ValueType)
    ensures
        ValueType::spec_from(t.spec_code()) == t,
{
}

} // verus!
