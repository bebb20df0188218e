//! The engine symbols that the binary mappings bind to addresses.
use vstd::prelude::*;

use crate::text::str_eq;

verus! {

/// The number of engine symbols.
pub const NUM_STATIC_SYMBOLS: usize = 74;

/// The name of each engine symbol that a mapping may bind.
#[allow(non_camel_case_types)]
#[derive(Clone, Copy, Debug, PartialEq, Eq)]
pub enum StaticSymbolName {
    ls__FixedString__GetString,
    ls__FixedString__IncRef,
    ls__GlobalStringTable__MainTable__CreateFromString,
    ls__GlobalStringTable__MainTable__DecRef,
    ls__gGlobalStringTable,
    ls__FileReader__ctor,
    ls__FileReader__dtor,
    ls__PathRoots,
    App__Ctor,
    App__UpdatePaths,
    ecl__EoCClient,
    esv__EoCServer,
    ecl__EoCClient__HandleError,
    ls__gTranslatedStringRepository,
    ecl__gGameStateEventManager,
    esv__gGameStateEventManager,
    ecl__GameStateThreaded__GameStateWorker__DoWork,
    esv__GameStateThreaded__GameStateWorker__DoWork,
    ecl__GameStateMachine__Update,
    esv__GameStateMachine__Update,
    App__LoadGraphicSettings,
    ecs__EntityWorld__Update,
    eoc__SpellPrototypeManager,
    eoc__SpellPrototype__Init,
    eoc__StatusPrototypeManager,
    eoc__StatusPrototype__Init,
    eoc__PassiveManager,
    eoc__Passive__Init,
    esv__OsirisVariableHelper__SavegameVisit,
    esv__StatusMachine__CreateStatus,
    esv__StatusMachine__ApplyStatus,
    stats__DealDamageFunctor__ApplyDamage,
    esv__StatsSystem__ThrowDamageEvent,
    stats__Functors__ExecuteType1,
    stats__Functors__ExecuteType2,
    stats__Functors__ExecuteType3,
    stats__Functors__ExecuteType4,
    stats__Functors__ExecuteType5,
    stats__Functors__ExecuteType6,
    stats__Functors__ExecuteType7,
    stats__Functors__ExecuteType8,
    gRPGStats,
    RPGStats__Load,
    RPGStats__PreParseDataFolder,
    stats__Object__SetPropertyString,
    esv__LevelManager,
    ls__GlobalTemplateManager,
    esv__CacheTemplateManager,
    esv__SavegameManager,
    AppInstance,
    Libraries,
    ls__gGlobalAllocator,
    ls__GlobalAllocator__Alloc,
    ls__GlobalAllocator__Free,
    eoc__gGuidResourceManager,
    ls__gGlobalResourceManager,
    ls__VirtualTextureResource__Load,
    ls__VirtualTextureResource__Unload,
    ls__VirtualTextureResource__Transcode,
    ls__GlobalSwitches,
    Kernel_FindFirstFileW,
    Kernel_FindNextFileW,
    Kernel_FindClose,
    eoc__InterruptPrototypeManager,
    eoc__PassivePrototype__Init,
    eoc__PassivePrototypeManager,
    eoc__InterruptPrototype__Init,
    Noesis__SymbolManager__Buf1,
    Noesis__gReflection,
    Noesis__GUI__LoadXaml,
    Noesis__Visual__RemoveVisualChild,
    Noesis__Visual__AddVisualChild,
    ls__UIStateMachine__FireStateEvent2,
    ls__gTextureAtlasMap,
}

/// Why a symbol could not be bound.
#[derive(Debug)]
pub enum SymbolError {
    /// No engine symbol has this name.
    Unknown(String),
    /// The symbol already holds an address.
    AlreadyBound(String),
}

impl StaticSymbolName {
    /// The symbol's position in declaration order.
    pub open spec fn spec_index(self) -> int {
        match self {
            StaticSymbolName::ls__FixedString__GetString => 0,
            StaticSymbolName::ls__FixedString__IncRef => 1,
            StaticSymbolName::ls__GlobalStringTable__MainTable__CreateFromString => 2,
            StaticSymbolName::ls__GlobalStringTable__MainTable__DecRef => 3,
            StaticSymbolName::ls__gGlobalStringTable => 4,
            StaticSymbolName::ls__FileReader__ctor => 5,
            StaticSymbolName::ls__FileReader__dtor => 6,
            StaticSymbolName::ls__PathRoots => 7,
            StaticSymbolName::App__Ctor => 8,
            StaticSymbolName::App__UpdatePaths => 9,
            StaticSymbolName::ecl__EoCClient => 10,
            StaticSymbolName::esv__EoCServer => 11,
            StaticSymbolName::ecl__EoCClient__HandleError => 12,
            StaticSymbolName::ls__gTranslatedStringRepository => 13,
            StaticSymbolName::ecl__gGameStateEventManager => 14,
            StaticSymbolName::esv__gGameStateEventManager => 15,
            StaticSymbolName::ecl__GameStateThreaded__GameStateWorker__DoWork => 16,
            StaticSymbolName::esv__GameStateThreaded__GameStateWorker__DoWork => 17,
            StaticSymbolName::ecl__GameStateMachine__Update => 18,
            StaticSymbolName::esv__GameStateMachine__Update => 19,
            StaticSymbolName::App__LoadGraphicSettings => 20,
            StaticSymbolName::ecs__EntityWorld__Update => 21,
            StaticSymbolName::eoc__SpellPrototypeManager => 22,
            StaticSymbolName::eoc__SpellPrototype__Init => 23,
            StaticSymbolName::eoc__StatusPrototypeManager => 24,
            StaticSymbolName::eoc__StatusPrototype__Init => 25,
            StaticSymbolName::eoc__PassiveManager => 26,
            StaticSymbolName::eoc__Passive__Init => 27,
            StaticSymbolName::esv__OsirisVariableHelper__SavegameVisit => 28,
            StaticSymbolName::esv__StatusMachine__CreateStatus => 29,
            StaticSymbolName::esv__StatusMachine__ApplyStatus => 30,
            StaticSymbolName::stats__DealDamageFunctor__ApplyDamage => 31,
            StaticSymbolName::esv__StatsSystem__ThrowDamageEvent => 32,
            StaticSymbolName::stats__Functors__ExecuteType1 => 33,
            StaticSymbolName::stats__Functors__ExecuteType2 => 34,
            StaticSymbolName::stats__Functors__ExecuteType3 => 35,
            StaticSymbolName::stats__Functors__ExecuteType4 => 36,
            StaticSymbolName::stats__Functors__ExecuteType5 => 37,
            StaticSymbolName::stats__Functors__ExecuteType6 => 38,
            StaticSymbolName::stats__Functors__ExecuteType7 => 39,
            StaticSymbolName::stats__Functors__ExecuteType8 => 40,
            StaticSymbolName::gRPGStats => 41,
            StaticSymbolName::RPGStats__Load => 42,
            StaticSymbolName::RPGStats__PreParseDataFolder => 43,
            StaticSymbolName::stats__Object__SetPropertyString => 44,
            StaticSymbolName::esv__LevelManager => 45,
            StaticSymbolName::ls__GlobalTemplateManager => 46,
            StaticSymbolName::esv__CacheTemplateManager => 47,
            StaticSymbolName::esv__SavegameManager => 48,
            StaticSymbolName::AppInstance => 49,
            StaticSymbolName::Libraries => 50,
            StaticSymbolName::ls__gGlobalAllocator => 51,
            StaticSymbolName::ls__GlobalAllocator__Alloc => 52,
            StaticSymbolName::ls__GlobalAllocator__Free => 53,
            StaticSymbolName::eoc__gGuidResourceManager => 54,
            StaticSymbolName::ls__gGlobalResourceManager => 55,
            StaticSymbolName::ls__VirtualTextureResource__Load => 56,
            StaticSymbolName::ls__VirtualTextureResource__Unload => 57,
            StaticSymbolName::ls__VirtualTextureResource__Transcode => 58,
            StaticSymbolName::ls__GlobalSwitches => 59,
            StaticSymbolName::Kernel_FindFirstFileW => 60,
            StaticSymbolName::Kernel_FindNextFileW => 61,
            StaticSymbolName::Kernel_FindClose => 62,
            StaticSymbolName::eoc__InterruptPrototypeManager => 63,
            StaticSymbolName::eoc__PassivePrototype__Init => 64,
            StaticSymbolName::eoc__PassivePrototypeManager => 65,
            StaticSymbolName::eoc__InterruptPrototype__Init => 66,
            StaticSymbolName::Noesis__SymbolManager__Buf1 => 67,
            StaticSymbolName::Noesis__gReflection => 68,
            StaticSymbolName::Noesis__GUI__LoadXaml => 69,
            StaticSymbolName::Noesis__Visual__RemoveVisualChild => 70,
            StaticSymbolName::Noesis__Visual__AddVisualChild => 71,
            StaticSymbolName::ls__UIStateMachine__FireStateEvent2 => 72,
            StaticSymbolName::ls__gTextureAtlasMap => 73,
        }
    }

    /// The symbol at a position in declaration order.
    pub open spec fn spec_from_index(i: int) -> StaticSymbolName {
        if i == 0 {
            StaticSymbolName::ls__FixedString__GetString
        } else         if i == 1 {
            StaticSymbolName::ls__FixedString__IncRef
        } else         if i == 2 {
            StaticSymbolName::ls__GlobalStringTable__MainTable__CreateFromString
        } else         if i == 3 {
            StaticSymbolName::ls__GlobalStringTable__MainTable__DecRef
        } else         if i == 4 {
            StaticSymbolName::ls__gGlobalStringTable
        } else         if i == 5 {
            StaticSymbolName::ls__FileReader__ctor
        } else         if i == 6 {
            StaticSymbolName::ls__FileReader__dtor
        } else         if i == 7 {
            StaticSymbolName::ls__PathRoots
        } else         if i == 8 {
            StaticSymbolName::App__Ctor
        } else         if i == 9 {
            StaticSymbolName::App__UpdatePaths
        } else         if i == 10 {
            StaticSymbolName::ecl__EoCClient
        } else         if i == 11 {
            StaticSymbolName::esv__EoCServer
        } else         if i == 12 {
            StaticSymbolName::ecl__EoCClient__HandleError
        } else         if i == 13 {
            StaticSymbolName::ls__gTranslatedStringRepository
        } else         if i == 14 {
            StaticSymbolName::ecl__gGameStateEventManager
        } else         if i == 15 {
            StaticSymbolName::esv__gGameStateEventManager
        } else         if i == 16 {
            StaticSymbolName::ecl__GameStateThreaded__GameStateWorker__DoWork
        } else         if i == 17 {
            StaticSymbolName::esv__GameStateThreaded__GameStateWorker__DoWork
        } else         if i == 18 {
            StaticSymbolName::ecl__GameStateMachine__Update
        } else         if i == 19 {
            StaticSymbolName::esv__GameStateMachine__Update
        } else         if i == 20 {
            StaticSymbolName::App__LoadGraphicSettings
        } else         if i == 21 {
            StaticSymbolName::ecs__EntityWorld__Update
        } else         if i == 22 {
            StaticSymbolName::eoc__SpellPrototypeManager
        } else         if i == 23 {
            StaticSymbolName::eoc__SpellPrototype__Init
        } else         if i == 24 {
            StaticSymbolName::eoc__StatusPrototypeManager
        } else         if i == 25 {
            StaticSymbolName::eoc__StatusPrototype__Init
        } else         if i == 26 {
            StaticSymbolName::eoc__PassiveManager
        } else         if i == 27 {
            StaticSymbolName::eoc__Passive__Init
        } else         if i == 28 {
            StaticSymbolName::esv__OsirisVariableHelper__SavegameVisit
        } else         if i == 29 {
            StaticSymbolName::esv__StatusMachine__CreateStatus
        } else         if i == 30 {
            StaticSymbolName::esv__StatusMachine__ApplyStatus
        } else         if i == 31 {
            StaticSymbolName::stats__DealDamageFunctor__ApplyDamage
        } else         if i == 32 {
            StaticSymbolName::esv__StatsSystem__ThrowDamageEvent
        } else         if i == 33 {
            StaticSymbolName::stats__Functors__ExecuteType1
        } else         if i == 34 {
            StaticSymbolName::stats__Functors__ExecuteType2
        } else         if i == 35 {
            StaticSymbolName::stats__Functors__ExecuteType3
        } else         if i == 36 {
            StaticSymbolName::stats__Functors__ExecuteType4
        } else         if i == 37 {
            StaticSymbolName::stats__Functors__ExecuteType5
        } else         if i == 38 {
            StaticSymbolName::stats__Functors__ExecuteType6
        } else         if i == 39 {
            StaticSymbolName::stats__Functors__ExecuteType7
        } else         if i == 40 {
            StaticSymbolName::stats__Functors__ExecuteType8
        } else         if i == 41 {
            StaticSymbolName::gRPGStats
        } else         if i == 42 {
            StaticSymbolName::RPGStats__Load
        } else         if i == 43 {
            StaticSymbolName::RPGStats__PreParseDataFolder
        } else         if i == 44 {
            StaticSymbolName::stats__Object__SetPropertyString
        } else         if i == 45 {
            StaticSymbolName::esv__LevelManager
        } else         if i == 46 {
            StaticSymbolName::ls__GlobalTemplateManager
        } else         if i == 47 {
            StaticSymbolName::esv__CacheTemplateManager
        } else         if i == 48 {
            StaticSymbolName::esv__SavegameManager
        } else         if i == 49 {
            StaticSymbolName::AppInstance
        } else         if i == 50 {
            StaticSymbolName::Libraries
        } else         if i == 51 {
            StaticSymbolName::ls__gGlobalAllocator
        } else         if i == 52 {
            StaticSymbolName::ls__GlobalAllocator__Alloc
        } else         if i == 53 {
            StaticSymbolName::ls__GlobalAllocator__Free
        } else         if i == 54 {
            StaticSymbolName::eoc__gGuidResourceManager
        } else         if i == 55 {
            StaticSymbolName::ls__gGlobalResourceManager
        } else         if i == 56 {
            StaticSymbolName::ls__VirtualTextureResource__Load
        } else         if i == 57 {
            StaticSymbolName::ls__VirtualTextureResource__Unload
        } else         if i == 58 {
            StaticSymbolName::ls__VirtualTextureResource__Transcode
        } else         if i == 59 {
            StaticSymbolName::ls__GlobalSwitches
        } else         if i == 60 {
            StaticSymbolName::Kernel_FindFirstFileW
        } else         if i == 61 {
            StaticSymbolName::Kernel_FindNextFileW
        } else         if i == 62 {
            StaticSymbolName::Kernel_FindClose
        } else         if i == 63 {
            StaticSymbolName::eoc__InterruptPrototypeManager
        } else         if i == 64 {
            StaticSymbolName::eoc__PassivePrototype__Init
        } else         if i == 65 {
            StaticSymbolName::eoc__PassivePrototypeManager
        } else         if i == 66 {
            StaticSymbolName::eoc__InterruptPrototype__Init
        } else         if i == 67 {
            StaticSymbolName::Noesis__SymbolManager__Buf1
        } else         if i == 68 {
            StaticSymbolName::Noesis__gReflection
        } else         if i == 69 {
            StaticSymbolName::Noesis__GUI__LoadXaml
        } else         if i == 70 {
            StaticSymbolName::Noesis__Visual__RemoveVisualChild
        } else         if i == 71 {
            StaticSymbolName::Noesis__Visual__AddVisualChild
        } else         if i == 72 {
            StaticSymbolName::ls__UIStateMachine__FireStateEvent2
        } else {
            StaticSymbolName::ls__gTextureAtlasMap
        }
    }

    /// The symbol's name as the mappings spell it.
    pub open spec fn spec_name(self) -> &'static str {
        match self {
            StaticSymbolName::ls__FixedString__GetString => "ls__FixedString__GetString",
            StaticSymbolName::ls__FixedString__IncRef => "ls__FixedString__IncRef",
            StaticSymbolName::ls__GlobalStringTable__MainTable__CreateFromString => "ls__GlobalStringTable__MainTable__CreateFromString",
            StaticSymbolName::ls__GlobalStringTable__MainTable__DecRef => "ls__GlobalStringTable__MainTable__DecRef",
            StaticSymbolName::ls__gGlobalStringTable => "ls__gGlobalStringTable",
            StaticSymbolName::ls__FileReader__ctor => "ls__FileReader__ctor",
            StaticSymbolName::ls__FileReader__dtor => "ls__FileReader__dtor",
            StaticSymbolName::ls__PathRoots => "ls__PathRoots",
            StaticSymbolName::App__Ctor => "App__Ctor",
            StaticSymbolName::App__UpdatePaths => "App__UpdatePaths",
            StaticSymbolName::ecl__EoCClient => "ecl__EoCClient",
            StaticSymbolName::esv__EoCServer => "esv__EoCServer",
            StaticSymbolName::ecl__EoCClient__HandleError => "ecl__EoCClient__HandleError",
            StaticSymbolName::ls__gTranslatedStringRepository => "ls__gTranslatedStringRepository",
            StaticSymbolName::ecl__gGameStateEventManager => "ecl__gGameStateEventManager",
            StaticSymbolName::esv__gGameStateEventManager => "esv__gGameStateEventManager",
            StaticSymbolName::ecl__GameStateThreaded__GameStateWorker__DoWork => "ecl__GameStateThreaded__GameStateWorker__DoWork",
            StaticSymbolName::esv__GameStateThreaded__GameStateWorker__DoWork => "esv__GameStateThreaded__GameStateWorker__DoWork",
            StaticSymbolName::ecl__GameStateMachine__Update => "ecl__GameStateMachine__Update",
            StaticSymbolName::esv__GameStateMachine__Update => "esv__GameStateMachine__Update",
            StaticSymbolName::App__LoadGraphicSettings => "App__LoadGraphicSettings",
            StaticSymbolName::ecs__EntityWorld__Update => "ecs__EntityWorld__Update",
            StaticSymbolName::eoc__SpellPrototypeManager => "eoc__SpellPrototypeManager",
            StaticSymbolName::eoc__SpellPrototype__Init => "eoc__SpellPrototype__Init",
            StaticSymbolName::eoc__StatusPrototypeManager => "eoc__StatusPrototypeManager",
            StaticSymbolName::eoc__StatusPrototype__Init => "eoc__StatusPrototype__Init",
            StaticSymbolName::eoc__PassiveManager => "eoc__PassiveManager",
            StaticSymbolName::eoc__Passive__Init => "eoc__Passive__Init",
            StaticSymbolName::esv__OsirisVariableHelper__SavegameVisit => "esv__OsirisVariableHelper__SavegameVisit",
            StaticSymbolName::esv__StatusMachine__CreateStatus => "esv__StatusMachine__CreateStatus",
            StaticSymbolName::esv__StatusMachine__ApplyStatus => "esv__StatusMachine__ApplyStatus",
            StaticSymbolName::stats__DealDamageFunctor__ApplyDamage => "stats__DealDamageFunctor__ApplyDamage",
            StaticSymbolName::esv__StatsSystem__ThrowDamageEvent => "esv__StatsSystem__ThrowDamageEvent",
            StaticSymbolName::stats__Functors__ExecuteType1 => "stats__Functors__ExecuteType1",
            StaticSymbolName::stats__Functors__ExecuteType2 => "stats__Functors__ExecuteType2",
            StaticSymbolName::stats__Functors__ExecuteType3 => "stats__Functors__ExecuteType3",
            StaticSymbolName::stats__Functors__ExecuteType4 => "stats__Functors__ExecuteType4",
            StaticSymbolName::stats__Functors__ExecuteType5 => "stats__Functors__ExecuteType5",
            StaticSymbolName::stats__Functors__ExecuteType6 => "stats__Functors__ExecuteType6",
            StaticSymbolName::stats__Functors__ExecuteType7 => "stats__Functors__ExecuteType7",
            StaticSymbolName::stats__Functors__ExecuteType8 => "stats__Functors__ExecuteType8",
            StaticSymbolName::gRPGStats => "gRPGStats",
            StaticSymbolName::RPGStats__Load => "RPGStats__Load",
            StaticSymbolName::RPGStats__PreParseDataFolder => "RPGStats__PreParseDataFolder",
            StaticSymbolName::stats__Object__SetPropertyString => "stats__Object__SetPropertyString",
            StaticSymbolName::esv__LevelManager => "esv__LevelManager",
            StaticSymbolName::ls__GlobalTemplateManager => "ls__GlobalTemplateManager",
            StaticSymbolName::esv__CacheTemplateManager => "esv__CacheTemplateManager",
            StaticSymbolName::esv__SavegameManager => "esv__SavegameManager",
            StaticSymbolName::AppInstance => "AppInstance",
            StaticSymbolName::Libraries => "Libraries",
            StaticSymbolName::ls__gGlobalAllocator => "ls__gGlobalAllocator",
            StaticSymbolName::ls__GlobalAllocator__Alloc => "ls__GlobalAllocator__Alloc",
            StaticSymbolName::ls__GlobalAllocator__Free => "ls__GlobalAllocator__Free",
            StaticSymbolName::eoc__gGuidResourceManager => "eoc__gGuidResourceManager",
            StaticSymbolName::ls__gGlobalResourceManager => "ls__gGlobalResourceManager",
            StaticSymbolName::ls__VirtualTextureResource__Load => "ls__VirtualTextureResource__Load",
            StaticSymbolName::ls__VirtualTextureResource__Unload => "ls__VirtualTextureResource__Unload",
            StaticSymbolName::ls__VirtualTextureResource__Transcode => "ls__VirtualTextureResource__Transcode",
            StaticSymbolName::ls__GlobalSwitches => "ls__GlobalSwitches",
            StaticSymbolName::Kernel_FindFirstFileW => "Kernel_FindFirstFileW",
            StaticSymbolName::Kernel_FindNextFileW => "Kernel_FindNextFileW",
            StaticSymbolName::Kernel_FindClose => "Kernel_FindClose",
            StaticSymbolName::eoc__InterruptPrototypeManager => "eoc__InterruptPrototypeManager",
            StaticSymbolName::eoc__PassivePrototype__Init => "eoc__PassivePrototype__Init",
            StaticSymbolName::eoc__PassivePrototypeManager => "eoc__PassivePrototypeManager",
            StaticSymbolName::eoc__InterruptPrototype__Init => "eoc__InterruptPrototype__Init",
            StaticSymbolName::Noesis__SymbolManager__Buf1 => "Noesis__SymbolManager__Buf1",
            StaticSymbolName::Noesis__gReflection => "Noesis__gReflection",
            StaticSymbolName::Noesis__GUI__LoadXaml => "Noesis__GUI__LoadXaml",
            StaticSymbolName::Noesis__Visual__RemoveVisualChild => "Noesis__Visual__RemoveVisualChild",
            StaticSymbolName::Noesis__Visual__AddVisualChild => "Noesis__Visual__AddVisualChild",
            StaticSymbolName::ls__UIStateMachine__FireStateEvent2 => "ls__UIStateMachine__FireStateEvent2",
            StaticSymbolName::ls__gTextureAtlasMap => "ls__gTextureAtlasMap",
        }
    }

    /// A symbol's index is within the table, and the symbol at that index is
    /// the symbol.
    pub proof fn lemma_index_roundtrip(self)
        ensures
            0 <= self.spec_index() < NUM_STATIC_SYMBOLS,
            StaticSymbolName::spec_from_index(self.spec_index()) == self,
    {
    }

    pub fn index(self) -> (res: usize)
        ensures
            res == self.spec_index(),
    {
        match self {
            StaticSymbolName::ls__FixedString__GetString => 0,
            StaticSymbolName::ls__FixedString__IncRef => 1,
            StaticSymbolName::ls__GlobalStringTable__MainTable__CreateFromString => 2,
            StaticSymbolName::ls__GlobalStringTable__MainTable__DecRef => 3,
            StaticSymbolName::ls__gGlobalStringTable => 4,
            StaticSymbolName::ls__FileReader__ctor => 5,
            StaticSymbolName::ls__FileReader__dtor => 6,
            StaticSymbolName::ls__PathRoots => 7,
            StaticSymbolName::App__Ctor => 8,
            StaticSymbolName::App__UpdatePaths => 9,
            StaticSymbolName::ecl__EoCClient => 10,
            StaticSymbolName::esv__EoCServer => 11,
            StaticSymbolName::ecl__EoCClient__HandleError => 12,
            StaticSymbolName::ls__gTranslatedStringRepository => 13,
            StaticSymbolName::ecl__gGameStateEventManager => 14,
            StaticSymbolName::esv__gGameStateEventManager => 15,
            StaticSymbolName::ecl__GameStateThreaded__GameStateWorker__DoWork => 16,
            StaticSymbolName::esv__GameStateThreaded__GameStateWorker__DoWork => 17,
            StaticSymbolName::ecl__GameStateMachine__Update => 18,
            StaticSymbolName::esv__GameStateMachine__Update => 19,
            StaticSymbolName::App__LoadGraphicSettings => 20,
            StaticSymbolName::ecs__EntityWorld__Update => 21,
            StaticSymbolName::eoc__SpellPrototypeManager => 22,
            StaticSymbolName::eoc__SpellPrototype__Init => 23,
            StaticSymbolName::eoc__StatusPrototypeManager => 24,
            StaticSymbolName::eoc__StatusPrototype__Init => 25,
            StaticSymbolName::eoc__PassiveManager => 26,
            StaticSymbolName::eoc__Passive__Init => 27,
            StaticSymbolName::esv__OsirisVariableHelper__SavegameVisit => 28,
            StaticSymbolName::esv__StatusMachine__CreateStatus => 29,
            StaticSymbolName::esv__StatusMachine__ApplyStatus => 30,
            StaticSymbolName::stats__DealDamageFunctor__ApplyDamage => 31,
            StaticSymbolName::esv__StatsSystem__ThrowDamageEvent => 32,
            StaticSymbolName::stats__Functors__ExecuteType1 => 33,
            StaticSymbolName::stats__Functors__ExecuteType2 => 34,
            StaticSymbolName::stats__Functors__ExecuteType3 => 35,
            StaticSymbolName::stats__Functors__ExecuteType4 => 36,
            StaticSymbolName::stats__Functors__ExecuteType5 => 37,
            StaticSymbolName::stats__Functors__ExecuteType6 => 38,
            StaticSymbolName::stats__Functors__ExecuteType7 => 39,
            StaticSymbolName::stats__Functors__ExecuteType8 => 40,
            StaticSymbolName::gRPGStats => 41,
            StaticSymbolName::RPGStats__Load => 42,
            StaticSymbolName::RPGStats__PreParseDataFolder => 43,
            StaticSymbolName::stats__Object__SetPropertyString => 44,
            StaticSymbolName::esv__LevelManager => 45,
            StaticSymbolName::ls__GlobalTemplateManager => 46,
            StaticSymbolName::esv__CacheTemplateManager => 47,
            StaticSymbolName::esv__SavegameManager => 48,
            StaticSymbolName::AppInstance => 49,
            StaticSymbolName::Libraries => 50,
            StaticSymbolName::ls__gGlobalAllocator => 51,
            StaticSymbolName::ls__GlobalAllocator__Alloc => 52,
            StaticSymbolName::ls__GlobalAllocator__Free => 53,
            StaticSymbolName::eoc__gGuidResourceManager => 54,
            StaticSymbolName::ls__gGlobalResourceManager => 55,
            StaticSymbolName::ls__VirtualTextureResource__Load => 56,
            StaticSymbolName::ls__VirtualTextureResource__Unload => 57,
            StaticSymbolName::ls__VirtualTextureResource__Transcode => 58,
            StaticSymbolName::ls__GlobalSwitches => 59,
            StaticSymbolName::Kernel_FindFirstFileW => 60,
            StaticSymbolName::Kernel_FindNextFileW => 61,
            StaticSymbolName::Kernel_FindClose => 62,
            StaticSymbolName::eoc__InterruptPrototypeManager => 63,
            StaticSymbolName::eoc__PassivePrototype__Init => 64,
            StaticSymbolName::eoc__PassivePrototypeManager => 65,
            StaticSymbolName::eoc__InterruptPrototype__Init => 66,
            StaticSymbolName::Noesis__SymbolManager__Buf1 => 67,
            StaticSymbolName::Noesis__gReflection => 68,
            StaticSymbolName::Noesis__GUI__LoadXaml => 69,
            StaticSymbolName::Noesis__Visual__RemoveVisualChild => 70,
            StaticSymbolName::Noesis__Visual__AddVisualChild => 71,
            StaticSymbolName::ls__UIStateMachine__FireStateEvent2 => 72,
            StaticSymbolName::ls__gTextureAtlasMap => 73,
        }
    }

    pub fn from_index(i: usize) -> (res: StaticSymbolName)
        requires
            i < NUM_STATIC_SYMBOLS,
        ensures
            res == StaticSymbolName::spec_from_index(i as int),
            res.spec_index() == i,
    {
        if i == 0 {
            StaticSymbolName::ls__FixedString__GetString
        } else         if i == 1 {
            StaticSymbolName::ls__FixedString__IncRef
        } else         if i == 2 {
            StaticSymbolName::ls__GlobalStringTable__MainTable__CreateFromString
        } else         if i == 3 {
            StaticSymbolName::ls__GlobalStringTable__MainTable__DecRef
        } else         if i == 4 {
            StaticSymbolName::ls__gGlobalStringTable
        } else         if i == 5 {
            StaticSymbolName::ls__FileReader__ctor
        } else         if i == 6 {
            StaticSymbolName::ls__FileReader__dtor
        } else         if i == 7 {
            StaticSymbolName::ls__PathRoots
        } else         if i == 8 {
            StaticSymbolName::App__Ctor
        } else         if i == 9 {
            StaticSymbolName::App__UpdatePaths
        } else         if i == 10 {
            StaticSymbolName::ecl__EoCClient
        } else         if i == 11 {
            StaticSymbolName::esv__EoCServer
        } else         if i == 12 {
            StaticSymbolName::ecl__EoCClient__HandleError
        } else         if i == 13 {
            StaticSymbolName::ls__gTranslatedStringRepository
        } else         if i == 14 {
            StaticSymbolName::ecl__gGameStateEventManager
        } else         if i == 15 {
            StaticSymbolName::esv__gGameStateEventManager
        } else         if i == 16 {
            StaticSymbolName::ecl__GameStateThreaded__GameStateWorker__DoWork
        } else         if i == 17 {
            StaticSymbolName::esv__GameStateThreaded__GameStateWorker__DoWork
        } else         if i == 18 {
            StaticSymbolName::ecl__GameStateMachine__Update
        } else         if i == 19 {
            StaticSymbolName::esv__GameStateMachine__Update
        } else         if i == 20 {
            StaticSymbolName::App__LoadGraphicSettings
        } else         if i == 21 {
            StaticSymbolName::ecs__EntityWorld__Update
        } else         if i == 22 {
            StaticSymbolName::eoc__SpellPrototypeManager
        } else         if i == 23 {
            StaticSymbolName::eoc__SpellPrototype__Init
        } else         if i == 24 {
            StaticSymbolName::eoc__StatusPrototypeManager
        } else         if i == 25 {
            StaticSymbolName::eoc__StatusPrototype__Init
        } else         if i == 26 {
            StaticSymbolName::eoc__PassiveManager
        } else         if i == 27 {
            StaticSymbolName::eoc__Passive__Init
        } else         if i == 28 {
            StaticSymbolName::esv__OsirisVariableHelper__SavegameVisit
        } else         if i == 29 {
            StaticSymbolName::esv__StatusMachine__CreateStatus
        } else         if i == 30 {
            StaticSymbolName::esv__StatusMachine__ApplyStatus
        } else         if i == 31 {
            StaticSymbolName::stats__DealDamageFunctor__ApplyDamage
        } else         if i == 32 {
            StaticSymbolName::esv__StatsSystem__ThrowDamageEvent
        } else         if i == 33 {
            StaticSymbolName::stats__Functors__ExecuteType1
        } else         if i == 34 {
            StaticSymbolName::stats__Functors__ExecuteType2
        } else         if i == 35 {
            StaticSymbolName::stats__Functors__ExecuteType3
        } else         if i == 36 {
            StaticSymbolName::stats__Functors__ExecuteType4
        } else         if i == 37 {
            StaticSymbolName::stats__Functors__ExecuteType5
        } else         if i == 38 {
            StaticSymbolName::stats__Functors__ExecuteType6
        } else         if i == 39 {
            StaticSymbolName::stats__Functors__ExecuteType7
        } else         if i == 40 {
            StaticSymbolName::stats__Functors__ExecuteType8
        } else         if i == 41 {
            StaticSymbolName::gRPGStats
        } else         if i == 42 {
            StaticSymbolName::RPGStats__Load
        } else         if i == 43 {
            StaticSymbolName::RPGStats__PreParseDataFolder
        } else         if i == 44 {
            StaticSymbolName::stats__Object__SetPropertyString
        } else         if i == 45 {
            StaticSymbolName::esv__LevelManager
        } else         if i == 46 {
            StaticSymbolName::ls__GlobalTemplateManager
        } else         if i == 47 {
            StaticSymbolName::esv__CacheTemplateManager
        } else         if i == 48 {
            StaticSymbolName::esv__SavegameManager
        } else         if i == 49 {
            StaticSymbolName::AppInstance
        } else         if i == 50 {
            StaticSymbolName::Libraries
        } else         if i == 51 {
            StaticSymbolName::ls__gGlobalAllocator
        } else         if i == 52 {
            StaticSymbolName::ls__GlobalAllocator__Alloc
        } else         if i == 53 {
            StaticSymbolName::ls__GlobalAllocator__Free
        } else         if i == 54 {
            StaticSymbolName::eoc__gGuidResourceManager
        } else         if i == 55 {
            StaticSymbolName::ls__gGlobalResourceManager
        } else         if i == 56 {
            StaticSymbolName::ls__VirtualTextureResource__Load
        } else         if i == 57 {
            StaticSymbolName::ls__VirtualTextureResource__Unload
        } else         if i == 58 {
            StaticSymbolName::ls__VirtualTextureResource__Transcode
        } else         if i == 59 {
            StaticSymbolName::ls__GlobalSwitches
        } else         if i == 60 {
            StaticSymbolName::Kernel_FindFirstFileW
        } else         if i == 61 {
            StaticSymbolName::Kernel_FindNextFileW
        } else         if i == 62 {
            StaticSymbolName::Kernel_FindClose
        } else         if i == 63 {
            StaticSymbolName::eoc__InterruptPrototypeManager
        } else         if i == 64 {
            StaticSymbolName::eoc__PassivePrototype__Init
        } else         if i == 65 {
            StaticSymbolName::eoc__PassivePrototypeManager
        } else         if i == 66 {
            StaticSymbolName::eoc__InterruptPrototype__Init
        } else         if i == 67 {
            StaticSymbolName::Noesis__SymbolManager__Buf1
        } else         if i == 68 {
            StaticSymbolName::Noesis__gReflection
        } else         if i == 69 {
            StaticSymbolName::Noesis__GUI__LoadXaml
        } else         if i == 70 {
            StaticSymbolName::Noesis__Visual__RemoveVisualChild
        } else         if i == 71 {
            StaticSymbolName::Noesis__Visual__AddVisualChild
        } else         if i == 72 {
            StaticSymbolName::ls__UIStateMachine__FireStateEvent2
        } else {
            StaticSymbolName::ls__gTextureAtlasMap
        }
    }

    #[verifier::when_used_as_spec(spec_name)]
    pub fn name(self) -> (res: &'static str)
        ensures
            res == self.spec_name(),
    {
        match self {
            StaticSymbolName::ls__FixedString__GetString => "ls__FixedString__GetString",
            StaticSymbolName::ls__FixedString__IncRef => "ls__FixedString__IncRef",
            StaticSymbolName::ls__GlobalStringTable__MainTable__CreateFromString => "ls__GlobalStringTable__MainTable__CreateFromString",
            StaticSymbolName::ls__GlobalStringTable__MainTable__DecRef => "ls__GlobalStringTable__MainTable__DecRef",
            StaticSymbolName::ls__gGlobalStringTable => "ls__gGlobalStringTable",
            StaticSymbolName::ls__FileReader__ctor => "ls__FileReader__ctor",
            StaticSymbolName::ls__FileReader__dtor => "ls__FileReader__dtor",
            StaticSymbolName::ls__PathRoots => "ls__PathRoots",
            StaticSymbolName::App__Ctor => "App__Ctor",
            StaticSymbolName::App__UpdatePaths => "App__UpdatePaths",
            StaticSymbolName::ecl__EoCClient => "ecl__EoCClient",
            StaticSymbolName::esv__EoCServer => "esv__EoCServer",
            StaticSymbolName::ecl__EoCClient__HandleError => "ecl__EoCClient__HandleError",
            StaticSymbolName::ls__gTranslatedStringRepository => "ls__gTranslatedStringRepository",
            StaticSymbolName::ecl__gGameStateEventManager => "ecl__gGameStateEventManager",
            StaticSymbolName::esv__gGameStateEventManager => "esv__gGameStateEventManager",
            StaticSymbolName::ecl__GameStateThreaded__GameStateWorker__DoWork => "ecl__GameStateThreaded__GameStateWorker__DoWork",
            StaticSymbolName::esv__GameStateThreaded__GameStateWorker__DoWork => "esv__GameStateThreaded__GameStateWorker__DoWork",
            StaticSymbolName::ecl__GameStateMachine__Update => "ecl__GameStateMachine__Update",
            StaticSymbolName::esv__GameStateMachine__Update => "esv__GameStateMachine__Update",
            StaticSymbolName::App__LoadGraphicSettings => "App__LoadGraphicSettings",
            StaticSymbolName::ecs__EntityWorld__Update => "ecs__EntityWorld__Update",
            StaticSymbolName::eoc__SpellPrototypeManager => "eoc__SpellPrototypeManager",
            StaticSymbolName::eoc__SpellPrototype__Init => "eoc__SpellPrototype__Init",
            StaticSymbolName::eoc__StatusPrototypeManager => "eoc__StatusPrototypeManager",
            StaticSymbolName::eoc__StatusPrototype__Init => "eoc__StatusPrototype__Init",
            StaticSymbolName::eoc__PassiveManager => "eoc__PassiveManager",
            StaticSymbolName::eoc__Passive__Init => "eoc__Passive__Init",
            StaticSymbolName::esv__OsirisVariableHelper__SavegameVisit => "esv__OsirisVariableHelper__SavegameVisit",
            StaticSymbolName::esv__StatusMachine__CreateStatus => "esv__StatusMachine__CreateStatus",
            StaticSymbolName::esv__StatusMachine__ApplyStatus => "esv__StatusMachine__ApplyStatus",
            StaticSymbolName::stats__DealDamageFunctor__ApplyDamage => "stats__DealDamageFunctor__ApplyDamage",
            StaticSymbolName::esv__StatsSystem__ThrowDamageEvent => "esv__StatsSystem__ThrowDamageEvent",
            StaticSymbolName::stats__Functors__ExecuteType1 => "stats__Functors__ExecuteType1",
            StaticSymbolName::stats__Functors__ExecuteType2 => "stats__Functors__ExecuteType2",
            StaticSymbolName::stats__Functors__ExecuteType3 => "stats__Functors__ExecuteType3",
            StaticSymbolName::stats__Functors__ExecuteType4 => "stats__Functors__ExecuteType4",
            StaticSymbolName::stats__Functors__ExecuteType5 => "stats__Functors__ExecuteType5",
            StaticSymbolName::stats__Functors__ExecuteType6 => "stats__Functors__ExecuteType6",
            StaticSymbolName::stats__Functors__ExecuteType7 => "stats__Functors__ExecuteType7",
            StaticSymbolName::stats__Functors__ExecuteType8 => "stats__Functors__ExecuteType8",
            StaticSymbolName::gRPGStats => "gRPGStats",
            StaticSymbolName::RPGStats__Load => "RPGStats__Load",
            StaticSymbolName::RPGStats__PreParseDataFolder => "RPGStats__PreParseDataFolder",
            StaticSymbolName::stats__Object__SetPropertyString => "stats__Object__SetPropertyString",
            StaticSymbolName::esv__LevelManager => "esv__LevelManager",
            StaticSymbolName::ls__GlobalTemplateManager => "ls__GlobalTemplateManager",
            StaticSymbolName::esv__CacheTemplateManager => "esv__CacheTemplateManager",
            StaticSymbolName::esv__SavegameManager => "esv__SavegameManager",
            StaticSymbolName::AppInstance => "AppInstance",
            StaticSymbolName::Libraries => "Libraries",
            StaticSymbolName::ls__gGlobalAllocator => "ls__gGlobalAllocator",
            StaticSymbolName::ls__GlobalAllocator__Alloc => "ls__GlobalAllocator__Alloc",
            StaticSymbolName::ls__GlobalAllocator__Free => "ls__GlobalAllocator__Free",
            StaticSymbolName::eoc__gGuidResourceManager => "eoc__gGuidResourceManager",
            StaticSymbolName::ls__gGlobalResourceManager => "ls__gGlobalResourceManager",
            StaticSymbolName::ls__VirtualTextureResource__Load => "ls__VirtualTextureResource__Load",
            StaticSymbolName::ls__VirtualTextureResource__Unload => "ls__VirtualTextureResource__Unload",
            StaticSymbolName::ls__VirtualTextureResource__Transcode => "ls__VirtualTextureResource__Transcode",
            StaticSymbolName::ls__GlobalSwitches => "ls__GlobalSwitches",
            StaticSymbolName::Kernel_FindFirstFileW => "Kernel_FindFirstFileW",
            StaticSymbolName::Kernel_FindNextFileW => "Kernel_FindNextFileW",
            StaticSymbolName::Kernel_FindClose => "Kernel_FindClose",
            StaticSymbolName::eoc__InterruptPrototypeManager => "eoc__InterruptPrototypeManager",
            StaticSymbolName::eoc__PassivePrototype__Init => "eoc__PassivePrototype__Init",
            StaticSymbolName::eoc__PassivePrototypeManager => "eoc__PassivePrototypeManager",
            StaticSymbolName::eoc__InterruptPrototype__Init => "eoc__InterruptPrototype__Init",
            StaticSymbolName::Noesis__SymbolManager__Buf1 => "Noesis__SymbolManager__Buf1",
            StaticSymbolName::Noesis__gReflection => "Noesis__gReflection",
            StaticSymbolName::Noesis__GUI__LoadXaml => "Noesis__GUI__LoadXaml",
            StaticSymbolName::Noesis__Visual__RemoveVisualChild => "Noesis__Visual__RemoveVisualChild",
            StaticSymbolName::Noesis__Visual__AddVisualChild => "Noesis__Visual__AddVisualChild",
            StaticSymbolName::ls__UIStateMachine__FireStateEvent2 => "ls__UIStateMachine__FireStateEvent2",
            StaticSymbolName::ls__gTextureAtlasMap => "ls__gTextureAtlasMap",
        }
    }

    /// The first symbol, in declaration order, with the given name.
    pub fn from_str(k: &str) -> (res: Result<StaticSymbolName, SymbolError>)
        ensures
            match res {
                Ok(n) => n.spec_name()@ == k@ && forall|m: StaticSymbolName|
                    m.spec_index() < n.spec_index() ==> (#[trigger] m.spec_name())@ != k@,
                Err(e) => (e matches SymbolError::Unknown(s) && s@ == k@) && forall|
                    m: StaticSymbolName,
                | (#[trigger] m.spec_name())@ != k@,
            },
    {
        let mut i: usize = 0;
        while i < NUM_STATIC_SYMBOLS
            invariant
                i <= NUM_STATIC_SYMBOLS,
                forall|m: StaticSymbolName| m.spec_index() < i ==> (#[trigger] m.spec_name())@ != k@,
            decreases NUM_STATIC_SYMBOLS - i,
        {
            let n = StaticSymbolName::from_index(i);
            if str_eq(k, n.name()) {
                return Ok(n);
            }
            proof {
                assert forall|m: StaticSymbolName| m.spec_index() < i + 1 implies (#[trigger] m.spec_name())@
                    != k@ by {
                    if m.spec_index() == i {
                        m.lemma_index_roundtrip();
                    }
                }
            }
            i = i + 1;
        }
        proof {
            assert forall|m: StaticSymbolName| (#[trigger] m.spec_name())@ != k@ by {
                m.lemma_index_roundtrip();
            }
        }
        Err(SymbolError::Unknown(k.to_owned()))
    }
}

/// The first symbol, in declaration order, named `s`.
pub open spec fn symbol_named(s: Seq<char>) -> Option<StaticSymbolName> {
    if exists|n: StaticSymbolName| (#[trigger] n.spec_name())@ == s {
        Some(
            choose|n: StaticSymbolName|
                (#[trigger] n.spec_name())@ == s && forall|m: StaticSymbolName|
                    m.spec_index() < n.spec_index() ==> (#[trigger] m.spec_name())@ != s,
        )
    } else {
        None
    }
}

/// Binding `s` to `v`: the first symbol named `s` gets `v` when it holds no
/// address yet; otherwise nothing changes.
pub open spec fn bind_symbol(slots: Seq<Option<usize>>, s: Seq<char>, v: usize) -> Seq<Option<usize>> {
    match symbol_named(s) {
        Some(n) => if slots[n.spec_index()] is None {
            slots.update(n.spec_index(), Some(v))
        } else {
            slots
        },
        None => slots,
    }
}

/// A symbol found by `from_str` is the one `symbol_named` picks.
pub proof fn lemma_symbol_named_first(s: Seq<char>, n: StaticSymbolName)
    requires
        n.spec_name()@ == s,
        forall|m: StaticSymbolName| m.spec_index() < n.spec_index() ==> (#[trigger] m.spec_name())@ != s,
    ensures
        symbol_named(s) == Some(n),
{
    let c = choose|c: StaticSymbolName|
        (#[trigger] c.spec_name())@ == s && forall|m: StaticSymbolName|
            m.spec_index() < c.spec_index() ==> (#[trigger] m.spec_name())@ != s;
    if c.spec_index() < n.spec_index() {
    } else if n.spec_index() < c.spec_index() {
    } else {
        c.lemma_index_roundtrip();
        n.lemma_index_roundtrip();
    }
}

/// The address bound to each engine symbol, if any.
pub struct StaticSymbols {
    slots: Vec<Option<usize>>,
}

impl StaticSymbols {
    #[verifier::type_invariant]
    spec fn slots_cover_all_symbols(self) -> bool {
        self.slots@.len() == NUM_STATIC_SYMBOLS
    }

    /// The address bound to each symbol, by declaration order.
    pub closed spec fn view(&self) -> Seq<Option<usize>> {
        self.slots@
    }

    /// No symbol bound.
    pub fn new() -> (res: StaticSymbols)
        ensures
            res.view() == Seq::new(NUM_STATIC_SYMBOLS as nat, |i: int| None::<usize>),
    {
        let mut slots: Vec<Option<usize>> = Vec::new();
        let mut i: usize = 0;
        while i < NUM_STATIC_SYMBOLS
            invariant
                i <= NUM_STATIC_SYMBOLS,
                slots@ == Seq::new(i as nat, |j: int| None::<usize>),
            decreases NUM_STATIC_SYMBOLS - i,
        {
            slots.push(None);
            i = i + 1;
            assert(slots@ =~= Seq::new(i as nat, |j: int| None::<usize>));
        }
        StaticSymbols { slots }
    }

    /// The address bound to a symbol.
    pub fn get(&self, n: StaticSymbolName) -> (res: Option<usize>)
        ensures
            res == self.view()[n.spec_index()],
    {
        proof {
            use_type_invariant(self);
            n.lemma_index_roundtrip();
        }
        self.slots[n.index()]
    }

    /// Binds the symbol named `name` to `value`; refused when no symbol has that
    /// name or the symbol is already bound.
    pub fn set(&mut self, name: &str, value: usize) -> (res: Result<(), SymbolError>)
        ensures
            final(self).view() == bind_symbol(old(self).view(), name@, value),
            match res {
                Ok(()) => symbol_named(name@) matches Some(n) && old(self).view()[n.spec_index()]
                    is None,
                Err(SymbolError::Unknown(s)) => s@ == name@ && symbol_named(name@) is None,
                Err(SymbolError::AlreadyBound(s)) => s@ == name@ && (symbol_named(name@) matches Some(
                    n,
                ) && old(self).view()[n.spec_index()] is Some),
            },
    {
        proof {
            use_type_invariant(&*self);
        }
        let n = match StaticSymbolName::from_str(name) {
            Ok(n) => n,
            Err(e) => {
                proof {
                    if symbol_named(name@) is Some {
                        let c = symbol_named(name@)->0;
                        assert(c.spec_name()@ == name@);
                    }
                }
                return Err(e);
            },
        };
        proof {
            lemma_symbol_named_first(name@, n);
            n.lemma_index_roundtrip();
        }
        let i = n.index();
        if self.slots[i].is_some() {
            return Err(SymbolError::AlreadyBound(name.to_owned()));
        }
        let mut slots = self.slots.clone();
        assert(slots@ =~= self.slots@);
        slots.set(i, Some(value));
        self.slots = slots;
        Ok(())
    }
}

} // verus!
