//! Game objects read as plain values: pointers, strings of the string table,
//! arrays, function slots, the game's version, templates.
use vstd::prelude::*;
use std::cmp::Ordering;
use std::marker::PhantomData;
use vstd::std_specs::cmp::{PartialEqSpecImpl, PartialOrdSpecImpl};
use vstd::string::StringExecFns;
use crate::text::{chars_of, decimal_chars, push_char, push_decimal, str_eq};
use crate::collections::{GameHash, MultiHashMap};

verus! {

broadcast use vstd::string::group_string_axioms;

/// An address in game memory of a `T`. Pointers compare and order by
/// their addresses.
#[derive(Debug, Ord)]
pub struct GamePtr<T> {
    pub ptr: usize,
    pub marker: PhantomData<T>,
}

impl<T> GamePtr<T> {
    pub fn new(ptr: usize) -> (res: GamePtr<T>)
        ensures
            res.ptr == ptr,
    {
        GamePtr { ptr, marker: PhantomData }
    }

    /// The null pointer.
    pub fn null() -> (res: GamePtr<T>)
        ensures
            res.ptr == 0,
    {
        GamePtr { ptr: 0, marker: PhantomData }
    }

    pub fn is_null(&self) -> (res: bool)
        ensures
            res == (self.ptr == 0),
    {
        self.ptr == 0
    }

    pub fn as_usize(&self) -> (res: usize)
        ensures
            res == self.ptr,
    {
        self.ptr
    }
}

impl<T> PartialEq for GamePtr<T> {
    fn eq(&self, other: &Self) -> (res: bool) {
        self.ptr == other.ptr
    }
}

impl<T> PartialEqSpecImpl for GamePtr<T> {
    open spec fn obeys_eq_spec() -> bool {
        true
    }

    open spec fn eq_spec(&self, other: &Self) -> bool {
        self.ptr == other.ptr
    }
}

impl<T> Eq for GamePtr<T> {
}

/// The order of two addresses.
pub open spec fn address_order(a: usize, b: usize) -> Option<Ordering> {
    if a < b {
        Some(Ordering::Less)
    } else if a == b {
        Some(Ordering::Equal)
    } else {
        Some(Ordering::Greater)
    }
}

impl<T> PartialOrd for GamePtr<T> {
    fn partial_cmp(&self, other: &Self) -> (res: Option<Ordering>) {
        if self.ptr < other.ptr {
            Some(Ordering::Less)
        } else if self.ptr == other.ptr {
            Some(Ordering::Equal)
        } else {
            Some(Ordering::Greater)
        }
    }
}

impl<T> PartialOrdSpecImpl for GamePtr<T> {
    open spec fn obeys_partial_cmp_spec() -> bool {
        true
    }

    open spec fn partial_cmp_spec(&self, other: &Self) -> Option<Ordering> {
        address_order(self.ptr, other.ptr)
    }
}

/// A view of text owned by the game, as the text it shows.
#[derive(Clone, Debug)]
pub struct LSStringView {
    pub text: String,
}

impl LSStringView {
    /// The empty view.
    pub fn new() -> (res: LSStringView)
        ensures
            res.text@ == Seq::<char>::empty(),
    {
        LSStringView { text: String::new() }
    }
}

/// An entry of the game's global string table: its index, and the hash that
/// the entry's header holds.
#[derive(Clone, Copy, Debug, PartialEq, Eq)]
pub struct FixedString {
    pub index: u32,
    pub hash: u32,
}

/// The index of the null entry.
pub const FIXED_STRING_NULL_INDEX: u32 = 0xFFFFFFFF;

impl FixedString {
    /// The null entry.
    pub fn default() -> (res: FixedString)
        ensures
            res.index == FIXED_STRING_NULL_INDEX,
            res.hash == 0,
    {
        FixedString { index: FIXED_STRING_NULL_INDEX, hash: 0 }
    }

    pub fn is_null(&self) -> (res: bool)
        ensures
            res == (self.index == FIXED_STRING_NULL_INDEX),
    {
        self.index == FIXED_STRING_NULL_INDEX
    }

    /// The entry's text, through the game's string-table getter: none for the
    /// null entry or when the getter was not found.
    pub fn get<F: Fn(FixedString) -> LSStringView>(&self, getter: &Option<F>) -> (res: Option<LSStringView>)
        requires
            getter matches Some(g) ==> call_requires(*g, (*self,)),
        ensures
            (self.index == FIXED_STRING_NULL_INDEX || getter is None) ==> res is None,
            !(self.index == FIXED_STRING_NULL_INDEX || getter is None) ==> (res matches Some(v) && (
            getter matches Some(g) && call_ensures(*g, (*self,), v))),
    {
        if self.is_null() {
            return None;
        }
        match getter {
            Some(g) => Some(g(*self)),
            None => None,
        }
    }

    /// The entry's text; the entry must not be null and the getter must be
    /// present.
    pub fn as_str<F: Fn(FixedString) -> LSStringView>(&self, getter: &Option<F>) -> (res: String)
        requires
            self.index != FIXED_STRING_NULL_INDEX,
            getter is Some,
            getter matches Some(g) ==> call_requires(*g, (*self,)),
        ensures
            getter matches Some(g) && exists|v: LSStringView| call_ensures(*g, (*self,), v) && v.text@ == res@,
    {
        match self.get(getter) {
            Some(v) => {
                let ghost gv = v;
                let t = v.text;
                proof {
                    assert(getter matches Some(g) && call_ensures(*g, (*self,), gv) && gv.text@ == t@);
                }
                t
            },
            None => vstd::pervasive::unreached(),
        }
    }
}

/// An array of the game whose first `size` elements are in use.
#[derive(Debug)]
pub struct Array<T> {
    pub buf: Vec<T>,
    pub capacity: u32,
    pub size: u32,
}

impl<T> Array<T> {
    /// The element at `index`, which must be below the size.
    pub fn index(&self, index: u32) -> (res: &T)
        requires
            index < self.size,
            self.size <= self.buf@.len(),
        ensures
            *res == self.buf@[index as int],
    {
        &self.buf[index as usize]
    }
}

/// A fixed-size array of the game.
#[derive(Debug)]
pub struct StaticArray<T> {
    pub buf: Vec<T>,
    pub size: u32,
}

impl<T> StaticArray<T> {
    /// The element at `index`, which must be below the size.
    pub fn index(&self, index: u32) -> (res: &T)
        requires
            index < self.size,
            self.size <= self.buf@.len(),
        ensures
            *res == self.buf@[index as int],
    {
        &self.buf[index as usize]
    }
}

/// A fixed-size array of the game that may be only partly filled.
#[derive(Debug)]
pub struct UninitializedStaticArray<T> {
    pub buf: Vec<T>,
    pub size: u32,
}

impl<T> UninitializedStaticArray<T> {
    /// The element at `index`, which must be below the size.
    pub fn index(&self, index: u32) -> (res: &T)
        requires
            index < self.size,
            self.size <= self.buf@.len(),
        ensures
            *res == self.buf@[index as int],
    {
        &self.buf[index as usize]
    }

    /// An iterator over the first `size` elements.
    pub fn iter(&self) -> (res: ArrayIter<'_, T>)
        requires
            self.size <= self.buf@.len(),
        ensures
            res.items@ == self.buf@,
            res.size == self.size,
            res.index == 0,
    {
        ArrayIter::new(self.buf.as_slice(), self.size)
    }
}

/// An iterator over the first `size` elements of a game array.
#[derive(Debug)]
pub struct ArrayIter<'a, T> {
    pub items: &'a [T],
    pub size: u32,
    pub index: u32,
}

impl<'a, T> ArrayIter<'a, T> {
    /// An iterator at the first of `size` elements of `items`.
    pub fn new(items: &'a [T], size: u32) -> (res: ArrayIter<'a, T>)
        ensures
            res.items@ == items@,
            res.size == size,
            res.index == 0,
    {
        ArrayIter { items, size, index: 0 }
    }

    /// What one call of `next` gives and leaves: the element at the index and
    /// the index one further on, or nothing once `size` elements were given.
    pub open spec fn step(self) -> (ArrayIter<'a, T>, Option<&'a T>) {
        if self.index < self.size {
            (ArrayIter { index: (self.index + 1) as u32, ..self }, Some(&self.items@[self.index as int]))
        } else {
            (self, None)
        }
    }

    /// The iterator after `n` calls of `next`.
    pub open spec fn after(self, n: nat) -> ArrayIter<'a, T>
        decreases n,
    {
        if n == 0 {
            self
        } else {
            self.after((n - 1) as nat).step().0
        }
    }

    /// The next element, until `size` elements have been given.
    pub fn next(&mut self) -> (res: Option<&'a T>)
        requires
            old(self).index <= old(self).size,
            old(self).size <= old(self).items@.len(),
        ensures
            final(self).items@ == old(self).items@,
            final(self).size == old(self).size,
            old(self).index == old(self).size ==> res is None && final(self).index == old(self).index,
            old(self).index < old(self).size ==> res == Some(&old(self).items@[old(self).index as int])
                && final(self).index == old(self).index + 1,
            *final(self) == old(self).step().0,
            res == old(self).step().1,
    {
        if self.index == self.size {
            return None;
        }
        let v = &self.items[self.index as usize];
        self.index = self.index + 1;
        Some(v)
    }
}

proof fn lemma_after_index<'a, T>(it: ArrayIter<'a, T>, n: nat)
    requires
        it.index <= it.size,
    ensures
        it.after(n).items == it.items,
        it.after(n).size == it.size,
        it.after(n).index == if it.index + n <= it.size {
            it.index + n
        } else {
            it.size as int
        },
    decreases n,
{
    if n > 0 {
        lemma_after_index(it, (n - 1) as nat);
    }
}

/// Iterating a game array from its start gives its first `size` elements in
/// order, each once, and after them nothing, however often it is asked again.
pub proof fn lemma_array_iteration<'a, T>(array: &'a UninitializedStaticArray<T>, it: ArrayIter<'a, T>)
    requires
        array.size <= array.buf@.len(),
        it.items@ == array.buf@,
        it.size == array.size,
        it.index == 0,
    ensures
        forall|i: nat| i < array.size ==> #[trigger] it.after(i).step().1 == Some(&array.buf@[i as int]),
        forall|n: nat| n >= array.size ==> #[trigger] it.after(n).step().1 is None,
        it.after(array.size as nat).index == array.size,
{
    assert forall|i: nat| i < array.size implies #[trigger] it.after(i).step().1 == Some(&array.buf@[i as int]) by {
        lemma_after_index(it, i);
    }
    assert forall|n: nat| n >= array.size implies #[trigger] it.after(n).step().1 is None by {
        lemma_after_index(it, n);
    }
    lemma_after_index(it, array.size as nat);
}

/// A slot for a function of the game, filled once it is found.
#[derive(Debug)]
pub struct GameFunction<T>(pub Option<T>);

impl<T> GameFunction<T> {
    /// An empty slot.
    pub fn new() -> (res: GameFunction<T>)
        ensures
            res.0 is None,
    {
        GameFunction(None)
    }

    /// Fills the slot with the function found.
    pub fn set(&mut self, f: T)
        ensures
            final(self).0 == Some(f),
    {
        self.0 = Some(f);
    }

    /// The function; the slot must be filled.
    pub fn get(&self) -> (res: &T)
        requires
            self.0 is Some,
        ensures
            Some(*res) == self.0,
    {
        match &self.0 {
            Some(f) => f,
            None => vstd::pervasive::unreached(),
        }
    }
}

/// A function of the game with a hook in front of it; the original is known
/// once the hook is attached.
#[derive(Debug)]
pub struct HookableFunction<T> {
    pub original: Option<T>,
    pub hook: T,
}

impl<T> HookableFunction<T> {
    /// A hook not yet attached.
    pub fn new(hook: T) -> (res: HookableFunction<T>)
        ensures
            res.original is None,
            res.hook == hook,
    {
        HookableFunction { original: None, hook }
    }

    /// Records the original function that the hook goes in front of; the hook
    /// itself is kept. Installing the detour is the caller's part.
    pub fn attach(&mut self, original: T)
        ensures
            final(self).original == Some(original),
            final(self).hook == old(self).hook,
    {
        self.original = Some(original);
    }

    /// The original function; the hook must be attached.
    pub fn original(&self) -> (res: &T)
        requires
            self.original is Some,
        ensures
            Some(*res) == self.original,
    {
        match &self.original {
            Some(f) => f,
            None => vstd::pervasive::unreached(),
        }
    }
}

/// After `set(f)`, every call of `get` gives `f`: `slot` as `set` leaves it,
/// and `got` a result that `get` may give on it.
pub proof fn lemma_get_after_set<T>(slot: GameFunction<T>, f: T, got: T)
    requires
        slot.0 == Some(f),
        Some(got) == slot.0,
    ensures
        got == f,
{
}

/// After `attach(f)`, `original` gives `f` and the hook is the one the
/// function was made with: `hooked` as `attach` leaves it, and `got` a result
/// that `original` may give on it.
pub proof fn lemma_original_after_attach<T>(made: HookableFunction<T>, hooked: HookableFunction<T>, f: T, got: T)
    requires
        hooked.original == Some(f),
        hooked.hook == made.hook,
        Some(got) == hooked.original,
    ensures
        got == f,
        hooked.hook == made.hook,
{
}

/// The game's version, from its executable's file version.
#[derive(Clone, Copy, Debug, PartialEq, Eq)]
pub struct GameVersionInfo {
    pub major: u16,
    pub minor: u16,
    pub revision: u16,
    pub build: u16,
}

impl GameVersionInfo {
    /// The version in the two 32-bit halves of a file version: major and minor
    /// in the high and low words of the first, revision and build in those of
    /// the second.
    pub fn from_file_version(ms: u32, ls: u32) -> (res: GameVersionInfo)
        ensures
            res.major == ms / 0x10000,
            res.minor == ms % 0x10000,
            res.revision == ls / 0x10000,
            res.build == ls % 0x10000,
    {
        proof {
            assert(ms >> 16 == ms / 0x10000) by (bit_vector);
            assert(ms & 0xFFFF == ms % 0x10000) by (bit_vector);
            assert(ls >> 16 == ls / 0x10000) by (bit_vector);
            assert(ls & 0xFFFF == ls % 0x10000) by (bit_vector);
        }
        GameVersionInfo {
            major: (ms >> 16) as u16,
            minor: (ms & 0xFFFF) as u16,
            revision: (ls >> 16) as u16,
            build: (ls & 0xFFFF) as u16,
        }
    }

    /// Whether the tool supports this version of the game: 4.37 and later 4.x.
    pub fn is_supported(&self) -> (res: bool)
        ensures
            res == (self.major == 4 && self.minor >= 37),
    {
        self.major == 4 && self.minor >= 37
    }

    /// The version as text: `v` and the four numbers, separated by dots.
    pub fn to_text(&self) -> (res: String)
        ensures
            res@ == seq!['v'] + decimal_chars(self.major as nat) + seq!['.'] + decimal_chars(self.minor as nat)
                + seq!['.'] + decimal_chars(self.revision as nat) + seq!['.'] + decimal_chars(
                self.build as nat,
            ),
    {
        let mut s = String::new();
        push_char(&mut s, 'v');
        push_decimal(&mut s, self.major as u64);
        push_char(&mut s, '.');
        push_decimal(&mut s, self.minor as u64);
        push_char(&mut s, '.');
        push_decimal(&mut s, self.revision as u64);
        push_char(&mut s, '.');
        push_decimal(&mut s, self.build as u64);
        s
    }
}

/// The kind of a game object template, by its type name.
#[derive(Clone, Copy, Debug, PartialEq, Eq)]
pub enum TemplateKind {
    GameObject,
    Scenery,
    Item,
}

/// Templates of type `item` are items, of type `scenery` scenery; all others
/// are plain game objects.
pub open spec fn template_kind_of(ty: Seq<char>) -> TemplateKind {
    if ty == "item"@ {
        TemplateKind::Item
    } else if ty == "scenery"@ {
        TemplateKind::Scenery
    } else {
        TemplateKind::GameObject
    }
}

/// A game object template: its identifiers, name and type names.
#[derive(Debug)]
pub struct GameObjectTemplate {
    pub id: FixedString,
    pub template_name: FixedString,
    pub parent_template_id: FixedString,
    pub name: String,
    pub ty: FixedString,
    pub real_ty: FixedString,
}

impl GameObjectTemplate {
    /// The template's type.
    pub fn get_type(&self) -> (res: &FixedString)
        ensures
            *res == self.ty,
    {
        &self.ty
    }

    /// The template's type before any override.
    pub fn get_real_type(&self) -> (res: &FixedString)
        ensures
            *res == self.real_ty,
    {
        &self.real_ty
    }
}

/// The kind of a template with the type named `ty`.
pub fn template_kind(ty: &str) -> (res: TemplateKind)
    ensures
        res == template_kind_of(ty@),
{
    if str_eq(ty, "item") {
        TemplateKind::Item
    } else if str_eq(ty, "scenery") {
        TemplateKind::Scenery
    } else {
        TemplateKind::GameObject
    }
}

/// Whether `needle` occurs in `hay` at position `i`.
pub open spec fn occurs_at(hay: Seq<char>, needle: Seq<char>, i: int) -> bool {
    0 <= i && i + needle.len() <= hay.len() && hay.subrange(i, i + needle.len()) == needle
}

/// Whether `needle` occurs in `hay` (`str::contains`).
pub open spec fn contains_text(hay: Seq<char>, needle: Seq<char>) -> bool {
    exists|i: int| occurs_at(hay, needle, i)
}

fn occurs_at_exec(hay: &[char], needle: &[char], i: usize) -> (res: bool)
    requires
        i + needle@.len() <= hay@.len(),
    ensures
        res == occurs_at(hay@, needle@, i as int),
{
    let hl = hay.len();
    let mut k: usize = 0;
    while k < needle.len()
        invariant
            hl == hay@.len(),
            i + needle@.len() <= hay@.len(),
            k <= needle@.len(),
            forall|j: int| 0 <= j < k ==> hay@[i + j] == needle@[j],
        decreases needle@.len() - k,
    {
        if hay[i + k] != needle[k] {
            assert(hay@.subrange(i as int, i + needle@.len())[k as int] != needle@[k as int]);
            return false;
        }
        k = k + 1;
    }
    assert(hay@.subrange(i as int, i + needle@.len()) =~= needle@);
    true
}

/// Whether `needle` occurs in `hay`.
pub fn contains(hay: &str, needle: &str) -> (res: bool)
    ensures
        res == contains_text(hay@, needle@),
{
    let h = chars_of(hay);
    let n = chars_of(needle);
    if n.len() == 0 {
        assert(hay@.subrange(0, 0) =~= needle@);
        assert(occurs_at(hay@, needle@, 0));
        return true;
    }
    if n.len() > h.len() {
        assert forall|j: int| !occurs_at(hay@, needle@, j) by {}
        return false;
    }
    let limit = h.len() - n.len() + 1;
    let mut i: usize = 0;
    while i < limit
        invariant
            h@ == hay@,
            n@ == needle@,
            1 <= n@.len() <= h@.len(),
            limit == h@.len() - n@.len() + 1,
            i <= limit,
            forall|j: int| 0 <= j < i ==> !occurs_at(hay@, needle@, j),
        decreases limit - i,
    {
        if occurs_at_exec(h.as_slice(), n.as_slice(), i) {
            return true;
        }
        i = i + 1;
    }
    assert forall|j: int| !occurs_at(hay@, needle@, j) by {
        if j >= i {
            assert(j + needle@.len() > hay@.len());
        }
    }
    false
}

/// A template of the game's template bank: its address and name.
#[derive(Debug)]
pub struct TemplateEntry {
    pub ptr: usize,
    pub name: String,
}

/// The addresses of the templates, in bank order, that are not null and whose
/// name contains `text`.
pub open spec fn matching_templates(entries: Seq<TemplateEntry>, text: Seq<char>) -> Seq<usize>
    decreases entries.len(),
{
    if entries.len() == 0 {
        Seq::empty()
    } else {
        let rest = matching_templates(entries.drop_last(), text);
        let e = entries.last();
        if e.ptr != 0 && contains_text(e.name@, text) {
            rest.push(e.ptr)
        } else {
            rest
        }
    }
}

/// The templates whose name contains `text`.
pub fn search(entries: &[TemplateEntry], text: &str) -> (res: Vec<usize>)
    ensures
        res@ == matching_templates(entries@, text@),
{
    let mut res: Vec<usize> = Vec::new();
    let mut i: usize = 0;
    while i < entries.len()
        invariant
            i <= entries@.len(),
            res@ == matching_templates(entries@.take(i as int), text@),
        decreases entries@.len() - i,
    {
        assert(entries@.take(i + 1).drop_last() =~= entries@.take(i as int));
        let e = &entries[i];
        if e.ptr != 0 && contains(e.name.as_str(), text) {
            res.push(e.ptr);
        }
        i = i + 1;
    }
    assert(entries@.take(entries@.len() as int) =~= entries@);
    res
}

/// The heads-up display: the search text and the templates found for it.
#[derive(Debug)]
pub struct Hud {
    pub text: String,
    pub search_items: Vec<usize>,
}

impl Hud {
    /// An empty search.
    pub fn new() -> (res: Hud)
        ensures
            res.text@ == Seq::<char>::empty(),
            res.search_items@ == Seq::<usize>::empty(),
    {
        Hud { text: String::new(), search_items: Vec::new() }
    }

    /// Searches the templates for the current text.
    pub fn search(&mut self, entries: &[TemplateEntry])
        ensures
            final(self).text@ == old(self).text@,
            final(self).search_items@ == matching_templates(entries@, old(self).text@),
    {
        self.search_items = search(entries, self.text.as_str());
    }
}

impl GameHash for FixedString {
    /// The header's hash, and 0 for the null entry.
    open spec fn spec_hash(&self) -> u64 {
        if self.index == FIXED_STRING_NULL_INDEX {
            0
        } else {
            self.hash as u64
        }
    }

    fn hash(&self) -> (res: u64) {
        if self.index == FIXED_STRING_NULL_INDEX {
            0
        } else {
            self.hash as u64
        }
    }

    fn key_eq(&self, other: &Self) -> (res: bool) {
        self.index == other.index && self.hash == other.hash
    }
}

/// A handle of a translated string: the string-table entry and a version
/// that lookups ignore.
#[derive(Clone, Copy, Debug)]
pub struct RuntimeStringHandle {
    pub handle: FixedString,
    pub version: u16,
}

/// A pool of translated texts by handle.
#[derive(Debug)]
pub struct TextPool {
    pub texts: MultiHashMap<FixedString, LSStringView>,
}

/// The game's translated strings: per-language pools (the first is the
/// current language), a versioned fallback pool and a fallback pool.
#[derive(Debug)]
pub struct TranslatedStringRepository {
    pub translated_strings: Vec<TextPool>,
    pub fallback_pool: TextPool,
    pub versioned_fallback_pool: TextPool,
}

/// The text stored for `key` in a pool, if any.
pub open spec fn pool_text(pool: TextPool, key: FixedString) -> Option<LSStringView> {
    match pool.texts.hash_set.lookup(key) {
        Some(i) => Some(pool.texts.values@[i]),
        None => None,
    }
}

impl TranslatedStringRepository {
    pub open spec fn wf(&self) -> bool {
        &&& self.translated_strings@.len() >= 1
        &&& self.translated_strings@[0].texts.wf()
        &&& self.fallback_pool.texts.wf()
        &&& self.versioned_fallback_pool.texts.wf()
    }

    /// The text of a handle: from the current language's pool, else the
    /// versioned fallback pool, else the fallback pool.
    pub open spec fn spec_translated(&self, key: FixedString) -> Option<LSStringView> {
        match pool_text(self.translated_strings@[0], key) {
            Some(t) => Some(t),
            None => match pool_text(self.versioned_fallback_pool, key) {
                Some(t) => Some(t),
                None => pool_text(self.fallback_pool, key),
            },
        }
    }

    pub fn translated_string(&self, handle: &RuntimeStringHandle) -> (res: Option<LSStringView>)
        requires
            self.wf(),
        ensures
            match self.spec_translated(handle.handle) {
                Some(t) => res matches Some(r) && r.text@ == t.text@,
                None => res is None,
            },
    {
        let found = match self.translated_strings[0].texts.try_get(&handle.handle) {
            Some(t) => Some(t),
            None => match self.versioned_fallback_pool.texts.try_get(&handle.handle) {
                Some(t) => Some(t),
                None => self.fallback_pool.texts.try_get(&handle.handle),
            },
        };
        match found {
            Some(t) => Some(LSStringView { text: String::from_str(t.text.as_str()) }),
            None => None,
        }
    }
}

/// A translated string of the game: its handle and its argument string.
#[derive(Clone, Copy, Debug)]
pub struct TranslatedString {
    pub handle: RuntimeStringHandle,
    pub argument_string: RuntimeStringHandle,
}

impl TranslatedString {
    /// The text in the game's repository, when it was found.
    pub fn get(&self, repo: Option<&TranslatedStringRepository>) -> (res: Option<LSStringView>)
        requires
            repo matches Some(r) ==> r.wf(),
        ensures
            match repo {
                None => res is None,
                Some(r) => match r.spec_translated(self.handle.handle) {
                    Some(t) => res matches Some(v) && v.text@ == t.text@,
                    None => res is None,
                },
            },
    {
        match repo {
            Some(r) => r.translated_string(&self.handle),
            None => None,
        }
    }
}

/// The text of the string-table entry `handle` in the game's repository.
pub fn translated_string(repo: Option<&TranslatedStringRepository>, handle: FixedString) -> (res: Option<
    LSStringView,
>)
    requires
        repo matches Some(r) ==> r.wf(),
    ensures
        match repo {
            None => res is None,
            Some(r) => match r.spec_translated(handle) {
                Some(t) => res matches Some(v) && v.text@ == t.text@,
                None => res is None,
            },
        },
{
    match repo {
        Some(r) => r.translated_string(&RuntimeStringHandle { handle, version: 0 }),
        None => None,
    }
}

} // verus!
