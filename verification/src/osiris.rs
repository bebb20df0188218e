//! The Osiris engine's function records and containers as read from game
//! memory: node links are indices into a node table.
use vstd::prelude::*;
use vstd::string::StringSliceAdditionalSpecFns;

verus! {

/// The kind of an Osiris function.
#[derive(Clone, Copy, Debug, PartialEq, Eq)]
pub enum FunctionType {
    Unknown,
    Event,
    Query,
    Call,
    Database,
    Proc,
    SysQuery,
    SysCall,
    UserQuery,
}

impl FunctionType {
    pub open spec fn spec_display_name(self) -> &'static str {
        match self {
            FunctionType::Unknown => "Unknown",
            FunctionType::Event => "Event",
            FunctionType::Query => "Query",
            FunctionType::Call => "Call",
            FunctionType::Database => "Database",
            FunctionType::Proc => "Procedure",
            FunctionType::SysQuery => "System Query",
            FunctionType::SysCall => "System Call",
            FunctionType::UserQuery => "User Query",
        }
    }

    /// The kind's name as it is shown to the user.
    pub fn display_name(self) -> (res: &'static str)
        ensures
            res == self.spec_display_name(),
    {
        match self {
            FunctionType::Unknown => "Unknown",
            FunctionType::Event => "Event",
            FunctionType::Query => "Query",
            FunctionType::Call => "Call",
            FunctionType::Database => "Database",
            FunctionType::Proc => "Procedure",
            FunctionType::SysQuery => "System Query",
            FunctionType::SysCall => "System Call",
            FunctionType::UserQuery => "User Query",
        }
    }
}

/// One parameter of a function signature.
#[derive(Clone, Copy, Debug, PartialEq, Eq)]
pub struct FunctionParamDesc {
    pub ty: u16,
    pub unknown: u32,
}

/// A node of an engine list; `next` and `head` are node indices.
#[derive(Clone, Copy, Debug)]
pub struct ListNode<T> {
    pub next: usize,
    pub head: usize,
    pub item: T,
}

/// An engine list: a ring of nodes through a head node, with its length.
#[derive(Debug)]
pub struct List<T> {
    pub nodes: Vec<ListNode<T>>,
    pub head: usize,
    pub size: u64,
}

/// The nodes visited by following `next` links `n` times from `start`.
pub open spec fn list_walk<T>(nodes: Seq<ListNode<T>>, start: int, n: nat) -> Seq<int>
    decreases n,
{
    if n == 0 {
        Seq::empty()
    } else {
        seq![start] + list_walk(nodes, nodes[start].next as int, (n - 1) as nat)
    }
}

/// Whether following `next` links `n` times from `start` stays within the nodes.
pub open spec fn list_walk_ok<T>(nodes: Seq<ListNode<T>>, start: int, n: nat) -> bool
    decreases n,
{
    n == 0 || (0 <= start < nodes.len() && list_walk_ok(nodes, nodes[start].next as int, (n - 1) as nat))
}

impl<T> List<T> {
    pub open spec fn wf(&self) -> bool {
        &&& self.head < self.nodes@.len()
        &&& list_walk_ok(self.nodes@, self.nodes@[self.head as int].next as int, self.size as nat)
    }

    /// The nodes that hold the list's items, in order.
    pub open spec fn item_nodes(&self) -> Seq<int> {
        list_walk(self.nodes@, self.nodes@[self.head as int].next as int, self.size as nat)
    }

    /// The list's items in order: `size` nodes following the head.
    pub fn iter(&self) -> (res: Vec<&T>)
        requires
            self.wf(),
        ensures
            res@.len() == self.size,
            forall|k: int| 0 <= k < res@.len() ==> *res@[k] == self.nodes@[#[trigger] self.item_nodes()[k]].item,
    {
        let mut res: Vec<&T> = Vec::new();
        let ghost start = self.nodes@[self.head as int].next as int;
        let mut cur = self.nodes[self.head].next;
        let mut left: u64 = self.size;
        let ghost n = self.size as nat;
        proof {
            lemma_walk_ok_ends(self.nodes@, start, n);
        }
        while left > 0
            invariant
                self.wf(),
                start == self.nodes@[self.head as int].next as int,
                n == self.size,
                left <= n,
                res@.len() == n - left,
                cur == walk_end(self.nodes@, start, (n - left) as nat),
                forall|m: nat| m < n ==> 0 <= #[trigger] walk_end(self.nodes@, start, m) < self.nodes@.len(),
                forall|k: int|
                    0 <= k < res@.len() ==> *res@[k] == self.nodes@[#[trigger] list_walk(
                        self.nodes@,
                        start,
                        (n - left) as nat,
                    )[k]].item,
            decreases left,
        {
            let ghost i = (n - left) as nat;
            assert(0 <= walk_end(self.nodes@, start, i) < self.nodes@.len());
            let node = &self.nodes[cur];
            res.push(&node.item);
            proof {
                lemma_walk_push(self.nodes@, start, i);
                lemma_walk_len(self.nodes@, start, i);
                lemma_walk_end_step(self.nodes@, start, i);
                let ghost w0 = list_walk(self.nodes@, start, i);
                let ghost w1 = list_walk(self.nodes@, start, i + 1);
                assert(w1 == w0.push(cur as int));
                assert forall|k: int| 0 <= k < res@.len() implies *res@[k] == self.nodes@[#[trigger] list_walk(
                    self.nodes@,
                    start,
                    i + 1,
                )[k]].item by {
                    if k < i {
                        assert(w1[k] == w0[k]);
                    } else {
                        assert(w1[k] == cur as int);
                    }
                }
            }
            cur = node.next;
            left = left - 1;
        }
        res
    }
}

/// Where following `next` links `m` times from `start` ends.
pub open spec fn walk_end<T>(nodes: Seq<ListNode<T>>, start: int, m: nat) -> int
    decreases m,
{
    if m == 0 {
        start
    } else {
        walk_end(nodes, nodes[start].next as int, (m - 1) as nat)
    }
}

proof fn lemma_walk_len<T>(nodes: Seq<ListNode<T>>, start: int, m: nat)
    ensures
        list_walk(nodes, start, m).len() == m,
    decreases m,
{
    if m > 0 {
        lemma_walk_len(nodes, nodes[start].next as int, (m - 1) as nat);
    }
}

proof fn lemma_walk_push<T>(nodes: Seq<ListNode<T>>, start: int, m: nat)
    ensures
        list_walk(nodes, start, m + 1) == list_walk(nodes, start, m).push(walk_end(nodes, start, m)),
    decreases m,
{
    reveal_with_fuel(list_walk, 2);
    if m > 0 {
        lemma_walk_push(nodes, nodes[start].next as int, (m - 1) as nat);
        assert(list_walk(nodes, start, m + 1) =~= list_walk(nodes, start, m).push(walk_end(nodes, start, m)));
    } else {
        assert(list_walk(nodes, start, 1) =~= seq![start]);
    }
}

proof fn lemma_walk_end_step<T>(nodes: Seq<ListNode<T>>, start: int, m: nat)
    ensures
        walk_end(nodes, start, m + 1) == nodes[walk_end(nodes, start, m)].next as int,
    decreases m,
{
    reveal_with_fuel(walk_end, 2);
    if m > 0 {
        lemma_walk_end_step(nodes, nodes[start].next as int, (m - 1) as nat);
    }
}

proof fn lemma_walk_ok_ends<T>(nodes: Seq<ListNode<T>>, start: int, n: nat)
    requires
        list_walk_ok(nodes, start, n),
    ensures
        forall|m: nat| m < n ==> 0 <= #[trigger] walk_end(nodes, start, m) < nodes.len(),
    decreases n,
{
    if n > 0 {
        lemma_walk_ok_ends(nodes, nodes[start].next as int, (n - 1) as nat);
        assert forall|m: nat| m < n implies 0 <= #[trigger] walk_end(nodes, start, m) < nodes.len() by {
            if m > 0 {
                assert(walk_end(nodes, start, m) == walk_end(nodes, nodes[start].next as int, (m - 1) as nat));
            }
        }
    }
}

/// The bit of an out-parameter bitmap that marks parameter `i`: bytes in order,
/// most significant bit first.
pub open spec fn out_bit(params: Seq<u8>, i: int) -> bool {
    (params[i / 8] >> ((7 - i % 8) as u8)) & 1 == 1
}

/// The number of set bits of a byte.
pub open spec fn popcount(x: nat) -> nat
    decreases x,
{
    if x == 0 {
        0
    } else {
        x % 2 + popcount(x / 2)
    }
}

/// The number of set bits over the first `k` bytes.
pub open spec fn popcount_prefix(params: Seq<u8>, k: int) -> nat
    decreases k,
{
    if k <= 0 {
        0
    } else {
        popcount_prefix(params, k - 1) + popcount(params[k - 1] as nat)
    }
}

proof fn lemma_popcount_byte(x: nat)
    requires
        x < 256,
    ensures
        popcount(x) <= 8,
{
    let x1 = x / 2;
    let x2 = x1 / 2;
    let x3 = x2 / 2;
    let x4 = x3 / 2;
    let x5 = x4 / 2;
    let x6 = x5 / 2;
    let x7 = x6 / 2;
    let x8 = x7 / 2;
    assert(x8 == 0);
    assert(popcount(x8) == 0);
    assert(popcount(x7) <= 1);
    assert(popcount(x6) <= 2);
    assert(popcount(x5) <= 3);
    assert(popcount(x4) <= 4);
    assert(popcount(x3) <= 5);
    assert(popcount(x2) <= 6);
    assert(popcount(x1) <= 7);
}

/// Which parameters of a function are out parameters, as a bitmap.
#[derive(Debug)]
pub struct FuncSigOutParamList {
    pub params: Vec<u8>,
    pub count: u32,
}

impl FuncSigOutParamList {
    pub open spec fn wf(&self) -> bool {
        &&& self.params@.len() == self.count
        &&& self.count * 8 <= u32::MAX
    }

    /// The number of out parameters.
    pub fn num_out_params(&self) -> (res: u32)
        requires
            self.wf(),
        ensures
            res == popcount_prefix(self.params@, self.count as int),
    {
        let mut n_params: u32 = 0;
        let mut i: u32 = 0;
        while i < self.count
            invariant
                self.wf(),
                i <= self.count,
                n_params == popcount_prefix(self.params@, i as int),
                n_params <= 8 * i,
            decreases self.count - i,
        {
            let b = self.params[i as usize];
            let c = count_ones_u8(b);
            n_params = n_params + c;
            i = i + 1;
        }
        n_params
    }

    /// Whether parameter `i` is an out parameter.
    pub fn is_out_param(&self, i: usize) -> (res: bool)
        requires
            self.wf(),
            i < self.count * 8,
        ensures
            res == out_bit(self.params@, i as int),
    {
        proof {
            assert(i >> 3 == i / 8) by (bit_vector);
            assert(i & 7 == i % 8) by (bit_vector);
        }
        let b = self.params[i >> 3];
        let s = (i & 7) as u8;
        proof {
            lemma_shifted_top_bit(b, s);
        }
        ((b << s) & 0x80) == 0x80
    }
}

proof fn lemma_shifted_top_bit(b: u8, s: u8)
    requires
        s < 8,
    ensures
        (((b << s) & 0x80) == 0x80) == ((b >> (7 - s) as u8) & 1 == 1),
{
    assert((((b << s) & 0x80) == 0x80) == ((b >> (7 - s) as u8) & 1 == 1)) by (bit_vector)
        requires
            s < 8,
    ;
}

/// The number of set bits of a byte (`u8::count_ones`).
fn count_ones_u8(b: u8) -> (res: u32)
    ensures
        res == popcount(b as nat),
        res <= 8,
{
    let mut x = b;
    let mut c: u32 = 0;
    let mut steps: u32 = 0;
    proof {
        lemma_popcount_byte(b as nat);
    }
    while x > 0
        invariant
            c + popcount(x as nat) == popcount(b as nat),
            popcount(b as nat) <= 8,
        decreases x,
    {
        c = c + x as u32 % 2;
        x = x / 2;
    }
    c
}

/// The signature of a function: its parameters and which are out parameters.
#[derive(Debug)]
pub struct FunctionSignature {
    pub params: List<FunctionParamDesc>,
    pub out_param_list: FuncSigOutParamList,
}

/// An Osiris function record.
#[derive(Debug)]
pub struct Function {
    pub line: u32,
    pub signature: FunctionSignature,
    pub ty: FunctionType,
    pub key: [u32; 4],
    pub osi_function_id: u32,
}

/// The call handle of a function with the given key: the type's low three bits,
/// then the function id (25 bits for types below 4; otherwise 17 bits of id and
/// the low byte of the second key part at bit 20), and the last key part's low
/// bit as bit 31.
pub open spec fn handle_of(key: Seq<u32>) -> u32 {
    let ty = key[0];
    let part2 = key[1];
    let function_id = key[2];
    let part4 = key[3];
    if ty < 4 {
        (ty & 7) | (part4 << 31u32) | ((function_id & 0x1FFFFFF) << 3u32)
    } else {
        (ty & 7) | (part4 << 31u32) | (((function_id & 0x1FFFF) << 3u32) | ((part2 & 0xFF) << 20u32))
    }
}

impl Function {
    /// A record whose parameter list can be walked and whose out-parameter
    /// bitmap covers every parameter.
    pub open spec fn wf(&self) -> bool {
        &&& self.signature.params.wf()
        &&& self.signature.out_param_list.wf()
        &&& self.signature.params.size <= self.signature.out_param_list.count * 8
    }

    /// The handle by which the engine calls this function.
    pub fn handle(&self) -> (res: u32)
        ensures
            res == handle_of(self.key@),
    {
        let ty = self.key[0];
        let part2 = self.key[1];
        let function_id = self.key[2];
        let part4 = self.key[3];
        let mut handle = (ty & 7) | (part4 << 31u32);
        if ty < 4 {
            handle = handle | ((function_id & 0x1FFFFFF) << 3u32);
        } else {
            handle = handle | (((function_id & 0x1FFFF) << 3u32) | ((part2 & 0xFF) << 20u32));
        }
        handle
    }
}


/// The engine's string: a buffer holding the characters and a terminating nul,
/// with its length and capacity (buffers of capacity 15 are stored inline).
#[derive(Debug)]
pub struct OsiStr {
    pub buf: Vec<u8>,
    pub size: usize,
    pub capacity: usize,
}

/// The bytes before the first nul.
pub open spec fn c_bytes(buf: Seq<u8>) -> Seq<u8>
    decreases buf.len(),
{
    if buf.len() == 0 || buf[0] == 0 {
        Seq::empty()
    } else {
        seq![buf[0]] + c_bytes(buf.drop_first())
    }
}

/// `a` sorts before `b` byte by byte, a proper prefix first.
pub open spec fn lex_lt(a: Seq<u8>, b: Seq<u8>) -> bool
    decreases a.len(),
{
    if b.len() == 0 {
        false
    } else if a.len() == 0 {
        true
    } else if a[0] != b[0] {
        a[0] < b[0]
    } else {
        lex_lt(a.drop_first(), b.drop_first())
    }
}

proof fn lemma_c_bytes_prefix(buf: Seq<u8>, k: int)
    requires
        0 <= k <= buf.len(),
        forall|j: int| 0 <= j < k ==> buf[j] != 0,
        k == buf.len() || buf[k] == 0,
    ensures
        c_bytes(buf) == buf.take(k),
    decreases buf.len(),
{
    if buf.len() == 0 || buf[0] == 0 {
        assert(buf.take(k) =~= Seq::<u8>::empty());
    } else {
        lemma_c_bytes_prefix(buf.drop_first(), k - 1);
        assert(buf.take(k) =~= seq![buf[0]] + buf.drop_first().take(k - 1));
    }
}

/// The bytes of `buf` before its first nul (all of them when it holds none).
pub fn bytes_before_nul(buf: &[u8]) -> (res: &[u8])
    ensures
        res@ == c_bytes(buf@),
{
    let mut k: usize = 0;
    while k < buf.len() && buf[k] != 0
        invariant
            k <= buf@.len(),
            forall|j: int| 0 <= j < k ==> buf@[j] != 0,
        decreases buf@.len() - k,
    {
        k = k + 1;
    }
    proof {
        lemma_c_bytes_prefix(buf@, k as int);
    }
    let res = buf.split_at(k).0;
    assert(res@ =~= buf@.take(k as int));
    res
}

impl OsiStr {
    /// Inline buffers have capacity 15; larger strings live on the heap.
    pub open spec fn spec_is_large_mode(&self) -> bool {
        self.capacity > 15
    }

    pub fn is_large_mode(&self) -> (res: bool)
        ensures
            res == self.spec_is_large_mode(),
    {
        self.capacity > 15
    }

    /// The string's bytes up to the terminating nul.
    pub fn as_cstr(&self) -> (res: &[u8])
        ensures
            res@ == c_bytes(self.buf@),
    {
        bytes_before_nul(self.buf.as_slice())
    }

    /// The string as text; it must be valid UTF-8.
    pub fn as_str(&self) -> (res: &str)
        requires
            vstd::utf8::valid_utf8(c_bytes(self.buf@)),
        ensures
            res.spec_bytes() == c_bytes(self.buf@),
    {
        let b = self.as_cstr();
        match str_from_utf8(b) {
            Some(s) => s,
            None => "",
        }
    }
}

/// `std::str::from_utf8`: the text that the bytes encode, when they are valid
/// UTF-8.
#[verifier::external_body]
pub(crate) fn str_from_utf8(b: &[u8]) -> (res: Option<&str>)
    ensures
        res is Some <==> vstd::utf8::valid_utf8(b@),
        res matches Some(s) ==> s.spec_bytes() == b@,
{
    std::str::from_utf8(b).ok()
}

/// An owned engine string.
#[derive(Debug)]
pub struct OsiString {
    pub str: OsiStr,
}

impl OsiString {
    /// An engine string holding `bytes`: inline (capacity 15, buffer padded with
    /// nuls to 16 bytes) when shorter than 16 bytes, otherwise with a buffer of
    /// the bytes and a nul and capacity equal to the length.
    pub fn from_bytes(bytes: &[u8]) -> (res: OsiString)
        ensures
            res.str.size == bytes@.len(),
            bytes@.len() < 16 ==> res.str.capacity == 15 && res.str.buf@ == bytes@ + Seq::new(
                (16 - bytes@.len()) as nat,
                |i: int| 0u8,
            ),
            bytes@.len() >= 16 ==> res.str.capacity == bytes@.len() && res.str.buf@ == bytes@.push(0),
    {
        let mut buf: Vec<u8> = Vec::new();
        let mut i: usize = 0;
        while i < bytes.len()
            invariant
                i <= bytes@.len(),
                buf@ == bytes@.take(i as int),
            decreases bytes@.len() - i,
        {
            buf.push(bytes[i]);
            i = i + 1;
            assert(buf@ =~= bytes@.take(i as int));
        }
        assert(bytes@.take(bytes@.len() as int) =~= bytes@);
        if bytes.len() < 16 {
            let ghost content = buf@;
            while buf.len() < 16
                invariant
                    content == bytes@,
                    bytes@.len() <= buf@.len() <= 16,
                    buf@ == content + Seq::new((buf@.len() - content.len()) as nat, |i: int| 0u8),
                decreases 16 - buf@.len(),
            {
                buf.push(0);
                assert(buf@ =~= content + Seq::new((buf@.len() - content.len()) as nat, |i: int| 0u8));
            }
            OsiString { str: OsiStr { buf, size: bytes.len(), capacity: 15 } }
        } else {
            buf.push(0);
            OsiString { str: OsiStr { buf, size: bytes.len(), capacity: bytes.len() } }
        }
    }
}

/// Keys ordered the way the engine's trees compare them.
pub trait TreeKey: Sized {
    spec fn spec_lt(&self, other: &Self) -> bool;

    fn lt(&self, other: &Self) -> (res: bool)
        ensures
            res == self.spec_lt(other),
    ;

    /// No key sorts before itself.
    proof fn lemma_lt_irreflexive(a: Self)
        ensures
            !a.spec_lt(&a),
    ;

    /// The order is transitive.
    proof fn lemma_lt_transitive(a: Self, b: Self, c: Self)
        requires
            a.spec_lt(&b),
            b.spec_lt(&c),
        ensures
            a.spec_lt(&c),
    ;

    /// Any key lies after the smaller or before the greater of two ordered
    /// keys, so keys that sort neither way behave as one.
    proof fn lemma_lt_comparable(a: Self, b: Self, c: Self)
        requires
            a.spec_lt(&c),
        ensures
            a.spec_lt(&b) || b.spec_lt(&c),
    ;
}

/// Neither key sorts before the other: the tree takes them for the same key.
pub open spec fn same_key<K: TreeKey>(a: K, b: K) -> bool {
    !a.spec_lt(&b) && !b.spec_lt(&a)
}

impl TreeKey for u32 {
    open spec fn spec_lt(&self, other: &Self) -> bool {
        *self < *other
    }

    fn lt(&self, other: &Self) -> (res: bool) {
        *self < *other
    }

    proof fn lemma_lt_irreflexive(a: Self) {
    }

    proof fn lemma_lt_transitive(a: Self, b: Self, c: Self) {
    }

    proof fn lemma_lt_comparable(a: Self, b: Self, c: Self) {
    }
}

proof fn lemma_lex_lt_irreflexive(a: Seq<u8>)
    ensures
        !lex_lt(a, a),
    decreases a.len(),
{
    if a.len() > 0 {
        lemma_lex_lt_irreflexive(a.drop_first());
    }
}

proof fn lemma_lex_lt_transitive(a: Seq<u8>, b: Seq<u8>, c: Seq<u8>)
    requires
        lex_lt(a, b),
        lex_lt(b, c),
    ensures
        lex_lt(a, c),
    decreases a.len(),
{
    if a.len() > 0 && b.len() > 0 && c.len() > 0 && a[0] == b[0] && b[0] == c[0] {
        lemma_lex_lt_transitive(a.drop_first(), b.drop_first(), c.drop_first());
    }
}

proof fn lemma_lex_lt_total(a: Seq<u8>, b: Seq<u8>)
    requires
        a != b,
    ensures
        lex_lt(a, b) || lex_lt(b, a),
    decreases a.len(),
{
    if a.len() > 0 && b.len() > 0 && a[0] == b[0] {
        assert(a =~= seq![a[0]] + a.drop_first());
        assert(b =~= seq![b[0]] + b.drop_first());
        lemma_lex_lt_total(a.drop_first(), b.drop_first());
    } else if a.len() == 0 && b.len() == 0 {
        assert(a =~= b);
    }
}

pub(crate) fn lex_lt_slices(a: &[u8], b: &[u8]) -> (res: bool)
    ensures
        res == lex_lt(a@, b@),
{
    let mut i: usize = 0;
    assert(a@.skip(0) =~= a@);
    assert(b@.skip(0) =~= b@);
    while i < a.len() && i < b.len() && a[i] == b[i]
        invariant
            i <= a@.len(),
            i <= b@.len(),
            lex_lt(a@, b@) == lex_lt(a@.skip(i as int), b@.skip(i as int)),
        decreases a@.len() - i,
    {
        assert(a@.skip(i as int).drop_first() =~= a@.skip(i + 1));
        assert(b@.skip(i as int).drop_first() =~= b@.skip(i + 1));
        i = i + 1;
    }
    if i == b.len() {
        assert(b@.skip(i as int).len() == 0);
        false
    } else if i == a.len() {
        assert(a@.skip(i as int).len() == 0);
        true
    } else {
        assert(a@.skip(i as int)[0] == a@[i as int]);
        assert(b@.skip(i as int)[0] == b@[i as int]);
        a[i] < b[i]
    }
}

impl TreeKey for OsiStr {
    /// Engine strings compare as C strings: by their bytes before the nul.
    open spec fn spec_lt(&self, other: &Self) -> bool {
        lex_lt(c_bytes(self.buf@), c_bytes(other.buf@))
    }

    fn lt(&self, other: &Self) -> (res: bool) {
        lex_lt_slices(self.as_cstr(), other.as_cstr())
    }

    proof fn lemma_lt_irreflexive(a: Self) {
        lemma_lex_lt_irreflexive(c_bytes(a.buf@));
    }

    proof fn lemma_lt_transitive(a: Self, b: Self, c: Self) {
        lemma_lex_lt_transitive(c_bytes(a.buf@), c_bytes(b.buf@), c_bytes(c.buf@));
    }

    proof fn lemma_lt_comparable(a: Self, b: Self, c: Self) {
        let (x, y, z) = (c_bytes(a.buf@), c_bytes(b.buf@), c_bytes(c.buf@));
        if !lex_lt(x, y) && x != y {
            lemma_lex_lt_total(x, y);
            lemma_lex_lt_transitive(y, x, z);
        }
    }
}

/// A node of an engine red-black tree; links are node indices, and a node with
/// `is_root` set is the tree's sentinel.
#[derive(Debug)]
pub struct TMapNode<K, V> {
    pub left: usize,
    pub root: usize,
    pub right: usize,
    pub color: bool,
    pub is_root: bool,
    pub key: K,
    pub value: V,
}

/// An engine tree map: `root` is the sentinel node, whose `root` link is the
/// top of the tree.
#[derive(Debug)]
pub struct TMap<K, V> {
    pub nodes: Vec<TMapNode<K, V>>,
    pub root: usize,
}

/// Whether every descent from `i` reaches a sentinel within `fuel` steps.
pub open spec fn descends_ok<K, V>(nodes: Seq<TMapNode<K, V>>, i: int, fuel: nat) -> bool
    decreases fuel,
{
    0 <= i < nodes.len() && (nodes[i].is_root || (fuel > 0 && descends_ok(
        nodes,
        nodes[i].left as int,
        (fuel - 1) as nat,
    ) && descends_ok(nodes, nodes[i].right as int, (fuel - 1) as nat)))
}

/// The lower-bound descent for `key`: go right past smaller keys, otherwise
/// remember the node and go left; the last node remembered.
pub open spec fn tmap_search<K: TreeKey, V>(
    nodes: Seq<TMapNode<K, V>>,
    key: K,
    cur: int,
    fin: int,
    fuel: nat,
) -> int
    decreases fuel,
{
    if fuel == 0 || !(0 <= cur < nodes.len()) || nodes[cur].is_root {
        fin
    } else if nodes[cur].key.spec_lt(&key) {
        tmap_search(nodes, key, nodes[cur].right as int, fin, (fuel - 1) as nat)
    } else {
        tmap_search(nodes, key, nodes[cur].left as int, cur, (fuel - 1) as nat)
    }
}

/// The nodes of the tree below `i` in pre-order, without sentinels.
pub open spec fn preorder<K, V>(nodes: Seq<TMapNode<K, V>>, i: int, fuel: nat) -> Seq<int>
    decreases fuel,
{
    if fuel == 0 || !(0 <= i < nodes.len()) || nodes[i].is_root {
        Seq::empty()
    } else {
        seq![i] + preorder(nodes, nodes[i].left as int, (fuel - 1) as nat) + preorder(
            nodes,
            nodes[i].right as int,
            (fuel - 1) as nat,
        )
    }
}

proof fn lemma_preorder_in_range<K, V>(nodes: Seq<TMapNode<K, V>>, i: int, fuel: nat)
    ensures
        forall|k: int|
            0 <= k < preorder(nodes, i, fuel).len() ==> 0 <= #[trigger] preorder(nodes, i, fuel)[k] < nodes.len(),
    decreases fuel,
{
    if !(fuel == 0 || !(0 <= i < nodes.len()) || nodes[i].is_root) {
        let pl = preorder(nodes, nodes[i].left as int, (fuel - 1) as nat);
        let pr = preorder(nodes, nodes[i].right as int, (fuel - 1) as nat);
        lemma_preorder_in_range(nodes, nodes[i].left as int, (fuel - 1) as nat);
        lemma_preorder_in_range(nodes, nodes[i].right as int, (fuel - 1) as nat);
        let p = preorder(nodes, i, fuel);
        assert(p == seq![i] + pl + pr);
        assert forall|k: int| 0 <= k < p.len() implies 0 <= #[trigger] p[k] < nodes.len() by {
            if k == 0 {
            } else if k < 1 + pl.len() {
                assert(p[k] == pl[k - 1]);
            } else {
                assert(p[k] == pr[k - 1 - pl.len()]);
            }
        }
    }
}

/// The nodes below `i` form a search tree: every key of a left subtree sorts
/// before its node's key, which sorts before every key of its right subtree.
pub open spec fn search_tree_ok<K: TreeKey, V>(nodes: Seq<TMapNode<K, V>>, i: int, fuel: nat) -> bool
    decreases fuel,
{
    if fuel == 0 || !(0 <= i < nodes.len()) || nodes[i].is_root {
        true
    } else {
        let l = nodes[i].left as int;
        let r = nodes[i].right as int;
        &&& forall|j: int|
            #[trigger] preorder(nodes, l, (fuel - 1) as nat).contains(j) ==> nodes[j].key.spec_lt(
                &nodes[i].key,
            )
        &&& forall|j: int|
            #[trigger] preorder(nodes, r, (fuel - 1) as nat).contains(j) ==> nodes[i].key.spec_lt(
                &nodes[j].key,
            )
        &&& search_tree_ok(nodes, l, (fuel - 1) as nat)
        &&& search_tree_ok(nodes, r, (fuel - 1) as nat)
    }
}

proof fn lemma_preorder_split<K, V>(nodes: Seq<TMapNode<K, V>>, i: int, fuel: nat)
    requires
        fuel > 0,
        0 <= i < nodes.len(),
        !nodes[i].is_root,
    ensures
        ({
            let p = preorder(nodes, i, fuel);
            let pl = preorder(nodes, nodes[i].left as int, (fuel - 1) as nat);
            let pr = preorder(nodes, nodes[i].right as int, (fuel - 1) as nat);
            &&& p == seq![i] + pl + pr
            &&& p.contains(i)
            &&& forall|j: int| pl.contains(j) ==> p.contains(j)
            &&& forall|j: int| pr.contains(j) ==> p.contains(j)
            &&& forall|j: int| p.contains(j) ==> j == i || pl.contains(j) || pr.contains(j)
        }),
{
    let p = preorder(nodes, i, fuel);
    let pl = preorder(nodes, nodes[i].left as int, (fuel - 1) as nat);
    let pr = preorder(nodes, nodes[i].right as int, (fuel - 1) as nat);
    assert(p == seq![i] + pl + pr);
    assert(p[0] == i);
    assert forall|j: int| pl.contains(j) implies p.contains(j) by {
        let x = choose|x: int| 0 <= x < pl.len() && pl[x] == j;
        assert(p[1 + x] == j);
    }
    assert forall|j: int| pr.contains(j) implies p.contains(j) by {
        let x = choose|x: int| 0 <= x < pr.len() && pr[x] == j;
        assert(p[1 + pl.len() + x] == j);
    }
    assert forall|j: int| p.contains(j) implies j == i || pl.contains(j) || pr.contains(j) by {
        let x = choose|x: int| 0 <= x < p.len() && p[x] == j;
        if x == 0 {
        } else if x < 1 + pl.len() {
            assert(pl[x - 1] == j);
        } else {
            assert(pr[x - 1 - pl.len()] == j);
        }
    }
}

proof fn lemma_preorder_real<K, V>(nodes: Seq<TMapNode<K, V>>, i: int, fuel: nat)
    ensures
        forall|j: int|
            #[trigger] preorder(nodes, i, fuel).contains(j) ==> 0 <= j < nodes.len() && !nodes[j].is_root,
    decreases fuel,
{
    if !(fuel == 0 || !(0 <= i < nodes.len()) || nodes[i].is_root) {
        lemma_preorder_split(nodes, i, fuel);
        lemma_preorder_real(nodes, nodes[i].left as int, (fuel - 1) as nat);
        lemma_preorder_real(nodes, nodes[i].right as int, (fuel - 1) as nat);
    }
}

proof fn lemma_preorder_no_duplicates<K: TreeKey, V>(nodes: Seq<TMapNode<K, V>>, i: int, fuel: nat)
    requires
        search_tree_ok(nodes, i, fuel),
    ensures
        preorder(nodes, i, fuel).no_duplicates(),
    decreases fuel,
{
    if !(fuel == 0 || !(0 <= i < nodes.len()) || nodes[i].is_root) {
        let l = nodes[i].left as int;
        let r = nodes[i].right as int;
        let f = (fuel - 1) as nat;
        lemma_preorder_split(nodes, i, fuel);
        lemma_preorder_no_duplicates(nodes, l, f);
        lemma_preorder_no_duplicates(nodes, r, f);
        let p = preorder(nodes, i, fuel);
        let pl = preorder(nodes, l, f);
        let pr = preorder(nodes, r, f);
        K::lemma_lt_irreflexive(nodes[i].key);
        assert(!pl.contains(i));
        assert(!pr.contains(i));
        assert forall|j: int| pl.contains(j) implies !pr.contains(j) by {
            if pr.contains(j) {
                K::lemma_lt_transitive(nodes[j].key, nodes[i].key, nodes[j].key);
                K::lemma_lt_irreflexive(nodes[j].key);
            }
        }
        assert forall|a: int, b: int| 0 <= a < p.len() && 0 <= b < p.len() && a != b implies p[a] != p[b] by {
            if a == 0 && b != 0 {
                if b < 1 + pl.len() {
                    assert(pl[b - 1] == p[b]);
                } else {
                    assert(pr[b - 1 - pl.len()] == p[b]);
                }
            } else if b == 0 && a != 0 {
                if a < 1 + pl.len() {
                    assert(pl[a - 1] == p[a]);
                } else {
                    assert(pr[a - 1 - pl.len()] == p[a]);
                }
            } else if a != 0 && b != 0 {
                if a < 1 + pl.len() && b < 1 + pl.len() {
                    assert(pl[a - 1] == p[a]);
                    assert(pl[b - 1] == p[b]);
                } else if a >= 1 + pl.len() && b >= 1 + pl.len() {
                    assert(pr[a - 1 - pl.len()] == p[a]);
                    assert(pr[b - 1 - pl.len()] == p[b]);
                } else if a < 1 + pl.len() {
                    assert(pl[a - 1] == p[a]);
                    assert(pr[b - 1 - pl.len()] == p[b]);
                    assert(pl.contains(p[a]));
                    assert(pr.contains(p[b]));
                } else {
                    assert(pr[a - 1 - pl.len()] == p[a]);
                    assert(pl[b - 1] == p[b]);
                    assert(pr.contains(p[a]));
                    assert(pl.contains(p[b]));
                }
            }
        }
    }
}

/// A descent through keys that all sort before the key never settles on a
/// node.
proof fn lemma_search_passes_smaller<K: TreeKey, V>(
    nodes: Seq<TMapNode<K, V>>,
    key: K,
    cur: int,
    fin: int,
    fuel: nat,
)
    requires
        descends_ok(nodes, cur, fuel),
        forall|j: int| #[trigger] preorder(nodes, cur, fuel).contains(j) ==> nodes[j].key.spec_lt(&key),
    ensures
        tmap_search(nodes, key, cur, fin, fuel) == fin,
    decreases fuel,
{
    if !nodes[cur].is_root {
        lemma_preorder_split(nodes, cur, fuel);
        lemma_search_passes_smaller(nodes, key, nodes[cur].right as int, fin, (fuel - 1) as nat);
    }
}

/// In a search tree the descent settles on the node holding the key.
proof fn lemma_search_finds<K: TreeKey, V>(
    nodes: Seq<TMapNode<K, V>>,
    key: K,
    cur: int,
    fin: int,
    fuel: nat,
    k: int,
)
    requires
        descends_ok(nodes, cur, fuel),
        search_tree_ok(nodes, cur, fuel),
        preorder(nodes, cur, fuel).contains(k),
        same_key(nodes[k].key, key),
    ensures
        tmap_search(nodes, key, cur, fin, fuel) == k,
    decreases fuel,
{
    let f = (fuel - 1) as nat;
    let l = nodes[cur].left as int;
    let r = nodes[cur].right as int;
    lemma_preorder_split(nodes, cur, fuel);
    let pl = preorder(nodes, l, f);
    let pr = preorder(nodes, r, f);
    if k == cur {
        assert forall|j: int| #[trigger] pl.contains(j) implies nodes[j].key.spec_lt(&key) by {
            K::lemma_lt_comparable(nodes[j].key, key, nodes[cur].key);
        }
        lemma_search_passes_smaller(nodes, key, l, cur, f);
    } else if pl.contains(k) {
        if nodes[cur].key.spec_lt(&key) {
            K::lemma_lt_transitive(nodes[k].key, nodes[cur].key, key);
        }
        lemma_search_finds(nodes, key, l, cur, f, k);
    } else {
        K::lemma_lt_comparable(nodes[cur].key, key, nodes[k].key);
        lemma_search_finds(nodes, key, r, fin, f, k);
    }
}

/// Where no node holds the key, the descent settles on the node it started
/// from, or on a node whose key sorts after the key.
proof fn lemma_search_misses<K: TreeKey, V>(
    nodes: Seq<TMapNode<K, V>>,
    key: K,
    cur: int,
    fin: int,
    fuel: nat,
)
    requires
        descends_ok(nodes, cur, fuel),
        forall|j: int| #[trigger] preorder(nodes, cur, fuel).contains(j) ==> !same_key(nodes[j].key, key),
    ensures
        ({
            let res = tmap_search(nodes, key, cur, fin, fuel);
            res == fin || (preorder(nodes, cur, fuel).contains(res) && key.spec_lt(&nodes[res].key))
        }),
    decreases fuel,
{
    if !nodes[cur].is_root {
        let f = (fuel - 1) as nat;
        lemma_preorder_split(nodes, cur, fuel);
        if nodes[cur].key.spec_lt(&key) {
            lemma_search_misses(nodes, key, nodes[cur].right as int, fin, f);
        } else {
            lemma_search_misses(nodes, key, nodes[cur].left as int, cur, f);
        }
    }
}

impl<K: TreeKey, V> TMap<K, V> {
    /// The tree's nodes in the order `iter` walks them.
    pub open spec fn walk(&self) -> Seq<int> {
        preorder(self.nodes@, self.nodes@[self.root as int].root as int, self.nodes@.len() as nat)
    }

    pub open spec fn wf(&self) -> bool {
        &&& self.root < self.nodes@.len()
        &&& descends_ok(self.nodes@, self.nodes@[self.root as int].root as int, self.nodes@.len() as nat)
    }

    /// The node that `find` settles on.
    pub open spec fn search(&self, key: K) -> int {
        tmap_search(
            self.nodes@,
            key,
            self.nodes@[self.root as int].root as int,
            self.root as int,
            self.nodes@.len() as nat,
        )
    }

    /// The node `find` answers with: where the lower-bound descent ends,
    /// unless that is the sentinel or its key sorts after the key.
    pub open spec fn found(&self, key: K) -> Option<int> {
        let f = self.search(key);
        if f == self.root || key.spec_lt(&self.nodes@[f].key) {
            None
        } else {
            Some(f)
        }
    }

    /// The sentinel is a sentinel and the nodes below it form a search tree.
    pub open spec fn is_search_tree(&self) -> bool {
        &&& self.nodes@[self.root as int].is_root
        &&& search_tree_ok(self.nodes@, self.nodes@[self.root as int].root as int, self.nodes@.len() as nat)
    }

    /// The value of the node with `key`: the node where the lower-bound descent
    /// ends, unless that is the sentinel or its key is greater.
    pub fn find(&self, key: &K) -> (res: Option<&V>)
        requires
            self.wf(),
        ensures
            ({
                let f = self.search(*key);
                if f == self.root || key.spec_lt(&self.nodes@[f].key) {
                    res is None
                } else {
                    res == Some(&self.nodes@[f].value)
                }
            }),
            match self.found(*key) {
                Some(f) => res == Some(&self.nodes@[f].value),
                None => res is None,
            },
    {
        let mut final_tree_node = self.root;
        let mut current_tree_node = self.nodes[self.root].root;
        let ghost mut fuel: nat = self.nodes@.len() as nat;
        while !self.nodes[current_tree_node].is_root
            invariant
                self.wf(),
                final_tree_node < self.nodes@.len(),
                descends_ok(self.nodes@, current_tree_node as int, fuel),
                self.search(*key) == tmap_search(
                    self.nodes@,
                    *key,
                    current_tree_node as int,
                    final_tree_node as int,
                    fuel,
                ),
            decreases fuel,
        {
            let node = &self.nodes[current_tree_node];
            if node.key.lt(key) {
                current_tree_node = node.right;
            } else {
                final_tree_node = current_tree_node;
                current_tree_node = node.left;
            }
            proof {
                fuel = (fuel - 1) as nat;
            }
        }
        if final_tree_node == self.root || key.lt(&self.nodes[final_tree_node].key) {
            None
        } else {
            Some(&self.nodes[final_tree_node].value)
        }
    }

    fn collect_preorder<'a>(&'a self, i: usize, Ghost(fuel): Ghost<nat>, out: &mut Vec<&'a TMapNode<K, V>>)
        requires
            descends_ok(self.nodes@, i as int, fuel),
        ensures
            final(out)@.len() == old(out)@.len() + preorder(self.nodes@, i as int, fuel).len(),
            forall|k: int| 0 <= k < old(out)@.len() ==> final(out)@[k] == old(out)@[k],
            forall|k: int|
                0 <= k < preorder(self.nodes@, i as int, fuel).len() ==> final(out)@[old(out)@.len() + k]
                    == &self.nodes@[#[trigger] preorder(self.nodes@, i as int, fuel)[k]],
        decreases fuel,
    {
        let node = &self.nodes[i];
        if node.is_root {
            return;
        }
        let ghost before = out@;
        out.push(node);
        let ghost mid1 = out@;
        self.collect_preorder(node.left, Ghost((fuel - 1) as nat), out);
        let ghost mid2 = out@;
        self.collect_preorder(node.right, Ghost((fuel - 1) as nat), out);
        proof {
            let pl = preorder(self.nodes@, node.left as int, (fuel - 1) as nat);
            let pr = preorder(self.nodes@, node.right as int, (fuel - 1) as nat);
            let p = preorder(self.nodes@, i as int, fuel);
            assert(p == seq![i as int] + pl + pr);
            assert forall|k: int| 0 <= k < p.len() implies out@[before.len() + k]
                == &self.nodes@[#[trigger] p[k]] by {
                if k == 0 {
                } else if k < 1 + pl.len() {
                    assert(p[k] == pl[k - 1]);
                    assert(out@[before.len() + k] == mid2[mid1.len() + (k - 1)]);
                } else {
                    assert(p[k] == pr[k - 1 - pl.len()]);
                }
            }
        }
    }

    /// The tree's nodes in pre-order (node, left subtree, right subtree),
    /// sentinels left out.
    pub fn iter(&self) -> (res: Vec<&TMapNode<K, V>>)
        requires
            self.wf(),
        ensures
            ({
                let p = preorder(
                    self.nodes@,
                    self.nodes@[self.root as int].root as int,
                    self.nodes@.len() as nat,
                );
                &&& res@.len() == p.len()
                &&& forall|k: int| 0 <= k < p.len() ==> res@[k] == &self.nodes@[#[trigger] p[k]]
            }),
    {
        let mut out: Vec<&TMapNode<K, V>> = Vec::new();
        let top = self.nodes[self.root].root;
        self.collect_preorder(top, Ghost(self.nodes@.len() as nat), &mut out);
        out
    }
}

/// Node `j` is a node of the tree, not a sentinel.
pub open spec fn real_node<K, V>(nodes: Seq<TMapNode<K, V>>, j: int) -> bool {
    0 <= j < nodes.len() && !nodes[j].is_root
}

/// The nodes below `i` form a tree: each real child's `root` link names its
/// node, and a node's two real children are different nodes.
pub open spec fn tree_shape_ok<K, V>(nodes: Seq<TMapNode<K, V>>, i: int, fuel: nat) -> bool
    decreases fuel,
{
    if fuel == 0 || !(0 <= i < nodes.len()) || nodes[i].is_root {
        true
    } else {
        let l = nodes[i].left as int;
        let r = nodes[i].right as int;
        &&& real_node(nodes, l) ==> nodes[l].root == i
        &&& real_node(nodes, r) ==> nodes[r].root == i
        &&& real_node(nodes, l) && real_node(nodes, r) ==> l != r
        &&& tree_shape_ok(nodes, l, (fuel - 1) as nat)
        &&& tree_shape_ok(nodes, r, (fuel - 1) as nat)
    }
}

/// The node reached from `j` by following `root` links `k` times.
pub open spec fn up<K, V>(nodes: Seq<TMapNode<K, V>>, j: int, k: nat) -> int
    decreases k,
{
    if k == 0 {
        j
    } else {
        nodes[up(nodes, j, (k - 1) as nat)].root as int
    }
}

proof fn lemma_descends_more_fuel<K, V>(nodes: Seq<TMapNode<K, V>>, i: int, g: nat, h: nat)
    requires
        descends_ok(nodes, i, g),
        g <= h,
    ensures
        descends_ok(nodes, i, h),
        preorder(nodes, i, g) == preorder(nodes, i, h),
    decreases g,
{
    if !nodes[i].is_root {
        lemma_descends_more_fuel(nodes, nodes[i].left as int, (g - 1) as nat, (h - 1) as nat);
        lemma_descends_more_fuel(nodes, nodes[i].right as int, (g - 1) as nat, (h - 1) as nat);
    }
}

proof fn lemma_descends_below<K, V>(nodes: Seq<TMapNode<K, V>>, i: int, g: nat, j: int)
    requires
        descends_ok(nodes, i, g),
        preorder(nodes, i, g).contains(j),
    ensures
        descends_ok(nodes, j, g),
    decreases g,
{
    lemma_preorder_split(nodes, i, g);
    let f = (g - 1) as nat;
    if j != i {
        if preorder(nodes, nodes[i].left as int, f).contains(j) {
            lemma_descends_below(nodes, nodes[i].left as int, f, j);
        } else {
            lemma_descends_below(nodes, nodes[i].right as int, f, j);
        }
        lemma_descends_more_fuel(nodes, j, f, g);
    }
}

/// A node never lies below one of its own children.
proof fn lemma_not_below_itself<K, V>(nodes: Seq<TMapNode<K, V>>, i: int, g: nat)
    requires
        descends_ok(nodes, i, g),
        real_node(nodes, i),
    ensures
        !preorder(nodes, nodes[i].left as int, (g - 1) as nat).contains(i),
        !preorder(nodes, nodes[i].right as int, (g - 1) as nat).contains(i),
    decreases g,
{
    let f = (g - 1) as nat;
    let l = nodes[i].left as int;
    let r = nodes[i].right as int;
    if preorder(nodes, l, f).contains(i) || preorder(nodes, r, f).contains(i) {
        let c = if preorder(nodes, l, f).contains(i) { l } else { r };
        lemma_descends_below(nodes, c, f, i);
        lemma_not_below_itself(nodes, i, f);
        lemma_descends_more_fuel(nodes, c, (f - 1) as nat, f);
    }
}

/// Following `root` links from a node of a tree reaches the tree's top
/// without leaving the tree.
proof fn lemma_path_up<K, V>(nodes: Seq<TMapNode<K, V>>, i: int, g: nat, j: int) -> (d: nat)
    requires
        descends_ok(nodes, i, g),
        tree_shape_ok(nodes, i, g),
        preorder(nodes, i, g).contains(j),
    ensures
        up(nodes, j, d) == i,
        forall|m: nat| m <= d ==> preorder(nodes, i, g).contains(#[trigger] up(nodes, j, m)),
    decreases g,
{
    lemma_preorder_split(nodes, i, g);
    lemma_preorder_real(nodes, i, g);
    let f = (g - 1) as nat;
    let l = nodes[i].left as int;
    let r = nodes[i].right as int;
    if j == i {
        0
    } else {
        let c = if preorder(nodes, l, f).contains(j) { l } else { r };
        let d0 = lemma_path_up(nodes, c, f, j);
        lemma_preorder_real(nodes, c, f);
        lemma_preorder_split(nodes, c, f);
        assert(up(nodes, j, d0 + 1) == i);
        assert forall|m: nat| m <= d0 + 1 implies preorder(nodes, i, g).contains(#[trigger] up(nodes, j, m)) by {
            if m <= d0 {
                assert(preorder(nodes, c, f).contains(up(nodes, j, m)));
            }
        }
        d0 + 1
    }
}

proof fn lemma_tree_no_duplicates<K, V>(nodes: Seq<TMapNode<K, V>>, i: int, g: nat)
    requires
        descends_ok(nodes, i, g),
        tree_shape_ok(nodes, i, g),
    ensures
        preorder(nodes, i, g).no_duplicates(),
    decreases g,
{
    if !nodes[i].is_root {
        let l = nodes[i].left as int;
        let r = nodes[i].right as int;
        let f = (g - 1) as nat;
        lemma_preorder_split(nodes, i, g);
        lemma_tree_no_duplicates(nodes, l, f);
        lemma_tree_no_duplicates(nodes, r, f);
        lemma_not_below_itself(nodes, i, g);
        let p = preorder(nodes, i, g);
        let pl = preorder(nodes, l, f);
        let pr = preorder(nodes, r, f);
        assert forall|x: int| pl.contains(x) implies !pr.contains(x) by {
            if pr.contains(x) {
                let a = lemma_path_up(nodes, l, f, x);
                let b = lemma_path_up(nodes, r, f, x);
                lemma_preorder_real(nodes, l, f);
                lemma_preorder_real(nodes, r, f);
                lemma_preorder_split(nodes, l, f);
                lemma_preorder_split(nodes, r, f);
                if a < b {
                    assert(up(nodes, x, a + 1) == i);
                    assert(pr.contains(up(nodes, x, a + 1)));
                } else if b < a {
                    assert(up(nodes, x, b + 1) == i);
                    assert(pl.contains(up(nodes, x, b + 1)));
                } else {
                    assert(l == r);
                }
            }
        }
        assert forall|a: int, b: int| 0 <= a < p.len() && 0 <= b < p.len() && a != b implies p[a] != p[b] by {
            if a == 0 && b != 0 {
                if b < 1 + pl.len() {
                    assert(pl[b - 1] == p[b]);
                } else {
                    assert(pr[b - 1 - pl.len()] == p[b]);
                }
            } else if b == 0 && a != 0 {
                if a < 1 + pl.len() {
                    assert(pl[a - 1] == p[a]);
                } else {
                    assert(pr[a - 1 - pl.len()] == p[a]);
                }
            } else if a != 0 && b != 0 {
                if a < 1 + pl.len() && b < 1 + pl.len() {
                    assert(pl[a - 1] == p[a]);
                    assert(pl[b - 1] == p[b]);
                } else if a >= 1 + pl.len() && b >= 1 + pl.len() {
                    assert(pr[a - 1 - pl.len()] == p[a]);
                    assert(pr[b - 1 - pl.len()] == p[b]);
                } else if a < 1 + pl.len() {
                    assert(pl[a - 1] == p[a]);
                    assert(pr[b - 1 - pl.len()] == p[b]);
                    assert(pl.contains(p[a]));
                    assert(pr.contains(p[b]));
                } else {
                    assert(pr[a - 1 - pl.len()] == p[a]);
                    assert(pl[b - 1] == p[b]);
                    assert(pr.contains(p[a]));
                    assert(pl.contains(p[b]));
                }
            }
        }
    }
}

/// In a search tree, `find` answers for exactly the keys that a node of the
/// tree holds, with that node.
pub proof fn lemma_find_answers_stored_keys<K: TreeKey, V>(map: &TMap<K, V>, key: K)
    requires
        map.wf(),
        map.is_search_tree(),
    ensures
        forall|j: int| #[trigger] map.walk().contains(j) && same_key(map.nodes@[j].key, key) ==> map.found(key)
            == Some(j),
        map.found(key) matches Some(f) ==> map.walk().contains(f) && same_key(map.nodes@[f].key, key),
{
    let nodes = map.nodes@;
    let top = nodes[map.root as int].root as int;
    let fuel = nodes.len() as nat;
    lemma_preorder_real(nodes, top, fuel);
    assert forall|j: int| #[trigger] map.walk().contains(j) && same_key(map.nodes@[j].key, key) implies map.found(key)
        == Some(j) by {
        lemma_search_finds(nodes, key, top, map.root as int, fuel, j);
    }
    if map.found(key) is Some {
        if !(exists|j: int| #[trigger] map.walk().contains(j) && same_key(nodes[j].key, key)) {
            assert forall|j: int| #[trigger] preorder(nodes, top, fuel).contains(j) implies !same_key(
                nodes[j].key,
                key,
            ) by {
                assert(map.walk().contains(j));
            }
            lemma_search_misses(nodes, key, top, map.root as int, fuel);
        }
    }
}

/// In a search tree, `iter` gives every node of the tree once, and never the
/// sentinel or a node outside the tree's storage.
pub proof fn lemma_iter_gives_each_node_once<K: TreeKey, V>(map: &TMap<K, V>)
    requires
        map.wf(),
        map.is_search_tree(),
    ensures
        map.walk().no_duplicates(),
        forall|j: int| #[trigger] map.walk().contains(j) ==> 0 <= j < map.nodes@.len() && !map.nodes@[j].is_root,
{
    let nodes = map.nodes@;
    let top = nodes[map.root as int].root as int;
    lemma_preorder_real(nodes, top, nodes.len() as nat);
    lemma_preorder_no_duplicates(nodes, top, nodes.len() as nat);
}

/// In a tree, `iter` gives every node of the tree once, and never the
/// sentinel or a node outside the tree's storage.
pub proof fn lemma_iter_gives_each_tree_node_once<K: TreeKey, V>(map: &TMap<K, V>)
    requires
        map.wf(),
        tree_shape_ok(map.nodes@, map.nodes@[map.root as int].root as int, map.nodes@.len() as nat),
    ensures
        map.walk().no_duplicates(),
        forall|j: int| #[trigger] map.walk().contains(j) ==> real_node(map.nodes@, j),
{
    let nodes = map.nodes@;
    let top = nodes[map.root as int].root as int;
    lemma_preorder_real(nodes, top, nodes.len() as nat);
    lemma_tree_no_duplicates(nodes, top, nodes.len() as nat);
}

/// A bucket of the function database by name.
#[derive(Debug)]
pub struct HashSlot {
    pub node_map: TMap<OsiStr, usize>,
}

/// A bucket of the function database by id.
#[derive(Debug)]
pub struct FunctionIdHash {
    pub node_map: TMap<u32, usize>,
}

/// The number of buckets of the function database.
pub const FUNCTION_DB_BUCKETS: usize = 1023;

/// The engine's function database: functions by name and by id, spread over
/// buckets. The values of the name buckets index the function records.
#[derive(Debug)]
pub struct FunctionDb {
    pub hash: Vec<HashSlot>,
    pub num_items: u32,
    pub function_id_hash: Vec<FunctionIdHash>,
    pub all_function_ids: TMap<u32, u32>,
    pub records: Vec<Function>,
}

/// The lower-bound descent for the name `key` in a tree keyed by engine
/// strings, which compare by their bytes before the nul.
pub open spec fn name_search<V>(
    nodes: Seq<TMapNode<OsiStr, V>>,
    key: Seq<u8>,
    cur: int,
    fin: int,
    fuel: nat,
) -> int
    decreases fuel,
{
    if fuel == 0 || !(0 <= cur < nodes.len()) || nodes[cur].is_root {
        fin
    } else if lex_lt(c_bytes(nodes[cur].key.buf@), key) {
        name_search(nodes, key, nodes[cur].right as int, fin, (fuel - 1) as nat)
    } else {
        name_search(nodes, key, nodes[cur].left as int, cur, (fuel - 1) as nat)
    }
}

proof fn lemma_name_search<V>(
    nodes: Seq<TMapNode<OsiStr, V>>,
    key: OsiStr,
    cur: int,
    fin: int,
    fuel: nat,
)
    ensures
        tmap_search(nodes, key, cur, fin, fuel) == name_search(nodes, c_bytes(key.buf@), cur, fin, fuel),
    decreases fuel,
{
    if !(fuel == 0 || !(0 <= cur < nodes.len()) || nodes[cur].is_root) {
        lemma_name_search(nodes, key, nodes[cur].right as int, fin, (fuel - 1) as nat);
        lemma_name_search(nodes, key, nodes[cur].left as int, cur, (fuel - 1) as nat);
    }
}

proof fn lemma_name_search_range<V>(
    nodes: Seq<TMapNode<OsiStr, V>>,
    key: Seq<u8>,
    cur: int,
    fin: int,
    fuel: nat,
)
    ensures
        name_search(nodes, key, cur, fin, fuel) == fin || 0 <= name_search(nodes, key, cur, fin, fuel)
            < nodes.len(),
    decreases fuel,
{
    if !(fuel == 0 || !(0 <= cur < nodes.len()) || nodes[cur].is_root) {
        lemma_name_search_range(nodes, key, nodes[cur].right as int, fin, (fuel - 1) as nat);
        lemma_name_search_range(nodes, key, nodes[cur].left as int, cur, (fuel - 1) as nat);
    }
}

/// The functions of the buckets `hash`, bucket by bucket, each bucket's tree
/// in the order it is walked: the bucket and the node of each.
pub open spec fn function_nodes(hash: Seq<HashSlot>) -> Seq<(int, int)>
    decreases hash.len(),
{
    if hash.len() == 0 {
        Seq::empty()
    } else {
        let b = hash.len() - 1;
        function_nodes(hash.drop_last()) + hash.last().node_map.walk().map_values(|n: int| (b, n))
    }
}

impl FunctionDb {
    pub open spec fn wf(&self) -> bool {
        &&& self.hash@.len() == FUNCTION_DB_BUCKETS
        &&& self.function_id_hash@.len() == FUNCTION_DB_BUCKETS
        &&& forall|b: int| 0 <= b < FUNCTION_DB_BUCKETS ==> (#[trigger] self.hash@[b]).node_map.wf()
        &&& forall|b: int| 0 <= b < FUNCTION_DB_BUCKETS ==> (#[trigger] self.function_id_hash@[b]).node_map.wf()
        &&& forall|b: int, k: int|
            0 <= b < FUNCTION_DB_BUCKETS && 0 <= k < self.hash@[b].node_map.nodes@.len()
                ==> #[trigger] self.hash@[b].node_map.nodes@[k].value < self.records@.len()
        &&& forall|i: int| 0 <= i < self.records@.len() ==> (#[trigger] self.records@[i]).wf()
    }

    /// The record stored under the name `name` in the bucket of `hash`: the
    /// node where the lower-bound descent ends, unless that is the sentinel or
    /// its name sorts after `name`.
    pub open spec fn lookup_name(&self, hash: u32, name: Seq<u8>) -> Option<usize> {
        let m = self.hash@[(hash % 0x3FF) as int].node_map;
        let f = name_search(
            m.nodes@,
            name,
            m.nodes@[m.root as int].root as int,
            m.root as int,
            m.nodes@.len() as nat,
        );
        if f == m.root || lex_lt(name, c_bytes(m.nodes@[f].key.buf@)) {
            None
        } else {
            Some(m.nodes@[f].value)
        }
    }

    /// The function stored under `key` in the bucket of the name hash `hash`.
    pub fn find(&self, hash: u32, key: &OsiStr) -> (res: Option<&usize>)
        requires
            self.wf(),
        ensures
            match res {
                Some(r) => self.lookup_name(hash, c_bytes(key.buf@)) == Some(*r),
                None => self.lookup_name(hash, c_bytes(key.buf@)) is None,
            },
            res matches Some(r) ==> *r < self.records@.len(),
    {
        let bucket = &self.hash[(hash % 0x3FF) as usize];
        let ghost m = bucket.node_map;
        let ghost b = (hash % 0x3FF) as int;
        proof {
            lemma_name_search(
                m.nodes@,
                *key,
                m.nodes@[m.root as int].root as int,
                m.root as int,
                m.nodes@.len() as nat,
            );
            lemma_name_search_range(
                m.nodes@,
                c_bytes(key.buf@),
                m.nodes@[m.root as int].root as int,
                m.root as int,
                m.nodes@.len() as nat,
            );
            assert(m == self.hash@[b].node_map);
        }
        let res = bucket.node_map.find(key);
        proof {
            if res is Some {
                let f = m.search(*key);
                assert(f != m.root);
                assert(self.hash@[b].node_map.nodes@[f].value < self.records@.len());
            }
        }
        res
    }

    /// Every function of the database with its name, bucket by bucket, each
    /// bucket's tree in the order it is walked.
    pub fn functions(&self) -> (res: Vec<(&OsiStr, &Function)>)
        requires
            self.wf(),
        ensures
            res@.len() == function_nodes(self.hash@).len(),
            forall|k: int|
                0 <= k < res@.len() ==> ({
                    let (b, n) = function_nodes(self.hash@)[k];
                    let node = self.hash@[b].node_map.nodes@[n];
                    #[trigger] res@[k] == (&node.key, &self.records@[node.value as int])
                }),
    {
        let mut res: Vec<(&OsiStr, &Function)> = Vec::new();
        let mut b: usize = 0;
        while b < self.hash.len()
            invariant
                self.wf(),
                b <= self.hash@.len(),
                res@.len() == function_nodes(self.hash@.take(b as int)).len(),
                forall|k: int|
                    0 <= k < res@.len() ==> ({
                        let (bb, n) = function_nodes(self.hash@.take(b as int))[k];
                        let node = self.hash@[bb].node_map.nodes@[n];
                        #[trigger] res@[k] == (&node.key, &self.records@[node.value as int])
                    }),
            decreases self.hash@.len() - b,
        {
            let m = &self.hash[b].node_map;
            let nodes = m.iter();
            proof {
                lemma_preorder_in_range(m.nodes@, m.nodes@[m.root as int].root as int, m.nodes@.len() as nat);
                assert(self.hash@.take(b + 1).drop_last() =~= self.hash@.take(b as int));
                assert(self.hash@.take(b + 1).last() == self.hash@[b as int]);
            }
            let ghost before = res@;
            let ghost walk = m.walk();
            let mut i: usize = 0;
            while i < nodes.len()
                invariant
                    self.wf(),
                    b < self.hash@.len(),
                    *m == self.hash@[b as int].node_map,
                    walk == m.walk(),
                    nodes@.len() == walk.len(),
                    forall|q: int| 0 <= q < walk.len() ==> nodes@[q] == &m.nodes@[#[trigger] walk[q]],
                    forall|q: int| 0 <= q < walk.len() ==> 0 <= #[trigger] walk[q] < m.nodes@.len(),
                    i <= nodes@.len(),
                    res@.len() == before.len() + i,
                    forall|k: int| 0 <= k < before.len() ==> #[trigger] res@[k] == before[k],
                    forall|q: int|
                        0 <= q < i ==> ({
                            let node = m.nodes@[walk[q]];
                            #[trigger] res@[before.len() + q] == (&node.key, &self.records@[node.value as int])
                        }),
                decreases nodes@.len() - i,
            {
                let node = nodes[i];
                proof {
                    assert(nodes@[i as int] == &m.nodes@[walk[i as int]]);
                    assert(self.hash@[b as int].node_map.nodes@[walk[i as int]].value < self.records@.len());
                }
                res.push((&node.key, &self.records[node.value]));
                i = i + 1;
            }
            proof {
                let prev = function_nodes(self.hash@.take(b as int));
                let cur = function_nodes(self.hash@.take(b + 1));
                let tail = walk.map_values(|n: int| (b as int, n));
                assert(cur == prev + tail);
                assert forall|k: int| 0 <= k < res@.len() implies ({
                    let (bb, n) = cur[k];
                    let node = self.hash@[bb].node_map.nodes@[n];
                    #[trigger] res@[k] == (&node.key, &self.records@[node.value as int])
                }) by {
                    if k < before.len() {
                        assert(cur[k] == prev[k]);
                    } else {
                        let q = k - before.len();
                        assert(cur[k] == tail[q]);
                        assert(tail[q] == (b as int, walk[q]));
                        let node = m.nodes@[walk[q]];
                        assert(res@[before.len() + q] == (&node.key, &self.records@[node.value as int]));
                        assert(before.len() + q == k);
                    }
                }
            }
            b = b + 1;
        }
        assert(self.hash@.take(self.hash@.len() as int) =~= self.hash@);
        res
    }

    /// The function stored under `id` in the bucket of the id.
    pub fn find_by_id(&self, id: &u32) -> (res: Option<&usize>)
        requires
            self.wf(),
        ensures
            ({
                let m = self.function_id_hash@[(*id % 0x3FF) as int].node_map;
                let f = m.search(*id);
                if f == m.root || id.spec_lt(&m.nodes@[f].key) {
                    res is None
                } else {
                    res == Some(&m.nodes@[f].value)
                }
            }),
    {
        let bucket = &self.function_id_hash[(*id % 0x3FF) as usize];
        bucket.node_map.find(id)
    }
}

} // verus!
