//! The menu's object tables: their columns, which rows a search keeps, how
//! rows are sorted by a column, and how they are split into pages.
use vstd::prelude::*;
use crate::game::{contains, contains_text};
use vstd::string::StringExecFns;

verus! {

broadcast use vstd::string::group_string_axioms;

/// A column of a table.
#[derive(Clone, Debug)]
pub struct TableColumn {
    pub name: String,
    pub visible: bool,
    pub included_in_search: bool,
}

impl TableColumn {
    pub fn new(name: &str, visible: bool, included_in_search: bool) -> (res: TableColumn)
        ensures
            res.name@ == name@,
            res.visible == visible,
            res.included_in_search == included_in_search,
    {
        TableColumn { name: String::from_str(name), visible, included_in_search }
    }
}

/// How a table search compares text.
#[derive(Clone, Copy, Debug, PartialEq, Eq, Default)]
pub struct SearchOptions {
    pub case_sensitive: bool,
}

/// The text in lower case, as `str::to_lowercase` gives it.
pub uninterp spec fn lowercase(s: Seq<char>) -> Seq<char>;

/// The lower-case form of an ASCII character: `A` to `Z` become `a` to `z`,
/// the others stay.
pub open spec fn ascii_lower(c: char) -> char {
    if 'A' <= c && c <= 'Z' {
        ((c as u32) + 32) as char
    } else {
        c
    }
}

/// `str::to_lowercase`: the text with each character mapped to its Unicode
/// lower-case form. Its result is named by `lowercase`; for a text of ASCII
/// characters only `A` to `Z` change, to `a` to `z`.
#[verifier::external_body]
fn to_lowercase(s: &str) -> (res: String)
    ensures
        res@ == lowercase(s@),
        (forall|i: int| 0 <= i < s@.len() ==> (s@[i] as u32) < 128) ==> res@ == s@.map_values(
            |c: char| ascii_lower(c),
        ),
{
    s.to_lowercase()
}

/// Whether a cell's text matches the query: it contains the query, ignoring
/// case unless the search is case-sensitive.
pub open spec fn cell_matches(text: Seq<char>, query: Seq<char>, case_sensitive: bool) -> bool {
    if case_sensitive {
        contains_text(text, query)
    } else {
        contains_text(lowercase(text), lowercase(query))
    }
}

/// Whether a row matches: some column included in the search has a matching
/// cell.
pub open spec fn row_matches(
    cells: Seq<String>,
    columns: Seq<TableColumn>,
    query: Seq<char>,
    case_sensitive: bool,
) -> bool {
    exists|i: int|
        0 <= i < columns.len() && columns[i].included_in_search && #[trigger] cell_matches(
            cells[i]@,
            query,
            case_sensitive,
        )
}

/// The indices, in order, of the rows that the category accepts and that
/// match the query.
pub open spec fn matching_rows(
    rows: Seq<Vec<String>>,
    accepted: Seq<bool>,
    columns: Seq<TableColumn>,
    query: Seq<char>,
    case_sensitive: bool,
) -> Seq<usize>
    decreases rows.len(),
{
    if rows.len() == 0 {
        Seq::empty()
    } else {
        let n = rows.len() - 1;
        let rest = matching_rows(rows.drop_last(), accepted, columns, query, case_sensitive);
        if accepted[n] && row_matches(rows.last()@, columns, query, case_sensitive) {
            rest.push(n as usize)
        } else {
            rest
        }
    }
}

fn row_matches_exec(cells: &[String], columns: &[TableColumn], query: &str, opts: SearchOptions) -> (res:
    bool)
    requires
        cells@.len() >= columns@.len(),
    ensures
        res == row_matches(cells@, columns@, query@, opts.case_sensitive),
{
    let lowered = to_lowercase(query);
    let mut i: usize = 0;
    while i < columns.len()
        invariant
            cells@.len() >= columns@.len(),
            i <= columns@.len(),
            lowered@ == lowercase(query@),
            forall|j: int|
                0 <= j < i ==> !(columns@[j].included_in_search && #[trigger] cell_matches(
                    cells@[j]@,
                    query@,
                    opts.case_sensitive,
                )),
        decreases columns@.len() - i,
    {
        if columns[i].included_in_search {
            let m = if opts.case_sensitive {
                contains(cells[i].as_str(), query)
            } else {
                let t = to_lowercase(cells[i].as_str());
                contains(t.as_str(), lowered.as_str())
            };
            if m {
                assert(cell_matches(cells@[i as int]@, query@, opts.case_sensitive));
                return true;
            }
        }
        i = i + 1;
    }
    false
}

/// The rows that a search keeps: those the category accepts (`accepted`) with
/// a cell, in a column included in the search, that contains the query.
pub fn search_rows(
    rows: &[Vec<String>],
    accepted: &[bool],
    columns: &[TableColumn],
    query: &str,
    opts: SearchOptions,
) -> (res: Vec<usize>)
    requires
        accepted@.len() == rows@.len(),
        forall|r: int| 0 <= r < rows@.len() ==> (#[trigger] rows@[r])@.len() >= columns@.len(),
    ensures
        res@ == matching_rows(rows@, accepted@, columns@, query@, opts.case_sensitive),
{
    let mut res: Vec<usize> = Vec::new();
    let mut r: usize = 0;
    while r < rows.len()
        invariant
            accepted@.len() == rows@.len(),
            forall|q: int| 0 <= q < rows@.len() ==> (#[trigger] rows@[q])@.len() >= columns@.len(),
            r <= rows@.len(),
            res@ == matching_rows(rows@.take(r as int), accepted@, columns@, query@, opts.case_sensitive),
        decreases rows@.len() - r,
    {
        assert(rows@.take(r + 1).drop_last() =~= rows@.take(r as int));
        assert(rows@.take(r + 1).last() == rows@[r as int]);
        if accepted[r] && row_matches_exec(rows[r].as_slice(), columns, query, opts) {
            res.push(r);
        }
        r = r + 1;
    }
    assert(rows@.take(rows@.len() as int) =~= rows@);
    res
}

/// How two table values order.
#[derive(Clone, Copy, Debug, PartialEq, Eq)]
pub enum TableOrder {
    Less,
    Equal,
    Greater,
}

/// The order read the other way round.
pub open spec fn flipped(o: TableOrder) -> TableOrder {
    match o {
        TableOrder::Less => TableOrder::Greater,
        TableOrder::Equal => TableOrder::Equal,
        TableOrder::Greater => TableOrder::Less,
    }
}

/// Values a table can sort by.
pub trait TableOrd: Sized {
    spec fn spec_order(&self, other: &Self) -> TableOrder;

    /// Comparing the other way round gives the flipped order.
    proof fn lemma_order_flip(a: &Self, b: &Self)
        ensures
            a.spec_order(b) == flipped(b.spec_order(a)),
    ;

    fn tbl_order(&self, other: &Self) -> (res: TableOrder)
        ensures
            res == self.spec_order(other),
    ;
}

/// The order of two integers.
pub open spec fn int_order(a: int, b: int) -> TableOrder {
    if a < b {
        TableOrder::Less
    } else if a == b {
        TableOrder::Equal
    } else {
        TableOrder::Greater
    }
}

impl TableOrd for u32 {
    open spec fn spec_order(&self, other: &Self) -> TableOrder {
        int_order(*self as int, *other as int)
    }

    proof fn lemma_order_flip(a: &Self, b: &Self) {
    }

    fn tbl_order(&self, other: &Self) -> (res: TableOrder) {
        if *self < *other {
            TableOrder::Less
        } else if *self == *other {
            TableOrder::Equal
        } else {
            TableOrder::Greater
        }
    }
}

impl TableOrd for i32 {
    open spec fn spec_order(&self, other: &Self) -> TableOrder {
        int_order(*self as int, *other as int)
    }

    proof fn lemma_order_flip(a: &Self, b: &Self) {
    }

    fn tbl_order(&self, other: &Self) -> (res: TableOrder) {
        if *self < *other {
            TableOrder::Less
        } else if *self == *other {
            TableOrder::Equal
        } else {
            TableOrder::Greater
        }
    }
}

impl TableOrd for u64 {
    open spec fn spec_order(&self, other: &Self) -> TableOrder {
        int_order(*self as int, *other as int)
    }

    proof fn lemma_order_flip(a: &Self, b: &Self) {
    }

    fn tbl_order(&self, other: &Self) -> (res: TableOrder) {
        if *self < *other {
            TableOrder::Less
        } else if *self == *other {
            TableOrder::Equal
        } else {
            TableOrder::Greater
        }
    }
}

impl TableOrd for i64 {
    open spec fn spec_order(&self, other: &Self) -> TableOrder {
        int_order(*self as int, *other as int)
    }

    proof fn lemma_order_flip(a: &Self, b: &Self) {
    }

    fn tbl_order(&self, other: &Self) -> (res: TableOrder) {
        if *self < *other {
            TableOrder::Less
        } else if *self == *other {
            TableOrder::Equal
        } else {
            TableOrder::Greater
        }
    }
}

impl TableOrd for usize {
    open spec fn spec_order(&self, other: &Self) -> TableOrder {
        int_order(*self as int, *other as int)
    }

    proof fn lemma_order_flip(a: &Self, b: &Self) {
    }

    fn tbl_order(&self, other: &Self) -> (res: TableOrder) {
        if *self < *other {
            TableOrder::Less
        } else if *self == *other {
            TableOrder::Equal
        } else {
            TableOrder::Greater
        }
    }
}

impl TableOrd for () {
    open spec fn spec_order(&self, other: &Self) -> TableOrder {
        TableOrder::Equal
    }

    proof fn lemma_order_flip(a: &Self, b: &Self) {
    }

    fn tbl_order(&self, other: &Self) -> (res: TableOrder) {
        TableOrder::Equal
    }
}

impl<T: TableOrd> TableOrd for Option<T> {
    /// Missing values sort after present ones.
    open spec fn spec_order(&self, other: &Self) -> TableOrder {
        match (self, other) {
            (None, None) => TableOrder::Equal,
            (None, Some(_)) => TableOrder::Greater,
            (Some(_), None) => TableOrder::Less,
            (Some(a), Some(b)) => a.spec_order(b),
        }
    }

    proof fn lemma_order_flip(a: &Self, b: &Self) {
        match (a, b) {
            (Some(x), Some(y)) => T::lemma_order_flip(x, y),
            _ => {},
        }
    }

    fn tbl_order(&self, other: &Self) -> (res: TableOrder) {
        match (self, other) {
            (None, None) => TableOrder::Equal,
            (None, Some(_)) => TableOrder::Greater,
            (Some(_), None) => TableOrder::Less,
            (Some(a), Some(b)) => a.tbl_order(b),
        }
    }
}

/// The order of two byte strings: by the first byte where they differ, and a
/// proper prefix first.
pub open spec fn bytes_order(a: Seq<u8>, b: Seq<u8>) -> TableOrder
    decreases a.len(),
{
    if a.len() == 0 && b.len() == 0 {
        TableOrder::Equal
    } else if a.len() == 0 {
        TableOrder::Less
    } else if b.len() == 0 {
        TableOrder::Greater
    } else if a[0] != b[0] {
        int_order(a[0] as int, b[0] as int)
    } else {
        bytes_order(a.drop_first(), b.drop_first())
    }
}

proof fn lemma_bytes_order_flip(a: Seq<u8>, b: Seq<u8>)
    ensures
        bytes_order(a, b) == flipped(bytes_order(b, a)),
    decreases a.len(),
{
    if a.len() > 0 && b.len() > 0 && a[0] == b[0] {
        lemma_bytes_order_flip(a.drop_first(), b.drop_first());
    }
}

/// Text orders by its UTF-8 bytes, as `str` compares.
impl TableOrd for String {
    open spec fn spec_order(&self, other: &Self) -> TableOrder {
        bytes_order(vstd::utf8::encode_utf8(self@), vstd::utf8::encode_utf8(other@))
    }

    proof fn lemma_order_flip(a: &Self, b: &Self) {
        lemma_bytes_order_flip(vstd::utf8::encode_utf8(a@), vstd::utf8::encode_utf8(b@));
    }

    fn tbl_order(&self, other: &Self) -> (res: TableOrder) {
        let a = self.as_str().as_bytes();
        let b = other.as_str().as_bytes();
        let mut i: usize = 0;
        assert(a@.skip(0) =~= a@);
        assert(b@.skip(0) =~= b@);
        while i < a.len() && i < b.len()
            invariant
                i <= a@.len(),
                i <= b@.len(),
                a@ == vstd::utf8::encode_utf8(self@),
                b@ == vstd::utf8::encode_utf8(other@),
                bytes_order(a@, b@) == bytes_order(a@.skip(i as int), b@.skip(i as int)),
            decreases a@.len() - i,
        {
            assert(a@.skip(i as int)[0] == a@[i as int]);
            assert(b@.skip(i as int)[0] == b@[i as int]);
            if a[i] < b[i] {
                return TableOrder::Less;
            } else if a[i] > b[i] {
                return TableOrder::Greater;
            }
            assert(a@.skip(i as int).drop_first() =~= a@.skip(i + 1));
            assert(b@.skip(i as int).drop_first() =~= b@.skip(i + 1));
            i = i + 1;
        }
        if i < a.len() {
            TableOrder::Greater
        } else if i < b.len() {
            TableOrder::Less
        } else {
            TableOrder::Equal
        }
    }
}

/// The order of two sequences of equal length: by the first position where
/// the elements differ.
pub open spec fn lex_order<T: TableOrd>(a: Seq<T>, b: Seq<T>) -> TableOrder
    decreases a.len(),
{
    if a.len() == 0 || b.len() == 0 {
        TableOrder::Equal
    } else if a[0].spec_order(&b[0]) != TableOrder::Equal {
        a[0].spec_order(&b[0])
    } else {
        lex_order(a.drop_first(), b.drop_first())
    }
}

/// Compares two arrays element by element (`tbl_cmp` of arrays).
pub fn slice_order<T: TableOrd>(a: &[T], b: &[T]) -> (res: TableOrder)
    ensures
        res == lex_order(a@, b@),
{
    let mut i: usize = 0;
    assert(a@.skip(0) =~= a@);
    assert(b@.skip(0) =~= b@);
    while i < a.len() && i < b.len()
        invariant
            i <= a@.len(),
            i <= b@.len(),
            lex_order(a@, b@) == lex_order(a@.skip(i as int), b@.skip(i as int)),
        decreases a@.len() - i,
    {
        let o = a[i].tbl_order(&b[i]);
        assert(a@.skip(i as int)[0] == a@[i as int]);
        assert(b@.skip(i as int)[0] == b@[i as int]);
        match o {
            TableOrder::Equal => {},
            _ => {
                return o;
            },
        }
        assert(a@.skip(i as int).drop_first() =~= a@.skip(i + 1));
        assert(b@.skip(i as int).drop_first() =~= b@.skip(i + 1));
        i = i + 1;
    }
    TableOrder::Equal
}

/// The order as a sort in the given direction reads it: descending sorts
/// read every comparison the other way round.
pub open spec fn directed(o: TableOrder, descending: bool) -> TableOrder {
    if descending {
        flipped(o)
    } else {
        o
    }
}

/// `p` lists each of the row indices `0..n` once.
pub open spec fn is_row_permutation(p: Seq<usize>, n: nat) -> bool {
    &&& p.len() == n
    &&& forall|i: int| 0 <= i < p.len() ==> #[trigger] p[i] < n
    &&& forall|i: int, j: int| 0 <= i < j < p.len() ==> #[trigger] p[i] != #[trigger] p[j]
}

/// The rows at positions `k` and `k + 1` of `p` are in order: the first does
/// not sort after the second, and rows with equal keys keep their original
/// order.
pub open spec fn adjacent_in_order<T: TableOrd>(p: Seq<usize>, keys: Seq<T>, k: int, descending: bool) -> bool {
    let o = directed(keys[p[k] as int].spec_order(&keys[p[k + 1] as int]), descending);
    o != TableOrder::Greater && (o == TableOrder::Equal ==> p[k] < p[k + 1])
}

/// `p` lists the rows sorted by their keys, stably.
pub open spec fn sorted_by_keys<T: TableOrd>(p: Seq<usize>, keys: Seq<T>, descending: bool) -> bool {
    forall|k: int| 0 <= k < p.len() - 1 ==> #[trigger] adjacent_in_order(p, keys, k, descending)
}

proof fn lemma_directed_flip(o: TableOrder, descending: bool)
    ensures
        directed(flipped(o), descending) == flipped(directed(o, descending)),
{
}

/// Whether `a` sorts after `b` in the given direction.
fn sorts_after<T: TableOrd>(a: &T, b: &T, descending: bool) -> (res: bool)
    ensures
        res == (directed(a.spec_order(b), descending) == TableOrder::Greater),
{
    let o = a.tbl_order(b);
    if descending {
        matches!(o, TableOrder::Less)
    } else {
        matches!(o, TableOrder::Greater)
    }
}

/// The order in which a table shows its rows when sorted by a column whose
/// values are `keys`, ascending or descending: a stable sort, so rows with
/// equal keys stay in the order they had.
pub fn sorted_rows<T: TableOrd>(keys: &[T], descending: bool) -> (res: Vec<usize>)
    ensures
        is_row_permutation(res@, keys@.len()),
        sorted_by_keys(res@, keys@, descending),
{
    let n = keys.len();
    let mut res: Vec<usize> = Vec::new();
    let mut r: usize = 0;
    while r < n
        invariant
            n == keys@.len(),
            r <= n,
            is_row_permutation(res@, r as nat),
            sorted_by_keys(res@, keys@, descending),
        decreases n - r,
    {
        let mut pos = res.len();
        while pos > 0 && sorts_after(&keys[res[pos - 1]], &keys[r], descending)
            invariant
                n == keys@.len(),
                r < n,
                pos <= res@.len(),
                is_row_permutation(res@, r as nat),
                forall|q: int|
                    pos <= q < res@.len() ==> directed(
                        #[trigger] keys@[res@[q] as int].spec_order(&keys@[r as int]),
                        descending,
                    ) == TableOrder::Greater,
            decreases pos,
        {
            pos = pos - 1;
        }
        let ghost old_res = res@;
        res.insert(pos, r);
        proof {
            assert forall|k: int| 0 <= k < res@.len() - 1 implies #[trigger] adjacent_in_order(
                res@,
                keys@,
                k,
                descending,
            ) by {
                if k < pos - 1 {
                    assert(adjacent_in_order(old_res, keys@, k, descending));
                } else if k == pos - 1 {
                    assert(res@[k] == old_res[k]);
                    assert(res@[k + 1] == r);
                } else if k == pos {
                    let b = old_res[pos as int];
                    assert(res@[k + 1] == b);
                    T::lemma_order_flip(&keys@[r as int], &keys@[b as int]);
                    lemma_directed_flip(keys@[b as int].spec_order(&keys@[r as int]), descending);
                } else {
                    assert(adjacent_in_order(old_res, keys@, k - 1, descending));
                    assert(res@[k] == old_res[k - 1]);
                    assert(res@[k + 1] == old_res[k]);
                }
            }
            assert forall|i: int, j: int| 0 <= i < j < res@.len() implies #[trigger] res@[i] != #[trigger] res@[j] by {
                if i < pos && j < pos {
                    assert(old_res[i] != old_res[j]);
                } else if i < pos && j > pos {
                    assert(old_res[i] != old_res[j - 1]);
                } else if i > pos && j > pos {
                    assert(old_res[i - 1] != old_res[j - 1]);
                } else if i == pos {
                    assert(res@[j] == old_res[j - 1]);
                } else {
                    assert(res@[i] == old_res[i]);
                }
            }
        }
        r = r + 1;
    }
    res
}

/// `a` sorts no later than `b` in the given direction.
pub open spec fn sorts_no_later<T: TableOrd>(a: T, b: T, descending: bool) -> bool {
    directed(a.spec_order(&b), descending) != TableOrder::Greater
}

/// The keys order consistently: "sorts no later than" is transitive among
/// them.
pub open spec fn keys_order_consistently<T: TableOrd>(keys: Seq<T>, descending: bool) -> bool {
    forall|a: int, b: int, c: int|
        #![trigger sorts_no_later(keys[a], keys[b], descending), sorts_no_later(keys[b], keys[c], descending)]
        0 <= a < keys.len() && 0 <= b < keys.len() && 0 <= c < keys.len() && sorts_no_later(
            keys[a],
            keys[b],
            descending,
        ) && sorts_no_later(keys[b], keys[c], descending) ==> sorts_no_later(keys[a], keys[c], descending)
}

proof fn lemma_both_ways_equal<T: TableOrd>(a: T, b: T, descending: bool)
    requires
        sorts_no_later(a, b, descending),
        sorts_no_later(b, a, descending),
    ensures
        directed(a.spec_order(&b), descending) == TableOrder::Equal,
{
    T::lemma_order_flip(&a, &b);
    lemma_directed_flip(b.spec_order(&a), descending);
}

proof fn lemma_pair_in_order<T: TableOrd>(p: Seq<usize>, keys: Seq<T>, descending: bool, i: int, j: int)
    requires
        is_row_permutation(p, keys.len()),
        sorted_by_keys(p, keys, descending),
        keys_order_consistently(keys, descending),
        0 <= i < j < p.len(),
    ensures
        sorts_no_later(keys[p[i] as int], keys[p[j] as int], descending),
        directed(keys[p[i] as int].spec_order(&keys[p[j] as int]), descending) == TableOrder::Equal ==> p[i]
            < p[j],
    decreases j - i,
{
    let k = j - 1;
    assert(adjacent_in_order(p, keys, k, descending));
    if i < k {
        lemma_pair_in_order(p, keys, descending, i, k);
        let a = p[i] as int;
        let b = p[k] as int;
        let c = p[j] as int;
        assert(sorts_no_later(keys[a], keys[b], descending));
        assert(sorts_no_later(keys[b], keys[c], descending));
        if directed(keys[a].spec_order(&keys[c]), descending) == TableOrder::Equal {
            T::lemma_order_flip(&keys[a], &keys[c]);
            lemma_directed_flip(keys[c].spec_order(&keys[a]), descending);
            assert(sorts_no_later(keys[c], keys[a], descending));
            assert(sorts_no_later(keys[b], keys[a], descending));
            lemma_both_ways_equal(keys[a], keys[b], descending);
            assert(sorts_no_later(keys[c], keys[b], descending));
            lemma_both_ways_equal(keys[b], keys[c], descending);
        }
    }
}

/// Where the keys order consistently, the rows come out sorted (no row sorts
/// after a later one) and stably (rows with equal keys keep the order they
/// had).
pub proof fn lemma_sorted_rows_are_stably_sorted<T: TableOrd>(p: Seq<usize>, keys: Seq<T>, descending: bool)
    requires
        is_row_permutation(p, keys.len()),
        sorted_by_keys(p, keys, descending),
        keys_order_consistently(keys, descending),
    ensures
        forall|i: int, j: int|
            #![trigger p[i], p[j]]
            0 <= i < j < p.len() ==> sorts_no_later(keys[p[i] as int], keys[p[j] as int], descending) && (
            directed(keys[p[i] as int].spec_order(&keys[p[j] as int]), descending) == TableOrder::Equal
                ==> p[i] < p[j]),
{
    assert forall|i: int, j: int| #![trigger p[i], p[j]] 0 <= i < j < p.len() implies sorts_no_later(
        keys[p[i] as int],
        keys[p[j] as int],
        descending,
    ) && (directed(keys[p[i] as int].spec_order(&keys[p[j] as int]), descending) == TableOrder::Equal ==> p[i]
        < p[j]) by {
        lemma_pair_in_order(p, keys, descending, i, j);
    }
}

/// Integers order consistently.
pub proof fn lemma_u32_keys_order_consistently(keys: Seq<u32>, descending: bool)
    ensures
        keys_order_consistently(keys, descending),
{
}

proof fn lemma_bytes_order_trans(a: Seq<u8>, b: Seq<u8>, c: Seq<u8>)
    requires
        bytes_order(a, b) != TableOrder::Greater,
        bytes_order(b, c) != TableOrder::Greater,
    ensures
        bytes_order(a, c) != TableOrder::Greater,
    decreases a.len(),
{
    if a.len() > 0 && b.len() > 0 && c.len() > 0 && a[0] == b[0] && b[0] == c[0] {
        lemma_bytes_order_trans(a.drop_first(), b.drop_first(), c.drop_first());
    }
}

/// Text keys order consistently, in either direction.
pub proof fn lemma_string_keys_order_consistently(keys: Seq<String>, descending: bool)
    ensures
        keys_order_consistently(keys, descending),
{
    assert forall|a: int, b: int, c: int|
        #![trigger sorts_no_later(keys[a], keys[b], descending), sorts_no_later(keys[b], keys[c], descending)]
        0 <= a < keys.len() && 0 <= b < keys.len() && 0 <= c < keys.len() && sorts_no_later(
            keys[a],
            keys[b],
            descending,
        ) && sorts_no_later(keys[b], keys[c], descending) implies sorts_no_later(keys[a], keys[c], descending) by {
        let x = vstd::utf8::encode_utf8(keys[a]@);
        let y = vstd::utf8::encode_utf8(keys[b]@);
        let z = vstd::utf8::encode_utf8(keys[c]@);
        if descending {
            lemma_bytes_order_flip(x, y);
            lemma_bytes_order_flip(y, z);
            lemma_bytes_order_flip(x, z);
            lemma_bytes_order_trans(z, y, x);
        } else {
            lemma_bytes_order_trans(x, y, z);
        }
    }
}

/// Which page of a table's rows is shown, and how many rows a page holds.
#[derive(Clone, Copy, Debug, PartialEq, Eq)]
pub struct TablePage {
    pub page: usize,
    pub items_per_page: usize,
}

/// The index of the last page of `len` rows, `per_page` to a page (page 0
/// when there are no rows).
pub open spec fn last_page_of(len: int, per_page: int) -> int {
    if len == 0 {
        0
    } else {
        (len - 1) / per_page
    }
}

/// The page before `page`; the first page stays.
pub open spec fn previous_page_of(page: int) -> int {
    if page == 0 {
        0
    } else {
        page - 1
    }
}

/// The page after `page`, up to the last page of `len` rows.
pub open spec fn next_page_of(page: int, len: int, per_page: int) -> int {
    let last = last_page_of(len, per_page);
    if page + 1 < last {
        page + 1
    } else {
        last
    }
}

/// The rows shown on page `page`: from `page * per_page` (or the end) for at
/// most `per_page` rows.
pub open spec fn page_rows(len: int, page: int, per_page: int) -> (int, int) {
    let start = if page * per_page < len {
        page * per_page
    } else {
        len
    };
    let end = if start + per_page < len {
        start + per_page
    } else {
        len
    };
    (start, end)
}

/// The range written above a table of `len` rows when they do not fit on one
/// page: the first row of the page counted from 1, and the last row.
pub open spec fn shown_range_of(len: int, page: int, per_page: int) -> Option<(int, int)> {
    if len > per_page {
        let first = page * per_page;
        let rest = len - first;
        Some((first + 1, first + if per_page < rest { per_page } else { rest }))
    } else {
        None
    }
}

impl TablePage {
    /// A page holds at least one row.
    pub open spec fn wf(&self) -> bool {
        self.items_per_page > 0
    }

    /// The first page, with a thousand rows to a page.
    pub fn new() -> (res: TablePage)
        ensures
            res.page == 0,
            res.items_per_page == 1000,
            res.wf(),
    {
        TablePage { page: 0, items_per_page: 1000 }
    }

    /// The index of the last page of `len` rows.
    pub fn last_page(&self, len: usize) -> (res: usize)
        requires
            self.wf(),
        ensures
            res == last_page_of(len as int, self.items_per_page as int),
    {
        if len == 0 {
            0
        } else {
            (len - 1) / self.items_per_page
        }
    }

    /// Goes back a page; the first page stays.
    pub fn previous(&mut self)
        ensures
            final(self).page == previous_page_of(old(self).page as int),
            final(self).items_per_page == old(self).items_per_page,
    {
        if self.page > 0 {
            self.page = self.page - 1;
        }
    }

    /// Goes on a page, up to the last page of `len` rows.
    pub fn next(&mut self, len: usize)
        requires
            old(self).wf(),
        ensures
            final(self).page == next_page_of(old(self).page as int, len as int, old(self).items_per_page as int),
            final(self).items_per_page == old(self).items_per_page,
    {
        let last = self.last_page(len);
        if self.page < last {
            self.page = self.page + 1;
        } else {
            self.page = last;
        }
    }

    /// Sets how many rows a page holds, from the number entered: at least one.
    pub fn set_items_per_page(&mut self, requested: i32)
        ensures
            final(self).items_per_page == if requested < 1 {
                1
            } else {
                requested as int
            },
            final(self).page == old(self).page,
            final(self).wf(),
    {
        if requested < 1 {
            self.items_per_page = 1;
        } else {
            self.items_per_page = requested as usize;
        }
    }

    /// The rows shown on the current page of `len` rows, as a start and an end
    /// index.
    pub fn visible_rows(&self, len: usize) -> (res: (usize, usize))
        ensures
            (res.0 as int, res.1 as int) == page_rows(len as int, self.page as int, self.items_per_page as int),
    {
        let start = match self.page.checked_mul(self.items_per_page) {
            Some(x) => if x < len {
                x
            } else {
                len
            },
            None => len,
        };
        let end = if self.items_per_page < len - start {
            start + self.items_per_page
        } else {
            len
        };
        (start, end)
    }

    /// The range of rows written above a table of `len` rows that do not fit
    /// on one page; `None` when they fit. The current page must start within
    /// the rows.
    pub fn shown_range(&self, len: usize) -> (res: Option<(usize, usize)>)
        requires
            len > self.items_per_page ==> self.page * self.items_per_page < len,
        ensures
            match shown_range_of(len as int, self.page as int, self.items_per_page as int) {
                Some((a, b)) => res == Some((a as usize, b as usize)),
                None => res is None,
            },
    {
        if len > self.items_per_page {
            let first = self.page * self.items_per_page;
            let rest = len - first;
            let count = if self.items_per_page < rest {
                self.items_per_page
            } else {
                rest
            };
            Some((first + 1, first + count))
        } else {
            None
        }
    }
}

/// Where a page starts within the rows, the range written above the table is
/// the shown rows counted from 1.
pub proof fn lemma_shown_range_is_visible_rows(len: int, page: int, per_page: int)
    requires
        0 <= page,
        0 < per_page < len,
        page * per_page < len,
    ensures
        shown_range_of(len, page, per_page) == Some(
            (page_rows(len, page, per_page).0 + 1, page_rows(len, page, per_page).1),
        ),
{
}

/// Going on a page never passes the last page, and from a page before the
/// last, going on and then back returns to it.
pub proof fn lemma_next_then_previous(len: int, page: int, per_page: int)
    requires
        0 <= page,
        0 < per_page,
        0 <= len,
    ensures
        next_page_of(page, len, per_page) <= last_page_of(len, per_page),
        page < last_page_of(len, per_page) ==> previous_page_of(next_page_of(page, len, per_page)) == page,
{
}

} // verus!
