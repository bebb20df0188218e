//! The console's command history: the latest lines first, browsed with the
//! arrow keys, keeping the line being typed when browsing starts.
use vstd::prelude::*;

verus! {

/// The history as values: the lines (latest first), how far back the browsing
/// stands (0 when not browsing), the most lines kept, and the line that was
/// being typed when browsing started.
pub struct HistoryModel {
    pub items: Seq<Seq<char>>,
    pub pos: nat,
    pub size: nat,
    pub last_item: Option<Seq<char>>,
}

/// The smallest of three numbers.
pub open spec fn min3(a: nat, b: nat, c: nat) -> nat {
    if a <= b && a <= c {
        a
    } else if b <= c {
        b
    } else {
        c
    }
}

/// One step back: the position moves one line further back, up to the oldest
/// line; starting to browse remembers the typed line.
pub open spec fn model_prev(m: HistoryModel, typed: Seq<char>) -> (HistoryModel, Option<Seq<char>>) {
    let pos = min3(m.size + 1, m.pos + 1, m.items.len());
    let last_item = if pos == 1 {
        Some(typed)
    } else {
        m.last_item
    };
    let res = if pos == 0 {
        None
    } else {
        Some(m.items[pos - 1])
    };
    (HistoryModel { pos, last_item, ..m }, res)
}

/// One step forward: the position moves one line nearer, and at the front
/// the remembered typed line comes back.
pub open spec fn model_next(m: HistoryModel) -> (HistoryModel, Option<Seq<char>>) {
    let pos: nat = if m.pos == 0 {
        0
    } else {
        (m.pos - 1) as nat
    };
    let res = if pos == 0 {
        m.last_item
    } else {
        Some(m.items[pos - 1])
    };
    (HistoryModel { pos, ..m }, res)
}

/// A new line goes in front; browsing stops, the oldest lines beyond the
/// size are dropped.
pub open spec fn model_insert(m: HistoryModel, line: Seq<char>) -> HistoryModel {
    let items = seq![line] + m.items;
    HistoryModel {
        items: if items.len() > m.size {
            items.take(m.size as int)
        } else {
            items
        },
        pos: 0,
        last_item: None,
        ..m
    }
}

/// The console's command history.
#[derive(Debug)]
pub struct History {
    pub buf: Vec<String>,
    pub pos: usize,
    pub size: usize,
    pub last_item: Option<String>,
}

/// The text of an optional line.
pub open spec fn opt_view(s: Option<String>) -> Option<Seq<char>> {
    match s {
        Some(t) => Some(t@),
        None => None,
    }
}

/// The text of an optional borrowed line.
pub open spec fn opt_str_view(s: Option<&str>) -> Option<Seq<char>> {
    match s {
        Some(t) => Some(t@),
        None => None,
    }
}

impl View for History {
    type V = HistoryModel;

    open spec fn view(&self) -> HistoryModel {
        HistoryModel {
            items: self.buf@.map_values(|s: String| s@),
            pos: self.pos as nat,
            size: self.size as nat,
            last_item: opt_view(self.last_item),
        }
    }
}

impl History {
    /// The position lies within the lines, which are no more than the size;
    /// the size leaves room to count one past it.
    pub open spec fn wf(&self) -> bool {
        &&& self.pos <= self.buf@.len()
        &&& self.buf@.len() <= self.size
        &&& self.size < usize::MAX
    }

    /// An empty history keeping up to `size` lines.
    pub fn new(size: usize) -> (res: History)
        requires
            size < usize::MAX,
        ensures
            res.wf(),
            res@ == (HistoryModel { items: Seq::empty(), pos: 0, size: size as nat, last_item: None }),
    {
        let res = History { buf: Vec::new(), pos: 0, size, last_item: None };
        assert(res@.items =~= Seq::<Seq<char>>::empty());
        res
    }

    /// Steps back to an older line; `last_item` is the line being typed, kept
    /// when browsing starts.
    pub fn prev(&mut self, last_item: &str) -> (res: Option<&str>)
        requires
            old(self).wf(),
        ensures
            final(self).wf(),
            final(self)@ == model_prev(old(self)@, last_item@).0,
            opt_str_view(res) == model_prev(old(self)@, last_item@).1,
    {
        let mut pos = self.pos + 1;
        if self.size + 1 < pos {
            pos = self.size + 1;
        }
        if self.buf.len() < pos {
            pos = self.buf.len();
        }
        self.pos = pos;
        if pos == 0 {
            return None;
        } else if pos == 1 {
            self.last_item = Some(last_item.to_owned());
        }
        Some(self.buf[pos - 1].as_str())
    }

    /// Steps forward to a newer line, or back to the line that was being typed.
    pub fn next(&mut self) -> (res: Option<&str>)
        requires
            old(self).wf(),
        ensures
            final(self).wf(),
            final(self)@ == model_next(old(self)@).0,
            opt_str_view(res) == model_next(old(self)@).1,
    {
        if self.pos > 0 {
            self.pos = self.pos - 1;
        }
        if self.pos == 0 {
            return match &self.last_item {
                Some(s) => Some(s.as_str()),
                None => None,
            };
        }
        Some(self.buf[self.pos - 1].as_str())
    }

    /// Puts a new line in front and stops browsing.
    pub fn insert(&mut self, string: String)
        requires
            old(self).wf(),
        ensures
            final(self).wf(),
            final(self)@ == model_insert(old(self)@, string@),
    {
        let ghost old_items = self@.items;
        self.last_item = None;
        self.pos = 0;
        self.buf.insert(0, string);
        if self.buf.len() > self.size {
            self.buf.truncate(self.size);
        }
        proof {
            let items = seq![string@] + old_items;
            if items.len() > self.size {
                assert(self@.items =~= items.take(self.size as int));
            } else {
                assert(self@.items =~= items);
            }
        }
    }
}

/// Browsing back right after a line was entered gives that line.
pub proof fn lemma_prev_after_insert(m: HistoryModel, line: Seq<char>, typed: Seq<char>)
    requires
        m.size >= 1,
    ensures
        model_prev(model_insert(m, line), typed).1 == Some(line),
{
    let n = model_insert(m, line);
    assert(n.items.len() >= 1);
    assert(n.items[0] == line);
}

/// Stepping back once and forward once from the typed line gives the typed
/// line back, whenever there is a line to step back to.
pub proof fn lemma_prev_next_restores(m: HistoryModel, typed: Seq<char>)
    requires
        m.pos == 0,
        m.items.len() >= 1,
        m.size >= 1,
    ensures
        model_next(model_prev(m, typed).0).1 == Some(typed),
        model_next(model_prev(m, typed).0).0.pos == 0,
{
}

/// The history after stepping back once for each typed line in turn.
pub open spec fn model_prevs(m: HistoryModel, typed: Seq<Seq<char>>) -> HistoryModel
    decreases typed.len(),
{
    if typed.len() == 0 {
        m
    } else {
        model_prev(model_prevs(m, typed.drop_last()), typed.last()).0
    }
}

/// The history after stepping forward `n` times.
pub open spec fn model_nexts(m: HistoryModel, n: nat) -> HistoryModel
    decreases n,
{
    if n == 0 {
        m
    } else {
        model_next(model_nexts(m, (n - 1) as nat)).0
    }
}

proof fn lemma_prevs_shape(m: HistoryModel, typed: Seq<Seq<char>>)
    requires
        m.pos == 0,
        typed.len() <= m.items.len(),
        m.items.len() <= m.size,
    ensures
        model_prevs(m, typed).pos == typed.len(),
        model_prevs(m, typed).items == m.items,
        model_prevs(m, typed).size == m.size,
        typed.len() >= 1 ==> model_prevs(m, typed).last_item == Some(typed[0]),
    decreases typed.len(),
{
    if typed.len() > 0 {
        lemma_prevs_shape(m, typed.drop_last());
        if typed.len() > 1 {
            assert(typed.drop_last()[0] == typed[0]);
        }
    }
}

proof fn lemma_nexts_shape(m: HistoryModel, n: nat)
    requires
        n <= m.pos,
    ensures
        model_nexts(m, n).pos == m.pos - n,
        model_nexts(m, n).items == m.items,
        model_nexts(m, n).size == m.size,
        model_nexts(m, n).last_item == m.last_item,
    decreases n,
{
    if n > 0 {
        lemma_nexts_shape(m, (n - 1) as nat);
    }
}

/// Browsing `k` lines back from the line being typed (the first step given
/// that line) and then `k` lines forward walks the lines newest to oldest and
/// back, and the last step forward gives the typed line again, with browsing
/// stopped.
pub proof fn lemma_browse_round_trip(m: HistoryModel, typed: Seq<Seq<char>>)
    requires
        m.pos == 0,
        1 <= typed.len() <= m.items.len(),
        m.items.len() <= m.size,
    ensures
        model_prevs(m, typed).pos == typed.len(),
        forall|j: int|
            0 <= j < typed.len() ==> #[trigger] model_prev(model_prevs(m, typed.take(j)), typed[j]).1
                == Some(m.items[j]),
        forall|i: nat|
            1 <= i < typed.len() ==> #[trigger] model_next(model_nexts(model_prevs(m, typed), (i - 1) as nat)).1
                == Some(m.items[typed.len() - i - 1]),
        model_next(model_nexts(model_prevs(m, typed), (typed.len() - 1) as nat)).1 == Some(typed[0]),
        model_nexts(model_prevs(m, typed), typed.len()).pos == 0,
        model_nexts(model_prevs(m, typed), typed.len()).items == m.items,
{
    lemma_prevs_shape(m, typed);
    let after = model_prevs(m, typed);
    assert forall|j: int|
        0 <= j < typed.len() implies #[trigger] model_prev(model_prevs(m, typed.take(j)), typed[j]).1
            == Some(m.items[j]) by {
        lemma_prevs_shape(m, typed.take(j));
    }
    assert forall|i: nat|
        1 <= i < typed.len() implies #[trigger] model_next(model_nexts(after, (i - 1) as nat)).1
            == Some(m.items[typed.len() - i - 1]) by {
        lemma_nexts_shape(after, (i - 1) as nat);
    }
    lemma_nexts_shape(after, (typed.len() - 1) as nat);
    lemma_nexts_shape(after, typed.len());
}

/// Entering lines never makes the history hold more than its size.
pub proof fn lemma_insert_bounded(m: HistoryModel, line: Seq<char>)
    requires
        m.items.len() <= m.size,
    ensures
        model_insert(m, line).items.len() <= m.size,
        model_insert(m, line).items.len() == if m.items.len() < m.size {
            m.items.len() + 1
        } else {
            m.size
        },
{
}

} // verus!
