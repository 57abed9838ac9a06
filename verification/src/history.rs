use vstd::prelude::*;
use crate::screen::{push_history, Row};
use crate::terminal::TerminalCell;

verus! {

/// The rows of `rows`, each as a sequence of cells.
pub open spec fn rows_view(rows: Vec<Vec<TerminalCell>>) -> Seq<Row> {
    Seq::new(rows@.len(), |r: int| rows@[r]@)
}

/// The scrollback: the rows that left the top of the screen, oldest first,
/// never more than `capacity` of them.
pub struct History {
    pub(crate) rows: Vec<Vec<TerminalCell>>,
    pub(crate) capacity: usize,
}

impl History {
    /// The retained rows, oldest first.
    pub open(crate) spec fn view(&self) -> Seq<Row> {
        rows_view(self.rows)
    }

    /// The largest number of rows that are retained.
    pub open(crate) spec fn capacity_spec(&self) -> usize {
        self.capacity
    }

    /// No more rows are held than the capacity allows.
    pub open spec fn wf(&self) -> bool {
        self@.len() <= self.capacity_spec()
    }

    /// An empty scrollback that will retain up to `capacity` rows.
    pub fn new(capacity: usize) -> (h: History)
        ensures
            h.wf(),
            h@ == Seq::<Row>::empty(),
            h.capacity_spec() == capacity,
    {
        let h = History { rows: Vec::new(), capacity };
        assert(h@ =~= Seq::<Row>::empty());
        h
    }

    /// The capacity this scrollback was made with.
    pub fn capacity(&self) -> (c: usize)
        ensures
            c == self.capacity_spec(),
    {
        self.capacity
    }

    /// The number of retained rows.
    pub fn len(&self) -> (n: usize)
        ensures
            n == self@.len(),
    {
        self.rows.len()
    }

    /// Appends `row`; where that exceeds the capacity, the oldest row is
    /// dropped.
    pub fn push(&mut self, row: Vec<TerminalCell>)
        requires
            old(self).wf(),
        ensures
            final(self).wf(),
            final(self).capacity_spec() == old(self).capacity_spec(),
            final(self)@ == push_history(old(self)@, seq![row@], old(self).capacity_spec()),
    {
        let ghost before = self@;
        reveal(push_history);
        self.rows.push(row);
        assert(self@ =~= before + seq![row@]);
        if self.rows.len() > self.capacity {
            self.rows.remove(0);
            assert(self@ =~= (before + seq![row@]).subrange(
                (before + seq![row@]).len() - self.capacity,
                (before + seq![row@]).len() as int,
            ));
        }
    }

    /// The row at `index`, counted from the oldest retained row, if there
    /// is one.
    pub fn get(&self, index: usize) -> (row: Option<&Vec<TerminalCell>>)
        ensures
            index < self@.len() ==> row is Some && row->0@ == self@[index as int],
            index >= self@.len() ==> row is None,
    {
        if index < self.rows.len() {
            Some(&self.rows[index])
        } else {
            None
        }
    }

    /// Drops the oldest rows until at most `keep` are left.
    pub fn trim_to(&mut self, keep: usize)
        requires
            old(self).wf(),
        ensures
            final(self).wf(),
            final(self).capacity_spec() == old(self).capacity_spec(),
            old(self)@.len() <= keep ==> final(self)@ == old(self)@,
            old(self)@.len() > keep ==> final(self)@ == old(self)@.subrange(
                old(self)@.len() - keep,
                old(self)@.len() as int,
            ),
    {
        let ghost before = self@;
        let n = self.rows.len();
        if n > keep {
            let excess: usize = n - keep;
            let mut i: usize = 0;
            while i < excess
                invariant
                    i <= excess,
                    excess == n - keep,
                    n == before.len(),
                    self.capacity == old(self).capacity,
                    self.rows@.len() == n - i,
                    self@ =~= before.subrange(i as int, n as int),
                decreases excess - i,
            {
                let ghost prev = self@;
                self.rows.remove(0);
                i += 1;
                assert(self@ =~= prev.subrange(1, prev.len() as int));
            }
        } else {
            assert(self@ =~= before);
        }
    }

    /// Drops every row.
    pub fn clear(&mut self)
        ensures
            final(self).wf(),
            final(self).capacity_spec() == old(self).capacity_spec(),
            final(self)@ == Seq::<Row>::empty(),
    {
        self.rows.clear();
        assert(self@ =~= Seq::<Row>::empty());
    }
}

/// Appending rows one after the other retains the same rows as appending
/// them at once.
pub proof fn lemma_push_history_step(history: Seq<Row>, rows: Seq<Row>, row: Row, capacity: usize)
    ensures
        push_history(push_history(history, rows, capacity), seq![row], capacity) == push_history(
            history,
            rows.push(row),
            capacity,
        ),
{
    reveal(push_history);
    let a = push_history(history, rows, capacity);
    let all1 = a + seq![row];
    let all2 = history + rows.push(row);
    assert(all2 =~= (history + rows) + seq![row]);
    assert(push_history(a, seq![row], capacity) =~= push_history(history, rows.push(row), capacity));
}

} // verus!
