use vstd::prelude::*;
use crate::ast::{AstNode, Expr, denotes};

verus! {

/// Labels in strictly increasing order.
pub open spec fn sorted_labels(lines: Seq<(u64, AstNode)>) -> bool {
    forall|i: int, j: int| 0 <= i < j < lines.len() ==> lines[i].0 < lines[j].0
}

/// A sorted table of lines holds exactly the statements of `m`.
pub open spec fn table_of(lines: Seq<(u64, AstNode)>, m: Map<u64, Expr>) -> bool {
    &&& sorted_labels(lines)
    &&& forall|k: u64| m.contains_key(k) <==> exists|i: int| 0 <= i < lines.len() && #[trigger] lines[i].0 == k
    &&& forall|i: int| 0 <= i < lines.len() ==> m.contains_key(#[trigger] lines[i].0) && denotes(lines[i].1, m[lines[i].0])
}

/// A well-formed table lists exactly its statements, in label order.
pub broadcast proof fn lemma_program_table(p: Program)
    requires
        #[trigger] p.wf(),
    ensures
        table_of(p.entries(), p.program()),
{
}

/// A table of statements by line label, kept in label order.
pub struct Program {
    lines: Vec<(u64, AstNode)>,
    model: Ghost<Map<u64, Expr>>,
}

impl Program {
    /// The statements, by label.
    pub closed spec fn program(&self) -> Map<u64, Expr> {
        self.model@
    }

    /// The lines, in label order.
    pub closed spec fn entries(&self) -> Seq<(u64, AstNode)> {
        self.lines@
    }

    pub closed spec fn wf(&self) -> bool {
        table_of(self.lines@, self.model@)
    }

    /// A well-formed table lists exactly its statements, in label order.
    pub proof fn lemma_table(&self)
        requires
            self.wf(),
        ensures
            table_of(self.entries(), self.program()),
    {
    }

    pub fn new() -> (r: Program)
        ensures
            r.wf(),
            table_of(r.entries(), r.program()),
            r.program() == Map::<u64, Expr>::empty(),
            r.entries().len() == 0,
    {
        Program { lines: Vec::new(), model: Ghost(Map::empty()) }
    }

    pub fn lines(&self) -> (r: &Vec<(u64, AstNode)>)
        ensures
            r@ == self.entries(),
    {
        &self.lines
    }

    /// Takes the last line out of the table.
    pub(crate) fn pop_line(&mut self) -> (r: Option<(u64, AstNode)>)
        requires
            old(self).wf(),
        ensures
            final(self).wf(),
            match r {
                Some((k, n)) => {
                    &&& old(self).program().contains_key(k)
                    &&& denotes(n, old(self).program()[k])
                    &&& final(self).program() == old(self).program().remove(k)
                    &&& final(self).entries().len() == old(self).entries().len() - 1
                },
                None => old(self).program() == Map::<u64, Expr>::empty() && final(self).program() == old(self).program() && old(self).entries().len() == 0,
            },
    {
        let ghost old_lines = self.lines@;
        match self.lines.pop() {
            Some((k, n)) => {
                proof {
                    let nl = self.lines@;
                    let m1 = self.model@.remove(k);
                    assert(old_lines[old_lines.len() - 1] == (k, n));
                    assert forall|kk: u64| m1.contains_key(kk) <==> exists|j: int| 0 <= j < nl.len() && #[trigger] nl[j].0 == kk by {
                        if m1.contains_key(kk) {
                            let j = choose|j: int| 0 <= j < old_lines.len() && #[trigger] old_lines[j].0 == kk;
                            assert(nl[j] == old_lines[j]);
                        }
                        if exists|j: int| 0 <= j < nl.len() && #[trigger] nl[j].0 == kk {
                            let j = choose|j: int| 0 <= j < nl.len() && #[trigger] nl[j].0 == kk;
                            assert(old_lines[j].0 == kk);
                            assert(old_lines[j].0 < old_lines[old_lines.len() - 1].0);
                        }
                    }
                    assert forall|j: int| 0 <= j < nl.len() implies m1.contains_key(#[trigger] nl[j].0) && denotes(nl[j].1, m1[nl[j].0]) by {
                        assert(nl[j] == old_lines[j]);
                        assert(old_lines[j].0 < old_lines[old_lines.len() - 1].0);
                    }
                }
                self.model = Ghost(self.model@.remove(k));
                Some((k, n))
            },
            None => {
                proof {
                    assert(self.model@ =~= Map::<u64, Expr>::empty()) by {
                        assert forall|kk: u64| !self.model@.contains_key(kk) by {
                            if self.model@.contains_key(kk) {
                                let j = choose|j: int| 0 <= j < old_lines.len() && #[trigger] old_lines[j].0 == kk;
                            }
                        }
                    }
                }
                None
            },
        }
    }

    /// Takes the lines out of the table.
    pub(crate) fn into_lines(self) -> (r: Vec<(u64, AstNode)>)
        requires
            self.wf(),
        ensures
            r@ == self.entries(),
            table_of(r@, self.program()),
    {
        self.lines
    }

    /// Enters a line into the table, replacing a line of the same label.
    pub(crate) fn insert_line(&mut self, k: u64, n: AstNode, Ghost(e): Ghost<Expr>)
        requires
            old(self).wf(),
            denotes(n, e),
        ensures
            final(self).wf(),
            final(self).program() == old(self).program().insert(k, e),
    {
        let ghost old_lines = self.lines@;
        let mut i: usize = 0;
        while i < self.lines.len() && self.lines[i].0 < k
            invariant
                i <= self.lines@.len(),
                self.lines@ == old_lines,
                forall|j: int| 0 <= j < i ==> #[trigger] old_lines[j].0 < k,
            decreases self.lines@.len() - i,
        {
            i = i + 1;
        }
        let ghost mut tail_start = i as int;
        if i < self.lines.len() && self.lines[i].0 == k {
            self.lines.remove(i);
            proof {
                tail_start = i + 1;
            }
        }
        let ghost mid = self.lines@;
        self.lines.insert(i, (k, n));
        proof {
            let m0 = self.model@;
            let m1 = m0.insert(k, e);
            let nl = self.lines@;
            assert(nl =~= old_lines.subrange(0, i as int).push((k, n)) + old_lines.subrange(tail_start, old_lines.len() as int));
            assert forall|j: int| tail_start <= j < old_lines.len() implies #[trigger] old_lines[j].0 > k by {
                if i < old_lines.len() {
                    assert(old_lines[i as int].0 >= k);
                    if j > i {
                        assert(old_lines[i as int].0 < old_lines[j].0);
                    }
                }
            }
            assert forall|a: int, b: int| 0 <= a < b < nl.len() implies nl[a].0 < nl[b].0 by {
                if a < i && b > i {
                    assert(nl[b] == old_lines[b - i - 1 + tail_start]);
                } else if a > i {
                    assert(nl[a] == old_lines[a - i - 1 + tail_start]);
                    assert(nl[b] == old_lines[b - i - 1 + tail_start]);
                } else if a == i {
                    assert(nl[b] == old_lines[b - i - 1 + tail_start]);
                }
            }
            assert forall|kk: u64| m1.contains_key(kk) <==> exists|j: int| 0 <= j < nl.len() && #[trigger] nl[j].0 == kk by {
                if m1.contains_key(kk) {
                    if kk == k {
                        assert(nl[i as int].0 == kk);
                    } else {
                        let j = choose|j: int| 0 <= j < old_lines.len() && #[trigger] old_lines[j].0 == kk;
                        if j < i {
                            assert(nl[j].0 == kk);
                        } else {
                            assert(j >= tail_start);
                            assert(nl[j - tail_start + i + 1] == old_lines[j]);
                        }
                    }
                }
                if exists|j: int| 0 <= j < nl.len() && #[trigger] nl[j].0 == kk {
                    let j = choose|j: int| 0 <= j < nl.len() && #[trigger] nl[j].0 == kk;
                    if j < i {
                        assert(old_lines[j].0 == kk);
                    } else if j > i {
                        assert(old_lines[j - i - 1 + tail_start].0 == kk);
                    }
                }
            }
            assert forall|j: int| 0 <= j < nl.len() implies m1.contains_key(#[trigger] nl[j].0) && denotes(nl[j].1, m1[nl[j].0]) by {
                if j < i {
                    assert(nl[j] == old_lines[j]);
                } else if j > i {
                    assert(nl[j] == old_lines[j - i - 1 + tail_start]);
                }
            }
        }
        self.model = Ghost(self.model@.insert(k, e));
    }

}

/// After statements parsed later are merged over earlier ones, a label that the
/// later statements have stands on exactly one line of the table, and that line
/// holds the later statement.
pub proof fn lemma_later_statement_wins(
    lines: Seq<(u64, AstNode)>,
    earlier: Map<u64, Expr>,
    later: Map<u64, Expr>,
    k: u64,
)
    requires
        table_of(lines, earlier.union_prefer_right(later)),
        later.contains_key(k),
    ensures
        exists|i: int| 0 <= i < lines.len() && lines[i].0 == k && denotes(lines[i].1, later[k]),
        forall|i: int, j: int|
            0 <= i < lines.len() && 0 <= j < lines.len() && lines[i].0 == k && lines[j].0 == k
                ==> i == j,
{
    let m = earlier.union_prefer_right(later);
    assert(m.contains_key(k));
    let i = choose|i: int| 0 <= i < lines.len() && #[trigger] lines[i].0 == k;
    assert(m[k] == later[k]);
    assert(denotes(lines[i].1, later[k]));
    assert forall|i: int, j: int|
        0 <= i < lines.len() && 0 <= j < lines.len() && lines[i].0 == k && lines[j].0 == k
            implies i == j by {
        if i < j {
            assert(lines[i].0 < lines[j].0);
        } else if j < i {
            assert(lines[j].0 < lines[i].0);
        }
    }
}

} // verus!
