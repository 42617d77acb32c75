//! Display buffer slots. Each slot holds a staging string, written freely
//! by the owning session while a tick is formatted, and a published string,
//! the only value a renderer ever reads. `set` commits the staging value
//! into the published one in a single step; staging writes never reach the
//! published value on their own, so a reader always sees a fully formed
//! string.

use crate::fmt::lines_cat;
use vstd::prelude::*;
use vstd::string::StringExecFns;

verus! {

/// One display slot: a staging buffer and a published value.
pub struct Text {
    /// Staging area, owned by the writing session during a tick.
    pub buf: String,
    /// Published value; only ever replaced whole, by `set`.
    pub published: String,
}

/// One step of the slot protocol, as seen at the spec level: a staging
/// write (of a whole intermediate buffer state) or a commit.
pub enum SlotOp {
    Stage(Seq<char>),
    Commit,
}

/// `(staging, published)` after one protocol step.
pub open spec fn slot_step(state: (Seq<char>, Seq<char>), op: SlotOp) -> (Seq<char>, Seq<char>) {
    match op {
        SlotOp::Stage(v) => (v, state.1),
        SlotOp::Commit => (state.0, state.0),
    }
}

/// `(staging, published)` after a whole run of protocol steps.
pub open spec fn slot_run(state: (Seq<char>, Seq<char>), ops: Seq<SlotOp>) -> (
    Seq<char>,
    Seq<char>,
)
    decreases ops.len(),
{
    if ops.len() == 0 {
        state
    } else {
        slot_run(slot_step(state, ops[0]), ops.drop_first())
    }
}

/// No interleaving of staging writes and commits ever publishes a mixture:
/// after any run of protocol steps, the published value is either the value
/// published at the start or the exact staging content at some commit step.
pub proof fn lemma_published_is_committed(state: (Seq<char>, Seq<char>), ops: Seq<SlotOp>)
    ensures
        slot_run(state, ops).1 == state.1 || exists|i: int|
            0 <= i < ops.len() && ops[i] is Commit && slot_run(state, ops).1 == slot_run(
                state,
                ops.take(i),
            ).0,
    decreases ops.len(),
{
    if ops.len() > 0 {
        let state1 = slot_step(state, ops[0]);
        lemma_published_is_committed(state1, ops.drop_first());
        assert(ops.take(0) =~= Seq::<SlotOp>::empty());
        if slot_run(state1, ops.drop_first()).1 == state1.1 {
            if ops[0] is Commit {
                assert(slot_run(state, ops).1 == slot_run(state, ops.take(0)).0);
            }
        } else {
            let j = choose|j: int|
                0 <= j < ops.drop_first().len() && ops.drop_first()[j] is Commit && slot_run(
                    state1,
                    ops.drop_first(),
                ).1 == slot_run(state1, ops.drop_first().take(j)).0;
            assert(ops.drop_first().take(j) =~= ops.take(j + 1).drop_first());
            assert(slot_run(state, ops.take(j + 1)).0 == slot_run(
                state1,
                ops.drop_first().take(j),
            ).0);
            assert(ops[j + 1] is Commit);
        }
    }
}

impl Text {
    /// The published value, as the renderer sees it.
    pub open spec fn spec_published(&self) -> Seq<char> {
        self.published@
    }

    /// A fresh slot: empty staging buffer, empty published value.
    pub fn new() -> (r: Self)
        ensures
            r.buf@ == Seq::<char>::empty(),
            r.spec_published() == Seq::<char>::empty(),
    {
        Text { buf: String::new(), published: String::new() }
    }

    /// Empties the staging buffer. The published value is untouched, as by
    /// every staging write.
    pub fn clear(&mut self)
        ensures
            final(self).buf@ == Seq::<char>::empty(),
            final(self).spec_published() == old(self).spec_published(),
    {
        self.buf = String::new();
    }

    /// Commits: replaces the published value with the staging value in one
    /// step. The staging buffer keeps its content.
    pub fn set(&mut self)
        ensures
            final(self).spec_published() == old(self).buf@,
            final(self).buf == old(self).buf,
            (final(self).buf@, final(self).spec_published()) == slot_step(
                (old(self).buf@, old(self).spec_published()),
                SlotOp::Commit,
            ),
    {
        self.published = self.buf.clone();
    }

    /// Read access for the renderer.
    pub fn published(&self) -> (r: &String)
        ensures
            r@ == self.spec_published(),
    {
        &self.published
    }

    /// A slot with the same staging and published content.
    pub fn duplicate(&self) -> (r: Self)
        ensures
            r.buf@ == self.buf@,
            r.spec_published() == self.spec_published(),
    {
        Text { buf: self.buf.clone(), published: self.published.clone() }
    }
}

/// A text panel of the dashboard: a display slot plus the formatting that
/// fills it.
pub struct AppTextView {
    pub text: Text,
}

impl AppTextView {
    /// A fresh panel with an empty slot.
    pub fn new() -> (r: Self)
        ensures
            r.text.buf@ == Seq::<char>::empty(),
            r.text.spec_published() == Seq::<char>::empty(),
    {
        AppTextView { text: Text::new() }
    }

    /// A panel with the same slot content.
    pub fn duplicate(&self) -> (r: Self)
        ensures
            r.text.buf@ == self.text.buf@,
            r.text.spec_published() == self.text.spec_published(),
    {
        AppTextView { text: self.text.duplicate() }
    }

    /// Restages the process table: one row per process, each on its own
    /// line, in the given order or reversed. Staging only; the published
    /// value is untouched until the tick commits.
    pub fn print_fdinfo(&mut self, rows: &Vec<String>, reverse: bool)
        ensures
            final(self).text.buf@ == fdinfo_text(rows@.map_values(|r: String| r@), reverse),
            final(self).text.spec_published() == old(self).text.spec_published(),
    {
        self.text.clear();
        let ghost deep = rows@.map_values(|r: String| r@);
        if !reverse {
            let mut i: usize = 0;
            while i < rows.len()
                invariant
                    i <= rows.len(),
                    deep == rows@.map_values(|r: String| r@),
                    self.text.buf@ == lines_cat(deep.take(i as int)),
                    self.text.spec_published() == old(self).text.spec_published(),
                decreases rows.len() - i,
            {
                proof {
                    reveal_strlit("\n");
                    crate::fmt::lemma_lines_cat_push(deep.take(i as int), deep[i as int]);
                    assert(deep.take(i as int).push(deep[i as int]) =~= deep.take(i + 1));
                }
                self.text.buf.append(rows[i].as_str());
                self.text.buf.append("\n");
                i = i + 1;
            }
            proof {
                assert(deep.take(rows@.len() as int) =~= deep);
            }
        } else {
            let ghost rev = deep.reverse();
            let mut i: usize = 0;
            while i < rows.len()
                invariant
                    i <= rows.len(),
                    deep == rows@.map_values(|r: String| r@),
                    rev == deep.reverse(),
                    self.text.buf@ == lines_cat(rev.take(i as int)),
                    self.text.spec_published() == old(self).text.spec_published(),
                decreases rows.len() - i,
            {
                proof {
                    reveal_strlit("\n");
                    crate::fmt::lemma_lines_cat_push(rev.take(i as int), rev[i as int]);
                    assert(rev.take(i as int).push(rev[i as int]) =~= rev.take(i + 1));
                    assert(rev[i as int] == deep[rows@.len() - 1 - i]);
                }
                self.text.buf.append(rows[rows.len() - 1 - i].as_str());
                self.text.buf.append("\n");
                i = i + 1;
            }
            proof {
                assert(rev.take(rows@.len() as int) =~= rev);
            }
        }
    }
}

/// The process table text: every row followed by a newline, reversed when
/// the reverse toggle is set.
pub open spec fn fdinfo_text(rows: Seq<Seq<char>>, reverse: bool) -> Seq<char> {
    if reverse {
        lines_cat(rows.reverse())
    } else {
        lines_cat(rows)
    }
}

} // verus!
