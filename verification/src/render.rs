//! The progress renderer: a slot array sized to the job count, one line per
//! job in original input order. Every completion event overwrites one slot
//! and repaints the whole fixed-height block; an empty slot shows the pending
//! placeholder.

use vstd::prelude::*;
use crate::resolve::_JenkinsJobConfig;
use crate::text::{split_lines_from, split_lines_spec};

verus! {

/// One printed line without its newline:
/// `{job-name} -> {status-or-placeholder}`.
pub open spec fn line_body(name: Seq<char>, slot: Seq<char>) -> Seq<char> {
    if slot.len() == 0 {
        name + " -> "@ + "发布中"@
    } else {
        name + " -> "@ + slot
    }
}

/// One printed line: the body and a newline.
pub open spec fn line_spec(name: Seq<char>, slot: Seq<char>) -> Seq<char> {
    line_body(name, slot) + "\n"@
}

/// The first `i` lines of the block, concatenated in input order.
pub open spec fn render_take(names: Seq<Seq<char>>, slots: Seq<Seq<char>>, i: int) -> Seq<char>
    decreases i,
{
    if i <= 0 {
        Seq::empty()
    } else {
        render_take(names, slots, i - 1) + line_spec(names[i - 1], slots[i - 1])
    }
}

/// The lines from job `i` on, concatenated in input order.
pub open spec fn render_from(names: Seq<Seq<char>>, slots: Seq<Seq<char>>, i: int) -> Seq<char>
    decreases names.len() - i,
{
    if i < 0 || i >= names.len() {
        Seq::empty()
    } else {
        line_spec(names[i], slots[i]) + render_from(names, slots, i + 1)
    }
}

/// The whole block: every job's line, in input order.
pub open spec fn render_spec(names: Seq<Seq<char>>, slots: Seq<Seq<char>>) -> Seq<char>
    recommends
        names.len() == slots.len(),
{
    render_from(names, slots, 0)
}

proof fn lemma_take_from(names: Seq<Seq<char>>, slots: Seq<Seq<char>>, i: int)
    requires
        0 <= i <= names.len(),
    ensures
        render_take(names, slots, i) + render_from(names, slots, i) == render_from(names, slots, 0),
    decreases i,
{
    if i == 0 {
        assert(Seq::<char>::empty() + render_from(names, slots, 0) =~= render_from(
            names,
            slots,
            0,
        ));
    } else {
        lemma_take_from(names, slots, i - 1);
        assert(render_take(names, slots, i) + render_from(names, slots, i) =~= render_take(
            names,
            slots,
            i - 1,
        ) + (line_spec(names[i - 1], slots[i - 1]) + render_from(names, slots, i)));
    }
}

proof fn lemma_take_is_render(names: Seq<Seq<char>>, slots: Seq<Seq<char>>)
    ensures
        render_take(names, slots, names.len() as int) == render_spec(names, slots),
{
    lemma_take_from(names, slots, names.len() as int);
    assert(render_take(names, slots, names.len() as int) + Seq::<char>::empty() =~= render_take(
        names,
        slots,
        names.len() as int,
    ));
}

/// The renderer's state: the fixed job names, one status slot per job, and
/// whether the block has been painted before.
#[derive(Debug)]
pub struct PrintData {
    pub names: Vec<String>,
    pub v: Vec<String>,
    pub drawn: bool,
}

/// One repaint: move the cursor up over the old block (no lines on the very
/// first draw), then print the whole block again.
#[derive(Debug)]
pub struct Redraw {
    pub move_up_lines: usize,
    pub content: String,
}

impl PrintData {
    pub open spec fn wf(&self) -> bool {
        self.v@.len() == self.names@.len()
    }

    /// The block this state paints.
    pub open spec fn render_content(&self) -> Seq<char> {
        render_spec(self.names.deep_view(), self.v.deep_view())
    }

    /// A renderer for the given jobs: every slot empty (pending), nothing
    /// painted yet.
    pub fn new(jobs: &Vec<_JenkinsJobConfig>) -> (r: Self)
        ensures
            r.wf(),
            !r.drawn,
            r.names.deep_view().len() == jobs@.len(),
            forall|i: int| 0 <= i < jobs@.len() ==> r.names.deep_view()[i] == jobs@[i].name@,
            forall|i: int| 0 <= i < jobs@.len() ==> r.v.deep_view()[i].len() == 0,
    {
        let n = jobs.len();
        let mut names: Vec<String> = Vec::new();
        let mut v: Vec<String> = Vec::new();
        let mut i: usize = 0;
        while i < n
            invariant
                n == jobs@.len(),
                0 <= i <= n,
                names.deep_view().len() == i,
                v.deep_view().len() == i,
                forall|k: int| 0 <= k < i ==> names.deep_view()[k] == jobs@[k].name@,
                forall|k: int| 0 <= k < i ==> v.deep_view()[k].len() == 0,
            decreases n - i,
        {
            let ghost pn = names.deep_view();
            let ghost pv = v.deep_view();
            names.push(jobs[i].name.clone());
            v.push(String::new());
            proof {
                assert(names.deep_view() =~= pn.push(jobs@[i as int].name@));
                assert(v.deep_view() =~= pv.push(Seq::<char>::empty()));
            }
            i = i + 1;
        }
        PrintData { names, v, drawn: false }
    }

    /// Overwrite one slot with a job's outcome text.
    pub fn set_slot(&mut self, idx: usize, outcome: String)
        requires
            old(self).wf(),
            idx < old(self).v@.len(),
        ensures
            final(self).wf(),
            final(self).names == old(self).names,
            final(self).drawn == old(self).drawn,
            final(self).v.deep_view() == old(self).v.deep_view().update(idx as int, outcome@),
    {
        let ghost prev = self.v.deep_view();
        self.v.set(idx, outcome);
        proof {
            assert(self.v.deep_view() =~= prev.update(idx as int, outcome@));
        }
    }

    /// Paint the whole block: the full content in input order, and how many
    /// lines the cursor must first move up (none on the very first draw).
    /// The content is a function of the names and slots alone, so repeated
    /// redraws with an unchanged slot array print identical text.
    pub fn redraw(&mut self) -> (r: Redraw)
        requires
            old(self).wf(),
        ensures
            final(self).names == old(self).names,
            final(self).v == old(self).v,
            final(self).drawn,
            final(self).wf(),
            r.content@ == old(self).render_content(),
            r.move_up_lines == (if old(self).drawn {
                old(self).v@.len() as int
            } else {
                0
            }),
    {
        let move_up_lines: usize = if self.drawn {
            self.v.len()
        } else {
            0
        };
        let ghost names_dv = self.names.deep_view();
        let ghost slots_dv = self.v.deep_view();
        let mut content = String::new();
        let n = self.names.len();
        let mut i: usize = 0;
        while i < n
            invariant
                self.wf(),
                n == self.names@.len(),
                0 <= i <= n,
                names_dv == self.names.deep_view(),
                slots_dv == self.v.deep_view(),
                content@ == render_take(names_dv, slots_dv, i as int),
            decreases n - i,
        {
            proof {
                assert(names_dv[i as int] == self.names@[i as int]@);
                assert(slots_dv[i as int] == self.v@[i as int]@);
            }
            content.append(self.names[i].as_str());
            content.append(" -> ");
            if self.v[i].as_str().is_empty() {
                content.append("发布中");
            } else {
                content.append(self.v[i].as_str());
            }
            content.append("\n");
            proof {
                assert(content@ =~= render_take(names_dv, slots_dv, i as int + 1));
            }
            i = i + 1;
        }
        proof {
            assert(names_dv.len() == n as int);
            lemma_take_is_render(names_dv, slots_dv);
        }
        self.drawn = true;
        Redraw { move_up_lines, content }
    }

    /// One completion event: overwrite the slot and repaint the whole block.
    pub fn print(&mut self, idx: usize, result: String) -> (r: Redraw)
        requires
            old(self).wf(),
            idx < old(self).v@.len(),
        ensures
            final(self).wf(),
            final(self).names == old(self).names,
            final(self).drawn,
            final(self).v.deep_view() == old(self).v.deep_view().update(idx as int, result@),
            r.content@ == render_spec(
                old(self).names.deep_view(),
                old(self).v.deep_view().update(idx as int, result@),
            ),
            r.move_up_lines == (if old(self).drawn {
                old(self).v@.len() as int
            } else {
                0
            }),
    {
        self.set_slot(idx, result);
        self.redraw()
    }
}

/// Whether a sequence holds no newline.
pub open spec fn no_newline(s: Seq<char>) -> bool {
    forall|k: int| 0 <= k < s.len() ==> s[k] != '\n'
}

/// How many newlines a sequence holds: the block's printed line count.
pub open spec fn count_newlines(s: Seq<char>) -> nat
    decreases s.len(),
{
    if s.len() == 0 {
        0
    } else {
        (if s[0] == '\n' {
            1nat
        } else {
            0nat
        }) + count_newlines(s.drop_first())
    }
}

proof fn lemma_count_concat(a: Seq<char>, b: Seq<char>)
    ensures
        count_newlines(a + b) == count_newlines(a) + count_newlines(b),
    decreases a.len(),
{
    if a.len() == 0 {
        assert(a + b =~= b);
    } else {
        assert((a + b).drop_first() =~= a.drop_first() + b);
        lemma_count_concat(a.drop_first(), b);
    }
}

proof fn lemma_count_none(s: Seq<char>)
    requires
        no_newline(s),
    ensures
        count_newlines(s) == 0,
    decreases s.len(),
{
    if s.len() > 0 {
        assert(no_newline(s.drop_first()));
        lemma_count_none(s.drop_first());
    }
}

proof fn lemma_no_newline_concat(a: Seq<char>, b: Seq<char>)
    requires
        no_newline(a),
        no_newline(b),
    ensures
        no_newline(a + b),
{
    assert forall|k: int| 0 <= k < (a + b).len() implies (a + b)[k] != '\n' by {
        if k < a.len() {
            assert((a + b)[k] == a[k]);
        } else {
            assert((a + b)[k] == b[k - a.len()]);
        }
    }
}

proof fn lemma_no_newline_line_body(name: Seq<char>, slot: Seq<char>)
    requires
        no_newline(name),
        no_newline(slot),
    ensures
        no_newline(line_body(name, slot)),
{
    reveal_strlit(" -> ");
    reveal_strlit("发布中");
    assert(no_newline(" -> "@));
    assert(no_newline("发布中"@));
    lemma_no_newline_concat(name, " -> "@);
    if slot.len() == 0 {
        lemma_no_newline_concat(name + " -> "@, "发布中"@);
    } else {
        lemma_no_newline_concat(name + " -> "@, slot);
    }
}

proof fn lemma_line_one_newline(name: Seq<char>, slot: Seq<char>)
    requires
        no_newline(name),
        no_newline(slot),
    ensures
        count_newlines(line_spec(name, slot)) == 1,
{
    reveal_strlit("\n");
    assert(count_newlines("\n"@) == 1) by {
        assert("\n"@.drop_first() =~= Seq::<char>::empty());
        assert(count_newlines(Seq::<char>::empty()) == 0);
    }
    lemma_no_newline_line_body(name, slot);
    lemma_count_none(line_body(name, slot));
    lemma_count_concat(line_body(name, slot), "\n"@);
}

proof fn lemma_render_take_count(names: Seq<Seq<char>>, slots: Seq<Seq<char>>, i: int)
    requires
        0 <= i <= names.len(),
        names.len() == slots.len(),
        forall|k: int| 0 <= k < names.len() ==> no_newline(#[trigger] names[k]),
        forall|k: int| 0 <= k < slots.len() ==> no_newline(#[trigger] slots[k]),
    ensures
        count_newlines(render_take(names, slots, i)) == i,
    decreases i,
{
    if i > 0 {
        lemma_render_take_count(names, slots, i - 1);
        lemma_line_one_newline(names[i - 1], slots[i - 1]);
        lemma_count_concat(render_take(names, slots, i - 1), line_spec(names[i - 1], slots[i - 1]));
    }
}

/// Law: for any job list of length N whose names and slot texts hold no
/// newline of their own, the rendered block has exactly N lines — one per
/// job, in input order, as `render_spec` concatenates them.
pub proof fn lemma_render_line_count(names: Seq<Seq<char>>, slots: Seq<Seq<char>>)
    requires
        names.len() == slots.len(),
        forall|k: int| 0 <= k < names.len() ==> no_newline(#[trigger] names[k]),
        forall|k: int| 0 <= k < slots.len() ==> no_newline(#[trigger] slots[k]),
    ensures
        count_newlines(render_spec(names, slots)) == names.len(),
{
    lemma_render_take_count(names, slots, names.len() as int);
    lemma_take_is_render(names, slots);
}

proof fn lemma_split_no_newline(x: Seq<char>, rest: Seq<char>, cur: Seq<char>)
    requires
        no_newline(x),
    ensures
        split_lines_from(x + rest, cur) == split_lines_from(rest, cur + x),
    decreases x.len(),
{
    if x.len() == 0 {
        assert(x + rest =~= rest);
        assert(cur + x =~= cur);
    } else {
        assert((x + rest)[0] == x[0]);
        assert(x[0] != '\n');
        assert((x + rest).drop_first() =~= x.drop_first() + rest);
        assert(no_newline(x.drop_first()));
        lemma_split_no_newline(x.drop_first(), rest, cur.push(x[0]));
        assert(cur.push(x[0]) + x.drop_first() =~= cur + x);
    }
}

proof fn lemma_split_newline(rest: Seq<char>, cur: Seq<char>)
    ensures
        split_lines_from("\n"@ + rest, cur) == seq![cur] + split_lines_from(rest, Seq::empty()),
{
    reveal_strlit("\n");
    assert(("\n"@ + rest)[0] == '\n');
    assert(("\n"@ + rest).drop_first() =~= rest);
}

proof fn lemma_split_render_from(names: Seq<Seq<char>>, slots: Seq<Seq<char>>, i: int)
    requires
        names.len() == slots.len(),
        0 <= i <= names.len(),
        forall|k: int| 0 <= k < names.len() ==> no_newline(#[trigger] names[k]),
        forall|k: int| 0 <= k < slots.len() ==> no_newline(#[trigger] slots[k]),
    ensures
        split_lines_from(render_from(names, slots, i), Seq::empty()) == Seq::new(
            (names.len() - i + 1) as nat,
            |k: int|
                if k < names.len() - i {
                    line_body(names[i + k], slots[i + k])
                } else {
                    Seq::<char>::empty()
                },
        ),
    decreases names.len() - i,
{
    let rhs = Seq::new(
        (names.len() - i + 1) as nat,
        |k: int|
            if k < names.len() - i {
                line_body(names[i + k], slots[i + k])
            } else {
                Seq::<char>::empty()
            },
    );
    if i == names.len() {
        assert(split_lines_from(render_from(names, slots, i), Seq::empty()) =~= rhs);
    } else {
        let body = line_body(names[i], slots[i]);
        let tail = render_from(names, slots, i + 1);
        lemma_no_newline_line_body(names[i], slots[i]);
        assert(render_from(names, slots, i) =~= body + ("\n"@ + tail));
        lemma_split_no_newline(body, "\n"@ + tail, Seq::empty());
        assert(Seq::<char>::empty() + body =~= body);
        lemma_split_newline(tail, body);
        lemma_split_render_from(names, slots, i + 1);
        assert(split_lines_from(render_from(names, slots, i), Seq::empty()) =~= rhs);
    }
}

/// Law: the rendered block splits into exactly one line per job, in input
/// order — line `k` reads `{names[k]} -> {status-or-placeholder}` — with one
/// final empty segment after the block's trailing newline.
pub proof fn lemma_render_lines(names: Seq<Seq<char>>, slots: Seq<Seq<char>>)
    requires
        names.len() == slots.len(),
        forall|k: int| 0 <= k < names.len() ==> no_newline(#[trigger] names[k]),
        forall|k: int| 0 <= k < slots.len() ==> no_newline(#[trigger] slots[k]),
    ensures
        split_lines_spec(render_spec(names, slots)) == Seq::new(
            names.len() + 1,
            |k: int|
                if k < names.len() {
                    line_body(names[k], slots[k])
                } else {
                    Seq::<char>::empty()
                },
        ),
{
    lemma_split_render_from(names, slots, 0);
    assert(Seq::new(
        (names.len() - 0 + 1) as nat,
        |k: int|
            if k < names.len() - 0 {
                line_body(names[0 + k], slots[0 + k])
            } else {
                Seq::<char>::empty()
            },
    ) =~= Seq::new(
        names.len() + 1,
        |k: int|
            if k < names.len() {
                line_body(names[k], slots[k])
            } else {
                Seq::<char>::empty()
            },
    ));
}

/// Law: redrawing is idempotent. The printed block is a function of the
/// names and slots alone, so repeated redraws with an unchanged slot array
/// produce identical content.
pub proof fn lemma_redraw_idempotent(p: PrintData, q: PrintData)
    requires
        p.names.deep_view() == q.names.deep_view(),
        p.v.deep_view() == q.v.deep_view(),
    ensures
        p.render_content() == q.render_content(),
{
}

} // verus!
