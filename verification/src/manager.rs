//! Owner of the history stacks: one shared stack, or one per output,
//! created lazily on first use.

use vstd::prelude::*;
use crate::commands::spec_i32_digits;
use crate::commands::format_i32;
use crate::history::History;
use crate::history::spec_added;
use crate::history::spec_reset_entries;
use vstd::string::StringExecFns;

verus! {

/// Config setting for the history stack type.
#[derive(PartialEq, Eq, Structural, Clone, Copy, Debug)]
pub enum HistTypeConfig {
    Single,
    PerOutput,
}

/// One output's stack, keyed by the output's name.
pub struct OutputHistory {
    pub output: String,
    pub hist: History,
}

/// History stack storage: shared, or partitioned by output name.
pub enum HistType {
    Single(History),
    PerOutput(Vec<OutputHistory>),
}

/// Internal manager for the workspace history stacks.
pub struct HistoryManager {
    pub hist: HistType,
    pub hist_sz: usize,
}

/// The stack stored under `name`: its entries and cursor, if any.
pub open spec fn lookup(v: Seq<OutputHistory>, name: Seq<char>) -> Option<(Seq<i32>, int)>
    decreases v.len(),
{
    if v.len() == 0 {
        Option::None
    } else if v[0].output@ == name {
        Option::Some((v[0].hist.entries(), v[0].hist.cursor()))
    } else {
        lookup(v.drop_first(), name)
    }
}

/// No two entries are stored under the same output name.
pub open spec fn keys_distinct(v: Seq<OutputHistory>) -> bool {
    forall|i: int, j: int|
        0 <= i < j < v.len() ==> (#[trigger] v[i].output)@ != (#[trigger] v[j].output)@
}

proof fn lemma_drop_first_distinct(v: Seq<OutputHistory>)
    requires
        keys_distinct(v),
        v.len() > 0,
    ensures
        keys_distinct(v.drop_first()),
{
    assert forall|i: int, j: int|
        0 <= i < j < v.drop_first().len() implies (#[trigger] v.drop_first()[i].output)@
        != (#[trigger] v.drop_first()[j].output)@ by {
        assert(v.drop_first()[i] == v[i + 1]);
        assert(v.drop_first()[j] == v[j + 1]);
    }
}

proof fn lemma_lookup_index(v: Seq<OutputHistory>, name: Seq<char>, k: int)
    requires
        keys_distinct(v),
        0 <= k < v.len(),
        v[k].output@ == name,
    ensures
        lookup(v, name) == Option::Some((v[k].hist.entries(), v[k].hist.cursor())),
    decreases v.len(),
{
    if k > 0 {
        assert(v[0].output@ != name);
        lemma_drop_first_distinct(v);
        assert(v.drop_first()[k - 1] == v[k]);
        lemma_lookup_index(v.drop_first(), name, k - 1);
    }
}

proof fn lemma_lookup_none_iff(v: Seq<OutputHistory>, name: Seq<char>)
    ensures
        (lookup(v, name) is None) <==> (forall|i: int|
            0 <= i < v.len() ==> #[trigger] v[i].output@ != name),
    decreases v.len(),
{
    if v.len() > 0 {
        lemma_lookup_none_iff(v.drop_first(), name);
        assert forall|i: int| 1 <= i < v.len() implies v.drop_first()[i - 1] == #[trigger] v[i] by {}
        if lookup(v, name) is None {
            assert forall|i: int| 0 <= i < v.len() implies #[trigger] v[i].output@ != name by {
                if i > 0 {
                    assert(v.drop_first()[i - 1].output@ != name);
                }
            }
        }
    }
}

proof fn lemma_lookup_update(
    v: Seq<OutputHistory>,
    v2: Seq<OutputHistory>,
    k: int,
    name: Seq<char>,
)
    requires
        keys_distinct(v),
        0 <= k < v.len(),
        v2.len() == v.len(),
        v2[k].output@ == v[k].output@,
        forall|i: int| 0 <= i < v.len() && i != k ==> v2[i] == #[trigger] v[i],
    ensures
        keys_distinct(v2),
        lookup(v2, name) == (if name == v[k].output@ {
            Option::Some((v2[k].hist.entries(), v2[k].hist.cursor()))
        } else {
            lookup(v, name)
        }),
    decreases v.len(),
{
    assert forall|i: int| 0 <= i < v2.len() implies #[trigger] v2[i].output@ == v[i].output@ by {
        if i != k {
            assert(v2[i] == v[i]);
        }
    }
    assert(keys_distinct(v2));
    if name == v[k].output@ {
        lemma_lookup_index(v2, name, k);
    } else {
        if k == 0 {
            assert(v2.drop_first() =~= v.drop_first());
        } else {
            assert(v2[0] == v[0]);
            lemma_drop_first_distinct(v);
            assert(v2.drop_first().len() == v.drop_first().len());
            assert(v2.drop_first()[k - 1].output@ == v.drop_first()[k - 1].output@);
            assert forall|i: int|
                0 <= i < v.drop_first().len() && i != k - 1 implies v2.drop_first()[i]
                == #[trigger] v.drop_first()[i] by {
                assert(v2.drop_first()[i] == v2[i + 1]);
                assert(v.drop_first()[i] == v[i + 1]);
            }
            lemma_lookup_update(v.drop_first(), v2.drop_first(), k - 1, name);
        }
    }
}

proof fn lemma_lookup_push(v: Seq<OutputHistory>, oh: OutputHistory, name: Seq<char>)
    ensures
        lookup(v.push(oh), name) == (if lookup(v, name) is None && name == oh.output@ {
            Option::Some((oh.hist.entries(), oh.hist.cursor()))
        } else {
            lookup(v, name)
        }),
    decreases v.len(),
{
    if v.len() == 0 {
        assert(v.push(oh)[0] == oh);
        assert(v.push(oh).drop_first() =~= Seq::<OutputHistory>::empty());
        if name == oh.output@ {
            assert(lookup(v.push(oh), name) == Option::Some(
                (oh.hist.entries(), oh.hist.cursor()),
            ));
        } else {
            assert(lookup(v.push(oh), name) == lookup(
                Seq::<OutputHistory>::empty(),
                name,
            ));
        }
    } else {
        assert(v.push(oh)[0] == v[0]);
        assert(v.push(oh).drop_first() =~= v.drop_first().push(oh));
        lemma_lookup_push(v.drop_first(), oh, name);
        if v[0].output@ == name {
            assert(lookup(v, name) == Option::Some((v[0].hist.entries(), v[0].hist.cursor())));
            assert(lookup(v.push(oh), name) == Option::Some(
                (v[0].hist.entries(), v[0].hist.cursor()),
            ));
        } else {
            assert(lookup(v, name) == lookup(v.drop_first(), name));
            assert(lookup(v.push(oh), name) == lookup(v.drop_first().push(oh), name));
        }
    }
}

/// Rendering of a stack from entry `i` on: one entry per line, the entry
/// at the cursor marked.
pub open spec fn spec_render_from(s: Seq<i32>, p: int, i: int) -> Seq<char>
    decreases s.len() - i,
{
    if i < 0 || i >= s.len() {
        Seq::empty()
    } else {
        spec_i32_digits(s[i] as int) + (if i == p {
            "\t<-\n"@
        } else {
            "\n"@
        }) + spec_render_from(s, p, i + 1)
    }
}

/// Diagnostic rendering of a whole stack.
pub open spec fn spec_render_stack(s: Seq<i32>, p: int) -> Seq<char> {
    spec_render_from(s, p, 0)
}

/// All stacks rest with their cursor at 0.
pub open spec fn all_cursors_zero(m: &HistoryManager) -> bool {
    forall|o: Seq<char>|
        #[trigger] m.stack_of(o) matches Option::Some(sp) ==> sp.1 == 0
}

/// Stacks of `new` are those of `prev` with every cursor reset.
pub open spec fn all_reset(new: &HistoryManager, prev: &HistoryManager) -> bool {
    forall|o: Seq<char>|
        #[trigger] new.stack_of(o) == match prev.stack_of(o) {
            Option::None => Option::None,
            Option::Some((s, p)) => Option::Some((spec_reset_entries(s, p), 0int)),
        }
}

/// All stacks other than `name` are unchanged between `prev` and `new`;
/// with a single shared stack every name denotes the same stack, so there
/// they all equal the stack under `name`.
pub open spec fn others_framed(new: &HistoryManager, prev: &HistoryManager, name: Seq<char>) -> bool {
    forall|o: Seq<char>|
        o != name ==> #[trigger] new.stack_of(o) == (if prev.is_per_output() {
            prev.stack_of(o)
        } else {
            new.stack_of(name)
        })
}

impl HistoryManager {
    pub open spec fn is_per_output(&self) -> bool {
        self.hist is PerOutput
    }

    /// The stack a given output name denotes: the shared stack, or the
    /// per-output one if it exists.
    pub open spec fn stack_of(&self, name: Seq<char>) -> Option<(Seq<i32>, int)> {
        match self.hist {
            HistType::Single(h) => Option::Some((h.entries(), h.cursor())),
            HistType::PerOutput(v) => lookup(v@, name),
        }
    }

    /// Shape invariants: every stack well formed, output names distinct.
    pub open spec fn wf(&self) -> bool {
        match self.hist {
            HistType::Single(h) => h.wf(),
            HistType::PerOutput(v) => keys_distinct(v@) && (forall|i: int|
                0 <= i < v@.len() ==> (#[trigger] v@[i].hist).wf()),
        }
    }

    /// Both managers have the same bound and the same storage mode.
    pub open spec fn same_shape(&self, other: &HistoryManager) -> bool {
        self.hist_sz == other.hist_sz && self.is_per_output() == other.is_per_output()
    }

    /// A fresh manager: one empty shared stack, or no stacks yet.
    pub fn new(config: HistTypeConfig, hist_sz: usize) -> (m: HistoryManager)
        ensures
            m.wf(),
            m.hist_sz == hist_sz,
            m.is_per_output() == (config is PerOutput),
            m.is_per_output() ==> forall|o: Seq<char>| #[trigger] m.stack_of(o) is None,
            !m.is_per_output() ==> forall|o: Seq<char>|
                #[trigger] m.stack_of(o) == Option::Some((Seq::<i32>::empty(), 0int)),
    {
        match config {
            HistTypeConfig::Single => HistoryManager {
                hist: HistType::Single(History::with_capacity(hist_sz)),
                hist_sz,
            },
            HistTypeConfig::PerOutput => HistoryManager {
                hist: HistType::PerOutput(Vec::new()),
                hist_sz,
            },
        }
    }

    /// The first stored index whose output name is `output`.
    fn find_index(v: &Vec<OutputHistory>, output: &String) -> (r: Option<usize>)
        ensures
            match r {
                Option::Some(i) => i < v@.len() && v@[i as int].output@ == output@,
                Option::None => forall|i: int|
                    0 <= i < v@.len() ==> #[trigger] v@[i].output@ != output@,
            },
    {
        let n = v.len();
        let mut i: usize = 0;
        while i < n
            invariant
                n == v@.len(),
                i <= n,
                forall|k: int| 0 <= k < i ==> #[trigger] v@[k].output@ != output@,
            decreases n - i,
        {
            if v[i].output == *output {
                return Option::Some(i);
            }
            i += 1;
        }
        Option::None
    }

    /// The stack that `output` denotes, if one exists.
    pub fn get(&self, output: &String) -> (r: Option<&History>)
        requires
            self.wf(),
        ensures
            match r {
                Option::Some(h) => self.stack_of(output@) == Option::Some(
                    (h.entries(), h.cursor()),
                ) && h.wf(),
                Option::None => self.stack_of(output@) is None,
            },
    {
        match &self.hist {
            HistType::Single(h) => Option::Some(h),
            HistType::PerOutput(v) => {
                match Self::find_index(v, output) {
                    Option::Some(i) => {
                        proof {
                            lemma_lookup_index(v@, output@, i as int);
                        }
                        Option::Some(&v[i].hist)
                    },
                    Option::None => {
                        proof {
                            lemma_lookup_none_iff(v@, output@);
                        }
                        Option::None
                    },
                }
            },
        }
    }

    /// Record a visit of `ws_num` against the stack of `output`, creating
    /// that stack first if this is a new output in per-output mode.
    pub fn push_for(&mut self, output: &String, ws_num: i32)
        requires
            old(self).wf(),
        ensures
            final(self).wf(),
            final(self).same_shape(old(self)),
            ({
                let t = match old(self).stack_of(output@) {
                    Option::Some(sp) => sp,
                    Option::None => (Seq::<i32>::empty(), 0int),
                };
                final(self).stack_of(output@) == Option::Some(
                    (
                        spec_added(t.0, t.1, ws_num, old(self).hist_sz as nat),
                        if t.0.len() > 0 && t.0[t.1] == ws_num {
                            t.1
                        } else {
                            0int
                        },
                    ),
                )
            }),
            others_framed(final(self), old(self), output@),
    {
        let sz = self.hist_sz;
        match &mut self.hist {
            HistType::Single(h) => {
                h.push(ws_num, sz);
            },
            HistType::PerOutput(v) => {
                match Self::find_index(v, output) {
                    Option::Some(i) => {
                        proof {
                            lemma_lookup_index(v@, output@, i as int);
                        }
                        let ghost v0 = v@;
                        let mut oh = v.remove(i);
                        oh.hist.push(ws_num, sz);
                        v.insert(i, oh);
                        proof {
                            assert forall|x: int| 0 <= x < v0.len() && x != i implies v@[x]
                                == #[trigger] v0[x] by {
                                assert(v@[x] == v0.remove(i as int).insert(i as int, oh)[x]);
                            }
                            assert forall|o: Seq<char>| true implies #[trigger] lookup(v@, o) == (
                            if o == v0[i as int].output@ {
                                Option::Some((v@[i as int].hist.entries(), v@[
                                    i as int].hist.cursor()))
                            } else {
                                lookup(v0, o)
                            }) by {
                                lemma_lookup_update(v0, v@, i as int, o);
                            }
                            assert(keys_distinct(v@)) by {
                                lemma_lookup_update(v0, v@, i as int, output@);
                            }
                        }
                    },
                    Option::None => {
                        proof {
                            lemma_lookup_none_iff(v@, output@);
                        }
                        let ghost v0 = v@;
                        let mut h = History::with_capacity(sz);
                        h.push(ws_num, sz);
                        v.push(OutputHistory { output: output.clone(), hist: h });
                        proof {
                            let oh = v@[v0.len() as int];
                            assert(v@ =~= v0.push(oh));
                            assert forall|o: Seq<char>| true implies #[trigger] lookup(v@, o) == (
                            if o == output@ {
                                Option::Some((oh.hist.entries(), oh.hist.cursor()))
                            } else {
                                lookup(v0, o)
                            }) by {
                                lemma_lookup_push(v0, oh, o);
                                if o != output@ {
                                } else {
                                    lemma_lookup_none_iff(v0, o);
                                }
                            }
                            assert(keys_distinct(v@)) by {
                                assert forall|x: int, y: int|
                                    0 <= x < y < v@.len() implies (#[trigger] v@[x].output)@
                                    != (#[trigger] v@[y].output)@ by {
                                    if y == v0.len() as int {
                                        assert(v@[x] == v0[x]);
                                    } else {
                                        assert(v@[x] == v0[x]);
                                        assert(v@[y] == v0[y]);
                                    }
                                }
                            }
                        }
                    },
                }
            },
        }
    }

    /// Reset the cursor of the stack that `output` denotes, if it exists;
    /// reports whether one was found.
    pub fn reset_for(&mut self, output: &String) -> (found: bool)
        requires
            old(self).wf(),
        ensures
            final(self).wf(),
            final(self).same_shape(old(self)),
            found == (old(self).stack_of(output@) is Some),
            final(self).stack_of(output@) == match old(self).stack_of(output@) {
                Option::None => Option::None::<(Seq<i32>, int)>,
                Option::Some((s, p)) => Option::Some((spec_reset_entries(s, p), 0int)),
            },
            others_framed(final(self), old(self), output@),
    {
        match &mut self.hist {
            HistType::Single(h) => {
                h.reset_ptr();
                true
            },
            HistType::PerOutput(v) => {
                match Self::find_index(v, output) {
                    Option::Some(i) => {
                        proof {
                            lemma_lookup_index(v@, output@, i as int);
                        }
                        let ghost v0 = v@;
                        let mut oh = v.remove(i);
                        oh.hist.reset_ptr();
                        v.insert(i, oh);
                        proof {
                            assert forall|x: int| 0 <= x < v0.len() && x != i implies v@[x]
                                == #[trigger] v0[x] by {
                                assert(v@[x] == v0.remove(i as int).insert(i as int, oh)[x]);
                            }
                            assert forall|o: Seq<char>| true implies #[trigger] lookup(v@, o) == (
                            if o == v0[i as int].output@ {
                                Option::Some((v@[i as int].hist.entries(), v@[
                                    i as int].hist.cursor()))
                            } else {
                                lookup(v0, o)
                            }) by {
                                lemma_lookup_update(v0, v@, i as int, o);
                            }
                            assert(keys_distinct(v@)) by {
                                lemma_lookup_update(v0, v@, i as int, output@);
                            }
                        }
                        true
                    },
                    Option::None => {
                        proof {
                            lemma_lookup_none_iff(v@, output@);
                        }
                        false
                    },
                }
            },
        }
    }

    /// Move the cursor of the stack that `output` denotes to `p`.
    pub fn set_cursor_for(&mut self, output: &String, p: usize)
        requires
            old(self).wf(),
            old(self).stack_of(output@) matches Option::Some(sp) && p < sp.0.len(),
        ensures
            final(self).wf(),
            final(self).same_shape(old(self)),
            final(self).stack_of(output@) == match old(self).stack_of(output@) {
                Option::None => Option::None::<(Seq<i32>, int)>,
                Option::Some((s, _)) => Option::Some((s, p as int)),
            },
            others_framed(final(self), old(self), output@),
    {
        match &mut self.hist {
            HistType::Single(h) => {
                h.set_cursor(p);
            },
            HistType::PerOutput(v) => {
                proof {
                    lemma_lookup_none_iff(v@, output@);
                }
                if let Option::Some(i) = Self::find_index(v, output) {
                    proof {
                        lemma_lookup_index(v@, output@, i as int);
                    }
                    let ghost v0 = v@;
                    let mut oh = v.remove(i);
                    oh.hist.set_cursor(p);
                    v.insert(i, oh);
                    proof {
                        lemma_after_replace(v0, v@, i as int);
                    }
                }
            },
        }
    }

    /// Remove entry `rm` of the stack that `output` denotes and point its
    /// cursor at the entry that was at `target`.
    pub fn remove_and_point_for(&mut self, output: &String, rm: usize, target: usize)
        requires
            old(self).wf(),
            old(self).stack_of(output@) matches Option::Some(sp) && rm < sp.0.len() && target
                < sp.0.len() && rm != target,
        ensures
            final(self).wf(),
            final(self).same_shape(old(self)),
            final(self).stack_of(output@) == match old(self).stack_of(output@) {
                Option::None => Option::None::<(Seq<i32>, int)>,
                Option::Some((s, _)) => Option::Some(
                    (
                        s.remove(rm as int),
                        if rm < target {
                            target - 1
                        } else {
                            target as int
                        },
                    ),
                ),
            },
            others_framed(final(self), old(self), output@),
    {
        match &mut self.hist {
            HistType::Single(h) => {
                h.remove_and_point(rm, target);
            },
            HistType::PerOutput(v) => {
                proof {
                    lemma_lookup_none_iff(v@, output@);
                }
                if let Option::Some(i) = Self::find_index(v, output) {
                    proof {
                        lemma_lookup_index(v@, output@, i as int);
                    }
                    let ghost v0 = v@;
                    let mut oh = v.remove(i);
                    oh.hist.remove_and_point(rm, target);
                    v.insert(i, oh);
                    proof {
                        lemma_after_replace(v0, v@, i as int);
                    }
                }
            },
        }
    }

    /// Exchange entries `a` and `b` of the stack that `output` denotes.
    pub fn swap_for(&mut self, output: &String, a: usize, b: usize)
        requires
            old(self).wf(),
            old(self).stack_of(output@) matches Option::Some(sp) && a < sp.0.len() && b
                < sp.0.len(),
        ensures
            final(self).wf(),
            final(self).same_shape(old(self)),
            final(self).stack_of(output@) == match old(self).stack_of(output@) {
                Option::None => Option::None::<(Seq<i32>, int)>,
                Option::Some((s, p)) => Option::Some(
                    (s.update(a as int, s[b as int]).update(b as int, s[a as int]), p),
                ),
            },
            others_framed(final(self), old(self), output@),
    {
        match &mut self.hist {
            HistType::Single(h) => {
                h.swap_at(a, b);
            },
            HistType::PerOutput(v) => {
                proof {
                    lemma_lookup_none_iff(v@, output@);
                }
                if let Option::Some(i) = Self::find_index(v, output) {
                    proof {
                        lemma_lookup_index(v@, output@, i as int);
                    }
                    let ghost v0 = v@;
                    let mut oh = v.remove(i);
                    oh.hist.swap_at(a, b);
                    v.insert(i, oh);
                    proof {
                        lemma_after_replace(v0, v@, i as int);
                    }
                }
            },
        }
    }

    /// Reset the cursor of every tracked stack.
    pub fn reset_all(&mut self)
        requires
            old(self).wf(),
        ensures
            final(self).wf(),
            final(self).same_shape(old(self)),
            all_reset(final(self), old(self)),
    {
        match &mut self.hist {
            HistType::Single(h) => {
                h.reset_ptr();
            },
            HistType::PerOutput(v) => {
                let ghost v0 = v@;
                let n = v.len();
                let mut i: usize = 0;
                while i < n
                    invariant
                        n == v@.len(),
                        v@.len() == v0.len(),
                        i <= n,
                        keys_distinct(v0),
                        forall|x: int|
                            0 <= x < v0.len() ==> (#[trigger] v0[x].hist).wf(),
                        forall|x: int|
                            0 <= x < v0.len() ==> (#[trigger] v@[x].output)@ == v0[x].output@,
                        forall|x: int|
                            0 <= x < i ==> (#[trigger] v@[x].hist).entries() == spec_reset_entries(
                                v0[x].hist.entries(),
                                v0[x].hist.cursor(),
                            ) && v@[x].hist.cursor() == 0 && v@[x].hist.wf(),
                        forall|x: int| i <= x < v0.len() ==> v@[x] == #[trigger] v0[x],
                    decreases n - i,
                {
                    let ghost vpre = v@;
                    let mut oh = v.remove(i);
                    oh.hist.reset_ptr();
                    v.insert(i, oh);
                    proof {
                        assert forall|x: int|
                            0 <= x < v0.len() && x != i implies v@[x] == #[trigger] vpre[x] by {
                            assert(v@[x] == vpre.remove(i as int).insert(i as int, oh)[x]);
                        }
                    }
                    i += 1;
                }
                proof {
                    assert forall|x: int, y: int|
                        0 <= x < y < v@.len() implies (#[trigger] v@[x].output)@ != (#[trigger] v@[
                        y].output)@ by {
                        assert(v0[x].output@ != v0[y].output@);
                    }
                    assert forall|o: Seq<char>| true implies #[trigger] lookup(v@, o) == (
                    match lookup(v0, o) {
                        Option::None => Option::None::<(Seq<i32>, int)>,
                        Option::Some((s, p)) => Option::Some((spec_reset_entries(s, p), 0int)),
                    }) by {
                        lemma_lookup_all_reset(v0, v@, o);
                    }
                }
            },
        }
    }

    /// Whether the manager keeps one stack per output.
    pub fn per_output(&self) -> (b: bool)
        ensures
            b == self.is_per_output(),
    {
        match &self.hist {
            HistType::Single(_) => false,
            HistType::PerOutput(_) => true,
        }
    }

    /// Render the stack that `output` denotes for diagnostic display: one
    /// entry per line, a marker on the entry at the cursor.
    pub fn display(&self, output: &String) -> (r: Result<String, ()>)
        requires
            self.wf(),
        ensures
            match r {
                Result::Ok(out) => match self.stack_of(output@) {
                    Option::Some((s, p)) => out@ == spec_render_stack(s, p),
                    Option::None => false,
                },
                Result::Err(_) => self.stack_of(output@) is None,
            },
    {
        let h = match self.get(output) {
            Option::Some(h) => h,
            Option::None => {
                return Result::Err(());
            },
        };
        let ghost s = h.entries();
        let ghost p = h.cursor();
        let n = h.len();
        let mut out = String::new();
        let mut i: usize = 0;
        while i < n
            invariant
                n == s.len(),
                i <= n,
                s == h.entries(),
                p == h.cursor(),
                h.wf(),
                out@ + spec_render_from(s, p, i as int) == spec_render_stack(s, p),
            decreases n - i,
        {
            let ghost out0 = out@;
            let num = format_i32(h.index(i));
            out.append(num.as_str());
            if i == h.cursor_pos() {
                out.append("\t<-\n");
            } else {
                out.append("\n");
            }
            proof {
                assert(out@ =~= out0 + (spec_i32_digits(s[i as int] as int) + (if i as int == p {
                    "\t<-\n"@
                } else {
                    "\n"@
                })));
                assert(out@ + spec_render_from(s, p, i as int + 1) =~= out0 + spec_render_from(
                    s,
                    p,
                    i as int,
                ));
            }
            i += 1;
        }
        proof {
            assert(out@ + spec_render_from(s, p, n as int) =~= out@);
        }
        Result::Ok(out)
    }
}

proof fn lemma_after_replace(v0: Seq<OutputHistory>, v2: Seq<OutputHistory>, i: int)
    requires
        keys_distinct(v0),
        0 <= i < v0.len(),
        v2 =~= v0.remove(i).insert(i, v2[i]),
        v2[i].output@ == v0[i].output@,
    ensures
        keys_distinct(v2),
        v2.len() == v0.len(),
        forall|x: int| 0 <= x < v0.len() && x != i ==> v2[x] == #[trigger] v0[x],
        forall|o: Seq<char>|
            #[trigger] lookup(v2, o) == (if o == v0[i].output@ {
                Option::Some((v2[i].hist.entries(), v2[i].hist.cursor()))
            } else {
                lookup(v0, o)
            }),
{
    assert forall|x: int| 0 <= x < v0.len() && x != i implies v2[x] == #[trigger] v0[x] by {
        assert(v2[x] == v0.remove(i).insert(i, v2[i])[x]);
    }
    assert forall|o: Seq<char>| true implies #[trigger] lookup(v2, o) == (if o == v0[i].output@ {
        Option::Some((v2[i].hist.entries(), v2[i].hist.cursor()))
    } else {
        lookup(v0, o)
    }) by {
        lemma_lookup_update(v0, v2, i, o);
    }
    assert(keys_distinct(v2)) by {
        lemma_lookup_update(v0, v2, i, v0[i].output@);
    }
}

proof fn lemma_lookup_all_reset(v0: Seq<OutputHistory>, v2: Seq<OutputHistory>, name: Seq<char>)
    requires
        v2.len() == v0.len(),
        forall|x: int| 0 <= x < v0.len() ==> (#[trigger] v2[x].output)@ == v0[x].output@,
        forall|x: int|
            0 <= x < v0.len() ==> (#[trigger] v2[x].hist).entries() == spec_reset_entries(
                v0[x].hist.entries(),
                v0[x].hist.cursor(),
            ) && v2[x].hist.cursor() == 0,
    ensures
        lookup(v2, name) == match lookup(v0, name) {
            Option::None => Option::None::<(Seq<i32>, int)>,
            Option::Some((s, p)) => Option::Some((spec_reset_entries(s, p), 0int)),
        },
    decreases v0.len(),
{
    if v0.len() > 0 {
        assert(v2[0].output@ == v0[0].output@);
        assert forall|x: int|
            0 <= x < v0.drop_first().len() implies (#[trigger] v2.drop_first()[x].output)@
            == v0.drop_first()[x].output@ && v2.drop_first()[x].hist.entries()
            == spec_reset_entries(
            v0.drop_first()[x].hist.entries(),
            v0.drop_first()[x].hist.cursor(),
        ) && v2.drop_first()[x].hist.cursor() == 0 by {
            assert(v2.drop_first()[x] == v2[x + 1]);
            assert(v0.drop_first()[x] == v0[x + 1]);
        }
        lemma_lookup_all_reset(v0.drop_first(), v2.drop_first(), name);
    }
}

/// Law: once every cursor has been reset, every tracked stack rests at
/// its newest entry.
pub proof fn lemma_reset_starts_at_head(new: &HistoryManager, prev: &HistoryManager)
    requires
        all_reset(new, prev),
    ensures
        all_cursors_zero(new),
{
    assert forall|o: Seq<char>| true implies (#[trigger] new.stack_of(o) matches Option::Some(sp)
        ==> sp.1 == 0) by {
        assert(new.stack_of(o) == match prev.stack_of(o) {
            Option::None => Option::None::<(Seq<i32>, int)>,
            Option::Some((s, p)) => Option::Some((spec_reset_entries(s, p), 0int)),
        });
    }
}

} // verus!
