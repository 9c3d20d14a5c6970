//! The workspace-history engine: the stateful handler that records
//! workspace transitions and turns bound key chords into outgoing
//! window-manager commands.
//!
//! The engine is driven entirely by plain values: the caller hands it
//! each event, the current monotonic clock reading in milliseconds, and
//! the result of the "current workspaces" query when one was available
//! (`None` stands for a failed or unavailable query, which degrades the
//! skip-visible policy gracefully).

use vstd::prelude::*;
use crate::commands::move_cmd;
use crate::commands::switch_cmd;
use crate::events::BindingData;
use crate::events::Event;
use crate::events::WorkspaceChange;
use crate::events::WorkspaceInfo;
use crate::events::WsNode;
use crate::keybinding::matches_spec;
use vstd::string::StringExecFns;
use crate::history::WSDirection;
use crate::history::spec_reset_entries;
use crate::keybinding::KeyBinding;
use crate::manager::HistTypeConfig;
use crate::manager::HistoryManager;
use crate::manager::all_reset;
use crate::parsable_duration::ParsableDuration;

verus! {

/// Config input for `WSHistory`.
pub struct WSHistoryConfig {
    pub hist_sz: usize,
    pub hist_type: HistTypeConfig,
    pub skip_visible: bool,
    pub activity_timeout: Option<ParsableDuration>,
    pub binding_prev: Option<KeyBinding>,
    pub binding_move_prev: Option<KeyBinding>,
    pub binding_next: Option<KeyBinding>,
    pub binding_move_next: Option<KeyBinding>,
    pub binding_swap_prev: Option<KeyBinding>,
    pub binding_swap_next: Option<KeyBinding>,
    pub binding_reset: Option<KeyBinding>,
    pub binding_to_head: Option<KeyBinding>,
    pub binding_move_to_head: Option<KeyBinding>,
    pub binding_rem_and_prev: Option<KeyBinding>,
    pub binding_rem_and_next: Option<KeyBinding>,
    pub binding_show_stack: Option<KeyBinding>,
}

/// Interface struct for the workspace history engine.
pub struct WSHistory {
    pub hist: HistoryManager,
    pub ignore_ctr: usize,
    pub activity_deadline: u64,
    pub activity_timeout: Option<u64>,
    pub cur_output: String,
    pub skip_visible: bool,
    pub binding_prev: Option<KeyBinding>,
    pub binding_move_prev: Option<KeyBinding>,
    pub binding_next: Option<KeyBinding>,
    pub binding_move_next: Option<KeyBinding>,
    pub binding_swap_prev: Option<KeyBinding>,
    pub binding_swap_next: Option<KeyBinding>,
    pub binding_reset: Option<KeyBinding>,
    pub binding_to_head: Option<KeyBinding>,
    pub binding_move_to_head: Option<KeyBinding>,
    pub binding_rem_and_prev: Option<KeyBinding>,
    pub binding_rem_and_next: Option<KeyBinding>,
    pub binding_show_stack: Option<KeyBinding>,
}

/// Default bound of a history stack.
pub fn default_hist_sz() -> (n: usize)
    ensures
        n == 20,
{
    20
}

/// By default, entries currently visible on screen are skipped.
pub fn default_skip_visible() -> (b: bool)
    ensures
        b,
{
    true
}

/// By default, history is kept per output.
pub fn default_hist_type() -> (t: HistTypeConfig)
    ensures
        t is PerOutput,
{
    HistTypeConfig::PerOutput
}

/// An optional binding holds a keyboard chord with exactly these
/// modifier names and this symbol.
pub open spec fn chord_is(kb: Option<KeyBinding>, mods: Seq<Seq<char>>, sym: Seq<char>) -> bool {
    &&& kb matches Option::Some(k)
    &&& kb matches Option::Some(k) ==> {
        &&& k.input_type is Keyboard
        &&& k.symbol matches Option::Some(s) && s@ == sym
        &&& k.event_state_mask@.len() == mods.len()
        &&& forall|i: int|
            0 <= i < mods.len() ==> (#[trigger] k.event_state_mask@[i])@ == mods[i]
    }
}

/// The first queried workspace with number `num`.
pub open spec fn spec_find_ws(wss: Seq<WorkspaceInfo>, num: i32) -> Option<WorkspaceInfo>
    decreases wss.len(),
{
    if wss.len() == 0 {
        Option::None
    } else if wss[0].num == num {
        Option::Some(wss[0])
    } else {
        spec_find_ws(wss.drop_first(), num)
    }
}

/// Whether the navigation walk skips workspace `ws`: it is visible and
/// the skip-visible policy is on, or it sits on another output while
/// history is kept per output.
pub open spec fn spec_skip_entry(
    skip_visible: bool,
    per_output: bool,
    cur_output: Seq<char>,
    wss: Seq<WorkspaceInfo>,
    ws: i32,
) -> bool {
    match spec_find_ws(wss, ws) {
        Option::Some(w) => (skip_visible && w.visible) || (per_output && w.output@ != cur_output),
        Option::None => false,
    }
}

/// The cursor can take one more step in `dir` while staying inside
/// `[0, limit]`.
pub open spec fn spec_in_range(pos: int, dir: WSDirection, limit: int) -> bool {
    match dir {
        WSDirection::PREV => pos < limit,
        WSDirection::NEXT => pos > 0,
    }
}

/// The index the skip walk lands on: starting at `pos`, move in `dir`
/// past skipped entries until a qualifying entry or the stack boundary.
pub open spec fn spec_walk(
    s: Seq<i32>,
    pos: int,
    dir: WSDirection,
    skip_visible: bool,
    per_output: bool,
    cur_output: Seq<char>,
    wss: Seq<WorkspaceInfo>,
) -> Option<int>
    decreases (if dir is PREV {
        s.len() - pos
    } else {
        pos
    }),
{
    if pos < 0 || pos >= s.len() {
        Option::None
    } else if !spec_skip_entry(skip_visible, per_output, cur_output, wss, s[pos]) {
        Option::Some(pos)
    } else if dir is PREV && pos < s.len() - 1 {
        spec_walk(s, pos + 1, dir, skip_visible, per_output, cur_output, wss)
    } else if dir is NEXT && pos > 0 {
        spec_walk(s, pos - 1, dir, skip_visible, per_output, cur_output, wss)
    } else {
        Option::None
    }
}

/// The index the jump-to-head walk settles on: the first index from `i`
/// up (staying below the last index) that the skip policy does not
/// exclude, or 0 when every candidate is excluded.
pub open spec fn spec_head_walk(
    s: Seq<i32>,
    i: int,
    skip_visible: bool,
    per_output: bool,
    cur_output: Seq<char>,
    wss: Seq<WorkspaceInfo>,
) -> int
    decreases s.len() - i,
{
    if i < 0 || i >= s.len() - 1 {
        0
    } else if !spec_skip_entry(skip_visible, per_output, cur_output, wss, s[i]) {
        i
    } else {
        spec_head_walk(s, i + 1, skip_visible, per_output, cur_output, wss)
    }
}

/// Where a jump to the head of stack `s` points the cursor, given the
/// policy and the query result at hand.
pub open spec fn spec_head_target(
    s: Seq<i32>,
    skip_visible: bool,
    per_output: bool,
    cur_output: Seq<char>,
    wss: Option<Seq<WorkspaceInfo>>,
) -> int {
    if skip_visible || per_output {
        match wss {
            Option::Some(w) => spec_head_walk(s, 0, skip_visible, per_output, cur_output, w),
            Option::None => 0,
        }
    } else {
        0
    }
}

/// The view of an optional borrowed query result.
pub open spec fn opt_wss_view(wss: Option<&Vec<WorkspaceInfo>>) -> Option<Seq<WorkspaceInfo>> {
    match wss {
        Option::Some(v) => Option::Some(v@),
        Option::None => Option::None,
    }
}

/// The operation a binding event selects.
#[derive(PartialEq, Eq, Structural, Clone, Copy, Debug)]
pub enum HistOp {
    Prev,
    MovePrev,
    Next,
    MoveNext,
    SwapPrev,
    SwapNext,
    ResetCursor,
    ToHead,
    MoveToHead,
    RemPrev,
    RemNext,
    ShowStack,
}

/// The payload of the user-visible stack notification.
pub struct StackNote {
    pub summary: String,
    pub body: String,
}

/// The notification header: the product name, with the output appended
/// when history is kept per output.
pub open spec fn spec_stack_header(per_output: bool, cur_output: Seq<char>) -> Seq<char> {
    if per_output {
        "i3 Workspace History ("@ + cur_output + ")"@
    } else {
        "i3 Workspace History"@
    }
}

/// One manager records a visit of `num` under `name` on top of another.
pub open spec fn push_step_mgr(
    prev: HistoryManager,
    new: HistoryManager,
    name: Seq<char>,
    num: i32,
) -> bool {
    &&& new.hist_sz == prev.hist_sz
    &&& new.is_per_output() == prev.is_per_output()
    &&& ({
        let t = match prev.stack_of(name) {
            Option::Some(sp) => sp,
            Option::None => (Seq::<i32>::empty(), 0int),
        };
        new.stack_of(name) == Option::Some(
            (
                crate::history::spec_added(t.0, t.1, num, prev.hist_sz as nat),
                if t.0.len() > 0 && t.0[t.1] == num {
                    t.1
                } else {
                    0int
                },
            ),
        )
    })
    &&& crate::manager::others_framed(&new, &prev, name)
}

/// One manager records the visit a workspace node describes on top of
/// another; a node without a number or output records nothing.
pub open spec fn maybe_push_mgr(
    prev: HistoryManager,
    new: HistoryManager,
    node: Option<WsNode>,
) -> bool {
    match node {
        Option::Some(nd) => match (nd.num, nd.output) {
            (Option::Some(n), Option::Some(o)) => push_step_mgr(prev, new, o@, n),
            _ => new == prev,
        },
        Option::None => new == prev,
    }
}

/// One manager is the other after the timeout step: every cursor reset
/// when the timeout fired, untouched otherwise.
pub open spec fn timeout_step_mgr(prev: HistoryManager, new: HistoryManager, triggered: bool) -> bool {
    if triggered {
        new.hist_sz == prev.hist_sz && new.is_per_output() == prev.is_per_output() && all_reset(
            &new,
            &prev,
        )
    } else {
        new == prev
    }
}

/// What every timeout-checking operation guarantees of the state: shape
/// and configuration kept, the deadline extended from `now`.
pub open spec fn nav_scalars_ok(pre: &WSHistory, post: &WSHistory, now: u64) -> bool {
    &&& post.wf()
    &&& post.same_config(pre)
    &&& post.cur_output == pre.cur_output
    &&& post.activity_deadline == pre.spec_deadline_after(now)
}

/// Stacks of outputs other than the current one have only been through
/// the timeout step.
pub open spec fn others_mid_ok(pre: &WSHistory, post: &WSHistory, now: u64) -> bool {
    forall|o: Seq<char>|
        o != pre.cur_output@ && pre.hist.is_per_output() ==> #[trigger] post.hist.stack_of(o)
            == pre.stack_mid(o, now)
}

/// The current output's stack after a cursor move in `dir`.
pub open spec fn nav_stack_ok(
    pre: &WSHistory,
    post: &WSHistory,
    dir: WSDirection,
    wssv: Option<Seq<WorkspaceInfo>>,
    now: u64,
) -> bool {
    let mid = pre.stack_mid(pre.cur_output@, now);
    match mid {
        Option::None => post.hist.stack_of(pre.cur_output@) is None,
        Option::Some((s, p)) => match spec_nav_from(
            mid,
            p,
            dir,
            pre.skip_visible,
            pre.hist.is_per_output(),
            pre.cur_output@,
            wssv,
        ) {
            Option::Some(d) => post.hist.stack_of(pre.cur_output@) == Option::Some((s, d)),
            Option::None => post.hist.stack_of(pre.cur_output@) == mid,
        },
    }
}

/// The current output's stack after remove-and-move in `dir`.
pub open spec fn rem_stack_ok(
    pre: &WSHistory,
    post: &WSHistory,
    dir: WSDirection,
    wssv: Option<Seq<WorkspaceInfo>>,
    now: u64,
) -> bool {
    let mid = pre.stack_mid(pre.cur_output@, now);
    match mid {
        Option::None => post.hist.stack_of(pre.cur_output@) is None,
        Option::Some((s, p)) => match spec_nav_from(
            mid,
            p,
            dir,
            pre.skip_visible,
            pre.hist.is_per_output(),
            pre.cur_output@,
            wssv,
        ) {
            Option::Some(d) => post.hist.stack_of(pre.cur_output@) == Option::Some(
                (
                    s.remove(p),
                    if p < d {
                        d - 1
                    } else {
                        d
                    },
                ),
            ),
            Option::None => post.hist.stack_of(pre.cur_output@) == mid,
        },
    }
}

/// The current output's stack after a jump to the head.
pub open spec fn head_stack_ok(
    pre: &WSHistory,
    post: &WSHistory,
    wssv: Option<Seq<WorkspaceInfo>>,
    now: u64,
) -> bool {
    let mid = pre.stack_mid(pre.cur_output@, now);
    match mid {
        Option::None => post.hist.stack_of(pre.cur_output@) is None,
        Option::Some((s, p)) => {
            if p == 0 {
                post.hist.stack_of(pre.cur_output@) == mid
            } else {
                let t = spec_head_target(
                    s,
                    pre.skip_visible,
                    pre.hist.is_per_output(),
                    pre.cur_output@,
                    wssv,
                );
                post.hist.stack_of(pre.cur_output@) == Option::Some((s, t))
            }
        },
    }
}

/// The current output's stack after swapping the two next qualifying
/// entries in `dir`.
pub open spec fn swap_stack_ok(
    pre: &WSHistory,
    post: &WSHistory,
    dir: WSDirection,
    wssv: Option<Seq<WorkspaceInfo>>,
    now: u64,
) -> bool {
    let mid = pre.stack_mid(pre.cur_output@, now);
    match mid {
        Option::None => post.hist.stack_of(pre.cur_output@) is None,
        Option::Some((s, p)) => {
            let sv = pre.skip_visible;
            let po = pre.hist.is_per_output();
            let co = pre.cur_output@;
            match spec_nav_from(mid, p, dir, sv, po, co, wssv) {
                Option::None => post.hist.stack_of(pre.cur_output@) == mid,
                Option::Some(d1) => match spec_nav_from(mid, d1, dir, sv, po, co, wssv) {
                    Option::None => post.hist.stack_of(pre.cur_output@) == mid,
                    Option::Some(d2) => post.hist.stack_of(pre.cur_output@) == Option::Some(
                        (s.update(d1, s[d2]).update(d2, s[d1]), p),
                    ),
                },
            }
        },
    }
}

/// Everything one dispatch step guarantees: the response handed back
/// and the new state, for each kind of event, given the query result
/// view `wssv` and the clock reading `now`.
pub open spec fn process_post(
    pre: &WSHistory,
    post: &WSHistory,
    e: &Event,
    wssv: Option<Seq<WorkspaceInfo>>,
    now: u64,
    cmd: Option<String>,
    note: Option<StackNote>,
) -> bool {
    match e {
        Event::Workspace(ws) => {
            &&& cmd is None
            &&& note is None
            &&& post.same_config(pre)
            &&& post.activity_deadline == pre.spec_deadline_after(now)
            &&& post.cur_output@ == (match ws.current {
                Option::Some(c) => match c.output {
                    Option::Some(o) => o@,
                    Option::None => pre.cur_output@,
                },
                Option::None => pre.cur_output@,
            })
            &&& post.ignore_ctr == (if ws.change != WorkspaceChange::Init && pre.ignore_ctr > 0 {
                (pre.ignore_ctr - 1) as usize
            } else {
                pre.ignore_ctr
            })
            &&& ({
                let trig = pre.spec_triggered(now);
                let recording = ws.change != WorkspaceChange::Init && pre.ignore_ctr
                    == 0 && (ws.old matches Option::Some(o) && ws.current matches
                Option::Some(c) && o.num != c.num);
                if recording {
                    exists|m0: HistoryManager, m1: HistoryManager|
                        #![trigger timeout_step_mgr(pre.hist, m0, trig), maybe_push_mgr(m0, m1, ws.old)]
                        timeout_step_mgr(pre.hist, m0, trig) && maybe_push_mgr(
                            m0,
                            m1,
                            ws.old,
                        ) && maybe_push_mgr(m1, post.hist, ws.current)
                } else {
                    timeout_step_mgr(pre.hist, post.hist, trig)
                }
            })
        },
        Event::Binding(key) => {
            &&& post.cur_output == pre.cur_output
            &&& ({
                let guard = pre.hist.stack_of(pre.cur_output@) matches
                Option::Some(sp) && sp.0.len() > 0;
                if !guard {
                    cmd is None && note is None && *post == *pre
                } else {
                    match pre.selected_op(key) {
                        Option::None => cmd is None && note is None && *post == *pre,
                        Option::Some(op) => {
                            match op {
                                HistOp::Prev => nav_scalars_ok(pre, post, now)
                                    && others_mid_ok(pre, post, now) && nav_stack_ok(
                                    pre,
                                    post,
                                    WSDirection::PREV,
                                    wssv,
                                    now,
                                ) && post.ignore_ctr == pre.ignore_ctr + (
                                if pre.spec_nav_result(WSDirection::PREV, wssv, now) is
                                    Some {
                                    1int
                                } else {
                                    0int
                                }) && cmd_matches(
                                    cmd,
                                    pre.spec_nav_result(WSDirection::PREV, wssv, now),
                                    false,
                                ) && note is None,
                                HistOp::MovePrev => nav_scalars_ok(pre, post, now)
                                    && others_mid_ok(pre, post, now) && nav_stack_ok(
                                    pre,
                                    post,
                                    WSDirection::PREV,
                                    wssv,
                                    now,
                                ) && post.ignore_ctr == pre.ignore_ctr + (
                                if pre.spec_nav_result(WSDirection::PREV, wssv, now) is
                                    Some {
                                    2int
                                } else {
                                    0int
                                }) && cmd_matches(
                                    cmd,
                                    pre.spec_nav_result(WSDirection::PREV, wssv, now),
                                    true,
                                ) && note is None,
                                HistOp::Next => nav_scalars_ok(pre, post, now)
                                    && others_mid_ok(pre, post, now) && nav_stack_ok(
                                    pre,
                                    post,
                                    WSDirection::NEXT,
                                    wssv,
                                    now,
                                ) && post.ignore_ctr == pre.ignore_ctr + (
                                if pre.spec_nav_result(WSDirection::NEXT, wssv, now) is
                                    Some {
                                    1int
                                } else {
                                    0int
                                }) && cmd_matches(
                                    cmd,
                                    pre.spec_nav_result(WSDirection::NEXT, wssv, now),
                                    false,
                                ) && note is None,
                                HistOp::MoveNext => nav_scalars_ok(pre, post, now)
                                    && others_mid_ok(pre, post, now) && nav_stack_ok(
                                    pre,
                                    post,
                                    WSDirection::NEXT,
                                    wssv,
                                    now,
                                ) && post.ignore_ctr == pre.ignore_ctr + (
                                if pre.spec_nav_result(WSDirection::NEXT, wssv, now) is
                                    Some {
                                    2int
                                } else {
                                    0int
                                }) && cmd_matches(
                                    cmd,
                                    pre.spec_nav_result(WSDirection::NEXT, wssv, now),
                                    true,
                                ) && note is None,
                                HistOp::SwapPrev => nav_scalars_ok(pre, post, now)
                                    && others_mid_ok(pre, post, now) && swap_stack_ok(
                                    pre,
                                    post,
                                    WSDirection::PREV,
                                    wssv,
                                    now,
                                ) && post.ignore_ctr == pre.ignore_ctr && cmd is None
                                    && note is None,
                                HistOp::SwapNext => nav_scalars_ok(pre, post, now)
                                    && others_mid_ok(pre, post, now) && swap_stack_ok(
                                    pre,
                                    post,
                                    WSDirection::NEXT,
                                    wssv,
                                    now,
                                ) && post.ignore_ctr == pre.ignore_ctr && cmd is None
                                    && note is None,
                                HistOp::ResetCursor => nav_scalars_ok(pre, post, now)
                                    && post.ignore_ctr == pre.ignore_ctr && cmd is None
                                    && note is None && (if pre.spec_triggered(now) {
                                    all_reset(&post.hist, &pre.hist)
                                } else {
                                    post.hist.stack_of(pre.cur_output@) == (
                                    match pre.hist.stack_of(pre.cur_output@) {
                                        Option::None => Option::None::<(Seq<i32>, int)>,
                                        Option::Some((s, p)) => Option::Some(
                                            (spec_reset_entries(s, p), 0int),
                                        ),
                                    }) && crate::manager::others_framed(
                                        &post.hist,
                                        &pre.hist,
                                        pre.cur_output@,
                                    )
                                }),
                                HistOp::ToHead => nav_scalars_ok(pre, post, now)
                                    && others_mid_ok(pre, post, now) && head_stack_ok(
                                    pre,
                                    post,
                                    wssv,
                                    now,
                                ) && post.ignore_ctr == pre.ignore_ctr + (
                                if pre.spec_head_result(wssv, now) is Some {
                                    1int
                                } else {
                                    0int
                                }) && cmd_matches(
                                    cmd,
                                    pre.spec_head_result(wssv, now),
                                    false,
                                ) && note is None,
                                HistOp::MoveToHead => nav_scalars_ok(pre, post, now)
                                    && others_mid_ok(pre, post, now) && head_stack_ok(
                                    pre,
                                    post,
                                    wssv,
                                    now,
                                ) && post.ignore_ctr == pre.ignore_ctr + (
                                if pre.spec_head_result(wssv, now) is Some {
                                    2int
                                } else {
                                    0int
                                }) && cmd_matches(
                                    cmd,
                                    pre.spec_head_result(wssv, now),
                                    true,
                                ) && note is None,
                                HistOp::RemPrev => nav_scalars_ok(pre, post, now)
                                    && others_mid_ok(pre, post, now) && rem_stack_ok(
                                    pre,
                                    post,
                                    WSDirection::PREV,
                                    wssv,
                                    now,
                                ) && post.ignore_ctr == pre.ignore_ctr + (
                                if pre.spec_nav_result(WSDirection::PREV, wssv, now) is
                                    Some {
                                    1int
                                } else {
                                    0int
                                }) && cmd_matches(
                                    cmd,
                                    pre.spec_nav_result(WSDirection::PREV, wssv, now),
                                    false,
                                ) && note is None,
                                HistOp::RemNext => nav_scalars_ok(pre, post, now)
                                    && others_mid_ok(pre, post, now) && rem_stack_ok(
                                    pre,
                                    post,
                                    WSDirection::NEXT,
                                    wssv,
                                    now,
                                ) && post.ignore_ctr == pre.ignore_ctr + (
                                if pre.spec_nav_result(WSDirection::NEXT, wssv, now) is
                                    Some {
                                    1int
                                } else {
                                    0int
                                }) && cmd_matches(
                                    cmd,
                                    pre.spec_nav_result(WSDirection::NEXT, wssv, now),
                                    false,
                                ) && note is None,
                                HistOp::ShowStack => nav_scalars_ok(pre, post, now)
                                    && others_mid_ok(pre, post, now) && post.ignore_ctr
                                    == pre.ignore_ctr && post.hist.stack_of(
                                    pre.cur_output@,
                                ) == pre.stack_mid(pre.cur_output@, now) && cmd is None
                                    && (note matches Option::Some(sn) && sn.summary@
                                    == spec_stack_header(
                                    pre.hist.is_per_output(),
                                    pre.cur_output@,
                                ) && (pre.stack_mid(pre.cur_output@, now) matches
                                Option::Some(sp) && sn.body@
                                    == crate::manager::spec_render_stack(sp.0, sp.1))),
                            }
                        },
                    }
                }
            })
        },
        _ => cmd is None && note is None && *post == *pre,
    }
}

/// The command text owed for a navigation that landed on `moved`:
/// nothing when the cursor did not move, a plain switch or a
/// move-then-switch otherwise.
pub open spec fn cmd_matches(c: Option<String>, moved: Option<i32>, moving: bool) -> bool {
    match moved {
        Option::Some(n) => c matches Option::Some(cmd) && cmd@ == (if moving {
            crate::commands::spec_move_cmd(n as int)
        } else {
            crate::commands::spec_switch_cmd(n as int)
        }),
        Option::None => c is None,
    }
}

/// Where navigation in `dir` goes from cursor `cur` on stack `st`:
/// the next index after applying the range check and, when the policy
/// asks for it and a query result is at hand, the skip walk.
pub open spec fn spec_nav_from(
    st: Option<(Seq<i32>, int)>,
    cur: int,
    dir: WSDirection,
    skip_visible: bool,
    per_output: bool,
    cur_output: Seq<char>,
    wss: Option<Seq<WorkspaceInfo>>,
) -> Option<int> {
    match st {
        Option::None => Option::None,
        Option::Some((s, _)) => {
            if s.len() == 0 {
                Option::None
            } else {
                let limit = s.len() - 1;
                if !spec_in_range(cur, dir, limit) {
                    Option::None
                } else {
                    let step = if dir is PREV {
                        cur + 1
                    } else {
                        cur - 1
                    };
                    if skip_visible || per_output {
                        match wss {
                            Option::Some(w) => spec_walk(
                                s,
                                step,
                                dir,
                                skip_visible,
                                per_output,
                                cur_output,
                                w,
                            ),
                            Option::None => Option::Some(step),
                        }
                    } else {
                        Option::Some(step)
                    }
                }
            }
        },
    }
}

impl WSHistory {
    /// Structural invariant: the stored stacks are well formed.
    pub open spec fn wf(&self) -> bool {
        self.hist.wf()
    }

    /// The idle timeout has passed at clock reading `now`.
    pub open spec fn spec_triggered(&self, now: u64) -> bool {
        self.activity_timeout is Some && now > self.activity_deadline
    }

    /// The deadline after extending it from `now` (saturating at the top
    /// of the clock's range).
    pub open spec fn spec_deadline_after(&self, now: u64) -> u64 {
        match self.activity_timeout {
            Option::Some(t) => if now + t > u64::MAX {
                u64::MAX
            } else {
                (now + t) as u64
            },
            Option::None => self.activity_deadline,
        }
    }

    /// The stack under `o` after the timeout step at `now`.
    pub open spec fn stack_mid(&self, o: Seq<char>, now: u64) -> Option<(Seq<i32>, int)> {
        match self.hist.stack_of(o) {
            Option::None => Option::None,
            Option::Some((s, p)) => if self.spec_triggered(now) {
                Option::Some((spec_reset_entries(s, p), 0int))
            } else {
                Option::Some((s, p))
            },
        }
    }

    /// Both engines carry the same configuration: policy flags, timeout,
    /// stack bound and mode, and all twelve bindings.
    pub open spec fn same_config(&self, other: &WSHistory) -> bool {
        &&& self.skip_visible == other.skip_visible
        &&& self.activity_timeout == other.activity_timeout
        &&& self.hist.hist_sz == other.hist.hist_sz
        &&& self.hist.is_per_output() == other.hist.is_per_output()
        &&& self.binding_prev == other.binding_prev
        &&& self.binding_move_prev == other.binding_move_prev
        &&& self.binding_next == other.binding_next
        &&& self.binding_move_next == other.binding_move_next
        &&& self.binding_swap_prev == other.binding_swap_prev
        &&& self.binding_swap_next == other.binding_swap_next
        &&& self.binding_reset == other.binding_reset
        &&& self.binding_to_head == other.binding_to_head
        &&& self.binding_move_to_head == other.binding_move_to_head
        &&& self.binding_rem_and_prev == other.binding_rem_and_prev
        &&& self.binding_rem_and_next == other.binding_rem_and_next
        &&& self.binding_show_stack == other.binding_show_stack
    }

    /// The navigation target from cursor `cur` of the current output's
    /// stack, in this state.
    pub open spec fn spec_get_ws(
        &self,
        cur: int,
        dir: WSDirection,
        wss: Option<Seq<WorkspaceInfo>>,
    ) -> Option<int> {
        spec_nav_from(
            self.hist.stack_of(self.cur_output@),
            cur,
            dir,
            self.skip_visible,
            self.hist.is_per_output(),
            self.cur_output@,
            wss,
        )
    }

    /// The first queried workspace numbered `num`, by index.
    fn find_ws_index(wss: &Vec<WorkspaceInfo>, num: i32) -> (r: Option<usize>)
        ensures
            match r {
                Option::Some(i) => i < wss@.len() && spec_find_ws(wss@, num) == Option::Some(
                    wss@[i as int],
                ),
                Option::None => spec_find_ws(wss@, num) is None,
            },
    {
        let n = wss.len();
        let mut i: usize = 0;
        proof {
            assert(wss@.skip(0) =~= wss@);
        }
        while i < n
            invariant
                n == wss@.len(),
                i <= n,
                spec_find_ws(wss@, num) == spec_find_ws(wss@.skip(i as int), num),
            decreases n - i,
        {
            proof {
                assert(wss@.skip(i as int)[0] == wss@[i as int]);
                assert(wss@.skip(i as int).drop_first() =~= wss@.skip(i as int + 1));
            }
            if wss[i].num == num {
                return Option::Some(i);
            }
            i += 1;
        }
        proof {
            assert(wss@.skip(n as int).len() == 0);
        }
        Option::None
    }

    /// Whether the walk skips `ws`, given the query result at hand.
    fn skip_entry(&self, wss: &Vec<WorkspaceInfo>, per_output: bool, ws: i32) -> (b: bool)
        requires
            per_output == self.hist.is_per_output(),
        ensures
            b == spec_skip_entry(
                self.skip_visible,
                per_output,
                self.cur_output@,
                wss@,
                ws,
            ),
    {
        match Self::find_ws_index(wss, ws) {
            Option::Some(i) => (self.skip_visible && wss[i].visible) || (per_output
                && wss[i].output != self.cur_output),
            Option::None => false,
        }
    }

    /// Get the next or previous workspace from the history stack, relative
    /// to the cursor position `cur_ws`.  Returns the index in the stack of
    /// that workspace if one is reachable in that direction, `None`
    /// otherwise.  With no query result at hand the skip policy degrades
    /// to accepting the first candidate.
    pub fn get_ws(&self, cur_ws: usize, dir: WSDirection, wss: Option<&Vec<WorkspaceInfo>>) -> (r:
        Option<usize>)
        requires
            self.wf(),
            self.hist.stack_of(self.cur_output@) matches Option::Some(sp) ==> (sp.0.len() == 0 || (
            cur_ws as int) < sp.0.len()),
        ensures
            match self.spec_get_ws(cur_ws as int, dir, opt_wss_view(wss)) {
                Option::Some(d) => r matches Option::Some(rd) && rd as int == d,
                Option::None => r is None,
            },
            r matches Option::Some(rd) ==> (self.hist.stack_of(self.cur_output@) matches
                Option::Some(sp) && (rd as int) < sp.0.len() && (if dir is PREV {
                cur_ws < rd
            } else {
                rd < cur_ws
            })),
    {
        let per_output = self.hist.per_output();
        let hist = match self.hist.get(&self.cur_output) {
            Option::Some(h) => h,
            Option::None => {
                return Option::None;
            },
        };
        let n = hist.len();
        if n == 0 {
            return Option::None;
        }
        let limit = n - 1;
        let in_r = match dir {
            WSDirection::PREV => cur_ws < limit,
            WSDirection::NEXT => cur_ws > 0,
        };
        if !in_r {
            return Option::None;
        }
        let step0: usize = match dir {
            WSDirection::PREV => cur_ws + 1,
            WSDirection::NEXT => cur_ws - 1,
        };
        if !(self.skip_visible || per_output) {
            return Option::Some(step0);
        }
        let w = match wss {
            Option::Some(w) => w,
            Option::None => {
                return Option::Some(step0);
            },
        };
        let ghost s = hist.entries();
        let mut dest: usize = step0;
        loop
            invariant
                self.wf(),
                per_output == self.hist.is_per_output(),
                self.hist.stack_of(self.cur_output@) matches Option::Some(sp) && sp.0 == s,
                n == s.len(),
                n > 0,
                limit == n - 1,
                hist.entries() == s,
                self.skip_visible || per_output,
                opt_wss_view(wss) == Option::Some(w@),
                spec_in_range(cur_ws as int, dir, limit as int),
                step0 as int == (if dir is PREV {
                    cur_ws as int + 1
                } else {
                    cur_ws as int - 1
                }),
                dest <= limit,
                dir is PREV ==> cur_ws < dest,
                dir is NEXT ==> dest < cur_ws,
                spec_walk(
                    s,
                    dest as int,
                    dir,
                    self.skip_visible,
                    per_output,
                    self.cur_output@,
                    w@,
                ) == spec_walk(
                    s,
                    step0 as int,
                    dir,
                    self.skip_visible,
                    per_output,
                    self.cur_output@,
                    w@,
                ),
            decreases (if dir is PREV {
                n - dest
            } else {
                dest as int
            }),
        {
            if !self.skip_entry(w, per_output, hist.index(dest)) {
                return Option::Some(dest);
            }
            match dir {
                WSDirection::PREV => {
                    if dest < limit {
                        dest = dest + 1;
                    } else {
                        return Option::None;
                    }
                },
                WSDirection::NEXT => {
                    if dest > 0 {
                        dest = dest - 1;
                    } else {
                        return Option::None;
                    }
                },
            }
        }
    }

    /// Check whether the idle timeout has passed since the last recorded
    /// activity; if it has, reset the cursor of every stack.  Either way
    /// the deadline is extended from `now` (saturating at the top of the
    /// clock's range).  Returns whether the reset fired.
    pub fn check_timeout(&mut self, now: u64) -> (triggered: bool)
        requires
            old(self).wf(),
        ensures
            final(self).wf(),
            final(self).same_config(old(self)),
            final(self).cur_output == old(self).cur_output,
            final(self).ignore_ctr == old(self).ignore_ctr,
            triggered == old(self).spec_triggered(now),
            final(self).activity_deadline == old(self).spec_deadline_after(now),
            triggered ==> all_reset(&final(self).hist, &old(self).hist),
            !triggered ==> final(self).hist == old(self).hist,
    {
        match self.activity_timeout {
            Option::Some(t) => {
                let triggered = now > self.activity_deadline;
                self.activity_deadline = if now <= u64::MAX - t {
                    now + t
                } else {
                    u64::MAX
                };
                if triggered {
                    self.hist.reset_all();
                }
                triggered
            },
            Option::None => false,
        }
    }

    /// Add `ws_num` to the history kept for `output`, creating that
    /// stack first if needed.
    pub fn add_ws(&mut self, ws_num: i32, output: &String)
        requires
            old(self).wf(),
        ensures
            final(self).wf(),
            final(self).same_config(old(self)),
            final(self).cur_output == old(self).cur_output,
            final(self).ignore_ctr == old(self).ignore_ctr,
            final(self).activity_deadline == old(self).activity_deadline,
            ({
                let t = match old(self).hist.stack_of(output@) {
                    Option::Some(sp) => sp,
                    Option::None => (Seq::<i32>::empty(), 0int),
                };
                final(self).hist.stack_of(output@) == Option::Some(
                    (
                        crate::history::spec_added(t.0, t.1, ws_num, old(self).hist.hist_sz as nat),
                        if t.0.len() > 0 && t.0[t.1] == ws_num {
                            t.1
                        } else {
                            0int
                        },
                    ),
                )
            }),
            crate::manager::others_framed(&final(self).hist, &old(self).hist, output@),
    {
        self.hist.push_for(output, ws_num);
    }

    /// Go to the next or previous workspace in the stack: run the timeout
    /// check, find the navigation target from the (possibly reset) cursor,
    /// and move the cursor there.  Returns the workspace number landed on,
    /// or `None` if the cursor did not move.
    pub fn goto_ws(&mut self, dir: WSDirection, wss: Option<&Vec<WorkspaceInfo>>, now: u64) -> (r:
        Option<i32>)
        requires
            old(self).wf(),
        ensures
            final(self).wf(),
            final(self).same_config(old(self)),
            final(self).cur_output == old(self).cur_output,
            final(self).ignore_ctr == old(self).ignore_ctr,
            final(self).activity_deadline == old(self).spec_deadline_after(now),
            ({
                let mid = old(self).stack_mid(old(self).cur_output@, now);
                match mid {
                    Option::None => r is None && final(self).hist.stack_of(
                        old(self).cur_output@,
                    ) is None,
                    Option::Some((s, p)) => match spec_nav_from(
                        mid,
                        p,
                        dir,
                        old(self).skip_visible,
                        old(self).hist.is_per_output(),
                        old(self).cur_output@,
                        opt_wss_view(wss),
                    ) {
                        Option::Some(d) => r == Option::Some(s[d]) && final(self).hist.stack_of(
                            old(self).cur_output@,
                        ) == Option::Some((s, d)),
                        Option::None => r is None && final(self).hist.stack_of(
                            old(self).cur_output@,
                        ) == mid,
                    },
                }
            }),
            forall|o: Seq<char>|
                o != old(self).cur_output@ && old(self).hist.is_per_output()
                    ==> #[trigger] final(self).hist.stack_of(o) == old(self).stack_mid(o, now),
    {
        self.check_timeout(now);
        let ghost mid_state = *self;
        let ptr = match self.hist.get(&self.cur_output) {
            Option::Some(h) => h.cursor_pos(),
            Option::None => {
                return Option::None;
            },
        };
        let new_ws = match self.get_ws(ptr, dir, wss) {
            Option::Some(d) => d,
            Option::None => {
                return Option::None;
            },
        };
        self.hist.set_cursor_for(&self.cur_output, new_ws);
        match self.hist.get(&self.cur_output) {
            Option::Some(h) => Option::Some(h.current()),
            Option::None => {
                proof {
                    assert(false);
                }
                Option::None
            },
        }
    }

    /// Go to the next/previous workspace and remove the entry under the
    /// cursor from the stack.  Returns the workspace number landed on if
    /// the cursor moved.
    pub fn rem_ws(&mut self, dir: WSDirection, wss: Option<&Vec<WorkspaceInfo>>, now: u64) -> (r:
        Option<i32>)
        requires
            old(self).wf(),
        ensures
            final(self).wf(),
            final(self).same_config(old(self)),
            final(self).cur_output == old(self).cur_output,
            final(self).ignore_ctr == old(self).ignore_ctr,
            final(self).activity_deadline == old(self).spec_deadline_after(now),
            ({
                let mid = old(self).stack_mid(old(self).cur_output@, now);
                match mid {
                    Option::None => r is None && final(self).hist.stack_of(
                        old(self).cur_output@,
                    ) is None,
                    Option::Some((s, p)) => match spec_nav_from(
                        mid,
                        p,
                        dir,
                        old(self).skip_visible,
                        old(self).hist.is_per_output(),
                        old(self).cur_output@,
                        opt_wss_view(wss),
                    ) {
                        Option::Some(d) => r == Option::Some(s[d]) && final(self).hist.stack_of(
                            old(self).cur_output@,
                        ) == Option::Some(
                            (
                                s.remove(p),
                                if p < d {
                                    d - 1
                                } else {
                                    d
                                },
                            ),
                        ),
                        Option::None => r is None && final(self).hist.stack_of(
                            old(self).cur_output@,
                        ) == mid,
                    },
                }
            }),
            forall|o: Seq<char>|
                o != old(self).cur_output@ && old(self).hist.is_per_output()
                    ==> #[trigger] final(self).hist.stack_of(o) == old(self).stack_mid(o, now),
    {
        self.check_timeout(now);
        let cur_ptr = match self.hist.get(&self.cur_output) {
            Option::Some(h) => h.cursor_pos(),
            Option::None => {
                return Option::None;
            },
        };
        match self.get_ws(cur_ptr, dir, wss) {
            Option::Some(new_ws) => {
                self.hist.remove_and_point_for(&self.cur_output, cur_ptr, new_ws);
                match self.hist.get(&self.cur_output) {
                    Option::Some(h) => {
                        let ws = h.current();
                        proof {
                            let mid = old(self).stack_mid(old(self).cur_output@, now);
                            if let Option::Some((s, p)) = mid {
                                let d = new_ws as int;
                                if p < d {
                                    assert(s.remove(p)[d - 1] == s[d]);
                                } else {
                                    assert(s.remove(p)[d] == s[d]);
                                }
                            }
                        }
                        Option::Some(ws)
                    },
                    Option::None => {
                        proof {
                            assert(false);
                        }
                        Option::None
                    },
                }
            },
            Option::None => Option::None,
        }
    }

    /// Jump to the top of the stack: run the timeout check, then move the
    /// cursor toward position 0, settling on the first entry from the top
    /// that the skip policy does not exclude (or the top itself when every
    /// candidate is excluded).  Returns the workspace number landed on if
    /// the cursor moved.
    pub fn goto_head(&mut self, wss: Option<&Vec<WorkspaceInfo>>, now: u64) -> (r: Option<i32>)
        requires
            old(self).wf(),
        ensures
            final(self).wf(),
            final(self).same_config(old(self)),
            final(self).cur_output == old(self).cur_output,
            final(self).ignore_ctr == old(self).ignore_ctr,
            final(self).activity_deadline == old(self).spec_deadline_after(now),
            ({
                let mid = old(self).stack_mid(old(self).cur_output@, now);
                match mid {
                    Option::None => r is None && final(self).hist.stack_of(
                        old(self).cur_output@,
                    ) is None,
                    Option::Some((s, p)) => {
                        if p == 0 {
                            r is None && final(self).hist.stack_of(old(self).cur_output@) == mid
                        } else {
                            let t = spec_head_target(
                                s,
                                old(self).skip_visible,
                                old(self).hist.is_per_output(),
                                old(self).cur_output@,
                                opt_wss_view(wss),
                            );
                            final(self).hist.stack_of(old(self).cur_output@) == Option::Some(
                                (s, t),
                            ) && r == (if t != p {
                                Option::Some(s[t])
                            } else {
                                Option::None
                            })
                        }
                    },
                }
            }),
            forall|o: Seq<char>|
                o != old(self).cur_output@ && old(self).hist.is_per_output()
                    ==> #[trigger] final(self).hist.stack_of(o) == old(self).stack_mid(o, now),
    {
        self.check_timeout(now);
        let per_output = self.hist.per_output();
        let (old_ptr, n) = match self.hist.get(&self.cur_output) {
            Option::Some(h) => (h.cursor_pos(), h.len()),
            Option::None => {
                return Option::None;
            },
        };
        if old_ptr == 0 {
            return Option::None;
        }
        let mut target: usize = 0;
        if self.skip_visible || per_output {
            if let Option::Some(w) = wss {
                let h = match self.hist.get(&self.cur_output) {
                    Option::Some(h) => h,
                    Option::None => {
                        proof {
                            assert(false);
                        }
                        return Option::None;
                    },
                };
                let ghost s = h.entries();
                let limit = n - 1;
                let mut dest: usize = 0;
                let mut done = false;
                while !done && dest < limit
                    invariant
                        self.wf(),
                        per_output == self.hist.is_per_output(),
                        n == s.len(),
                        n >= 2,
                        limit == n - 1,
                        h.entries() == s,
                        dest <= limit,
                        target <= limit,
                        self.skip_visible || per_output,
                        done ==> target as int == spec_head_walk(
                            s,
                            0,
                            self.skip_visible,
                            per_output,
                            self.cur_output@,
                            w@,
                        ),
                        !done ==> target == 0 && spec_head_walk(
                            s,
                            dest as int,
                            self.skip_visible,
                            per_output,
                            self.cur_output@,
                            w@,
                        ) == spec_head_walk(
                            s,
                            0,
                            self.skip_visible,
                            per_output,
                            self.cur_output@,
                            w@,
                        ),
                    decreases limit - dest + (if done {
                        0int
                    } else {
                        1int
                    }),
                {
                    if self.skip_entry(w, per_output, h.index(dest)) {
                        dest += 1;
                    } else {
                        target = dest;
                        done = true;
                    }
                }
                proof {
                    assert(target as int == spec_head_walk(
                        s,
                        0,
                        self.skip_visible,
                        per_output,
                        self.cur_output@,
                        w@,
                    ));
                }
            }
        }
        self.hist.set_cursor_for(&self.cur_output, target);
        if target != old_ptr {
            match self.hist.get(&self.cur_output) {
                Option::Some(h) => Option::Some(h.current()),
                Option::None => {
                    proof {
                        assert(false);
                    }
                    Option::None
                },
            }
        } else {
            Option::None
        }
    }

    /// Swap the positions of the next two qualifying workspaces in the
    /// given direction; the cursor does not move and no command results.
    pub fn swap_ws(&mut self, dir: WSDirection, wss: Option<&Vec<WorkspaceInfo>>, now: u64)
        requires
            old(self).wf(),
        ensures
            final(self).wf(),
            final(self).same_config(old(self)),
            final(self).cur_output == old(self).cur_output,
            final(self).ignore_ctr == old(self).ignore_ctr,
            final(self).activity_deadline == old(self).spec_deadline_after(now),
            ({
                let mid = old(self).stack_mid(old(self).cur_output@, now);
                match mid {
                    Option::None => final(self).hist.stack_of(old(self).cur_output@) is None,
                    Option::Some((s, p)) => {
                        let sv = old(self).skip_visible;
                        let po = old(self).hist.is_per_output();
                        let co = old(self).cur_output@;
                        let wv = opt_wss_view(wss);
                        match spec_nav_from(mid, p, dir, sv, po, co, wv) {
                            Option::None => final(self).hist.stack_of(old(self).cur_output@)
                                == mid,
                            Option::Some(d1) => match spec_nav_from(mid, d1, dir, sv, po, co, wv) {
                                Option::None => final(self).hist.stack_of(old(self).cur_output@)
                                    == mid,
                                Option::Some(d2) => final(self).hist.stack_of(
                                    old(self).cur_output@,
                                ) == Option::Some(
                                    (s.update(d1, s[d2]).update(d2, s[d1]), p),
                                ),
                            },
                        }
                    },
                }
            }),
            forall|o: Seq<char>|
                o != old(self).cur_output@ && old(self).hist.is_per_output()
                    ==> #[trigger] final(self).hist.stack_of(o) == old(self).stack_mid(o, now),
    {
        self.check_timeout(now);
        let hist_ptr = match self.hist.get(&self.cur_output) {
            Option::Some(h) => h.cursor_pos(),
            Option::None => {
                return ;
            },
        };
        if let Option::Some(next_ws) = self.get_ws(hist_ptr, dir, wss) {
            if let Option::Some(next_ws2) = self.get_ws(next_ws, dir, wss) {
                self.hist.swap_for(&self.cur_output, next_ws, next_ws2);
            }
        }
    }

    /// The workspace number a cursor move in `dir` lands on, from this
    /// state at clock reading `now`.
    pub open spec fn spec_nav_result(
        &self,
        dir: WSDirection,
        wssv: Option<Seq<WorkspaceInfo>>,
        now: u64,
    ) -> Option<i32> {
        let mid = self.stack_mid(self.cur_output@, now);
        match mid {
            Option::None => Option::None,
            Option::Some((s, p)) => match spec_nav_from(
                mid,
                p,
                dir,
                self.skip_visible,
                self.hist.is_per_output(),
                self.cur_output@,
                wssv,
            ) {
                Option::Some(d) => Option::Some(s[d]),
                Option::None => Option::None,
            },
        }
    }

    /// The workspace number a jump to the head lands on, if the cursor
    /// would move.
    pub open spec fn spec_head_result(&self, wssv: Option<Seq<WorkspaceInfo>>, now: u64) -> Option<
        i32,
    > {
        match self.stack_mid(self.cur_output@, now) {
            Option::None => Option::None,
            Option::Some((s, p)) => {
                if p == 0 {
                    Option::None
                } else {
                    let t = spec_head_target(
                        s,
                        self.skip_visible,
                        self.hist.is_per_output(),
                        self.cur_output@,
                        wssv,
                    );
                    if t != p {
                        Option::Some(s[t])
                    } else {
                        Option::None
                    }
                }
            },
        }
    }

    /// The operation the configured bindings select for an incoming
    /// binding event; the first match wins.
    pub open spec fn selected_op(&self, key: &BindingData) -> Option<HistOp> {
        if self.binding_prev matches Option::Some(kb) && matches_spec(&kb, key) {
            Option::Some(HistOp::Prev)
        } else if self.binding_move_prev matches Option::Some(kb) && matches_spec(&kb, key) {
            Option::Some(HistOp::MovePrev)
        } else if self.binding_next matches Option::Some(kb) && matches_spec(&kb, key) {
            Option::Some(HistOp::Next)
        } else if self.binding_move_next matches Option::Some(kb) && matches_spec(&kb, key) {
            Option::Some(HistOp::MoveNext)
        } else if self.binding_swap_prev matches Option::Some(kb) && matches_spec(&kb, key) {
            Option::Some(HistOp::SwapPrev)
        } else if self.binding_swap_next matches Option::Some(kb) && matches_spec(&kb, key) {
            Option::Some(HistOp::SwapNext)
        } else if self.binding_reset matches Option::Some(kb) && matches_spec(&kb, key) {
            Option::Some(HistOp::ResetCursor)
        } else if self.binding_to_head matches Option::Some(kb) && matches_spec(&kb, key) {
            Option::Some(HistOp::ToHead)
        } else if self.binding_move_to_head matches Option::Some(kb) && matches_spec(&kb, key) {
            Option::Some(HistOp::MoveToHead)
        } else if self.binding_rem_and_prev matches Option::Some(kb) && matches_spec(&kb, key) {
            Option::Some(HistOp::RemPrev)
        } else if self.binding_rem_and_next matches Option::Some(kb) && matches_spec(&kb, key) {
            Option::Some(HistOp::RemNext)
        } else if self.binding_show_stack matches Option::Some(kb) && matches_spec(&kb, key) {
            Option::Some(HistOp::ShowStack)
        } else {
            Option::None
        }
    }

    fn binding_hits(b: &Option<KeyBinding>, key: &BindingData) -> (r: bool)
        ensures
            r == (b matches Option::Some(kb) && matches_spec(&kb, key)),
    {
        match b {
            Option::Some(kb) => kb.matches(key),
            Option::None => false,
        }
    }

    /// Decide which operation an incoming binding event selects.
    pub fn select_op(&self, key: &BindingData) -> (r: Option<HistOp>)
        ensures
            r == self.selected_op(key),
    {
        if Self::binding_hits(&self.binding_prev, key) {
            Option::Some(HistOp::Prev)
        } else if Self::binding_hits(&self.binding_move_prev, key) {
            Option::Some(HistOp::MovePrev)
        } else if Self::binding_hits(&self.binding_next, key) {
            Option::Some(HistOp::Next)
        } else if Self::binding_hits(&self.binding_move_next, key) {
            Option::Some(HistOp::MoveNext)
        } else if Self::binding_hits(&self.binding_swap_prev, key) {
            Option::Some(HistOp::SwapPrev)
        } else if Self::binding_hits(&self.binding_swap_next, key) {
            Option::Some(HistOp::SwapNext)
        } else if Self::binding_hits(&self.binding_reset, key) {
            Option::Some(HistOp::ResetCursor)
        } else if Self::binding_hits(&self.binding_to_head, key) {
            Option::Some(HistOp::ToHead)
        } else if Self::binding_hits(&self.binding_move_to_head, key) {
            Option::Some(HistOp::MoveToHead)
        } else if Self::binding_hits(&self.binding_rem_and_prev, key) {
            Option::Some(HistOp::RemPrev)
        } else if Self::binding_hits(&self.binding_rem_and_next, key) {
            Option::Some(HistOp::RemNext)
        } else if Self::binding_hits(&self.binding_show_stack, key) {
            Option::Some(HistOp::ShowStack)
        } else {
            Option::None
        }
    }

    /// Build an engine from a resolved configuration: empty history,
    /// nothing to ignore, no output seen yet, the idle clock at zero.
    pub fn from_config(config: WSHistoryConfig) -> (e: WSHistory)
        ensures
            e.wf(),
            e.hist.hist_sz == config.hist_sz,
            e.hist.is_per_output() == (config.hist_type is PerOutput),
            e.hist.is_per_output() ==> forall|o: Seq<char>| #[trigger] e.hist.stack_of(o) is None,
            !e.hist.is_per_output() ==> forall|o: Seq<char>|
                #[trigger] e.hist.stack_of(o) == Option::Some((Seq::<i32>::empty(), 0int)),
            e.ignore_ctr == 0,
            e.skip_visible == config.skip_visible,
            e.activity_deadline == 0,
            e.activity_timeout == (match config.activity_timeout {
                Option::Some(d) => Option::Some(d.millis),
                Option::None => Option::None::<u64>,
            }),
            e.cur_output@ == Seq::<char>::empty(),
            e.binding_prev == config.binding_prev,
            e.binding_move_prev == config.binding_move_prev,
            e.binding_next == config.binding_next,
            e.binding_move_next == config.binding_move_next,
            e.binding_swap_prev == config.binding_swap_prev,
            e.binding_swap_next == config.binding_swap_next,
            e.binding_reset == config.binding_reset,
            e.binding_to_head == config.binding_to_head,
            e.binding_move_to_head == config.binding_move_to_head,
            e.binding_rem_and_prev == config.binding_rem_and_prev,
            e.binding_rem_and_next == config.binding_rem_and_next,
            e.binding_show_stack == config.binding_show_stack,
    {
        WSHistory {
            hist: HistoryManager::new(config.hist_type, config.hist_sz),
            ignore_ctr: 0,
            activity_deadline: 0,
            activity_timeout: match config.activity_timeout {
                Option::Some(d) => Option::Some(d.millis),
                Option::None => Option::None,
            },
            cur_output: String::new(),
            skip_visible: config.skip_visible,
            binding_prev: config.binding_prev,
            binding_move_prev: config.binding_move_prev,
            binding_next: config.binding_next,
            binding_move_next: config.binding_move_next,
            binding_swap_prev: config.binding_swap_prev,
            binding_swap_next: config.binding_swap_next,
            binding_reset: config.binding_reset,
            binding_to_head: config.binding_to_head,
            binding_move_to_head: config.binding_move_to_head,
            binding_rem_and_prev: config.binding_rem_and_prev,
            binding_rem_and_next: config.binding_rem_and_next,
            binding_show_stack: config.binding_show_stack,
        }
    }

    /// A keyboard chord from its modifier names and symbol.
    fn chord(mask: Vec<String>, symbol: &str) -> (kb: KeyBinding)
        ensures
            kb.event_state_mask == mask,
            kb.symbol matches Option::Some(s) && s@ == symbol@,
            kb.input_type is Keyboard,
    {
        KeyBinding {
            event_state_mask: mask,
            symbol: Option::Some(String::from_str(symbol)),
            input_type: crate::events::BindType::Keyboard,
        }
    }

    /// Consume one inbound event.  A workspace event refreshes the
    /// current output, runs the timeout check and records the transition
    /// unless it was self-caused (ignore counter).  A binding event
    /// dispatches to the operation its chord selects, provided the
    /// current output has a non-empty history.  Returns the command to
    /// send, if any, and the stack notification to show, if any.
    pub fn process_event(&mut self, e: &Event, wss: Option<&Vec<WorkspaceInfo>>, now: u64) -> (r: (
        Option<String>,
        Option<StackNote>,
    ))
        requires
            old(self).wf(),
            old(self).ignore_ctr + 2 <= usize::MAX,
        ensures
            final(self).wf(),
            process_post(old(self), &*final(self), e, opt_wss_view(wss), now, r.0, r.1),
    {
        match e {
            Event::Workspace(ws) => {
                self.check_timeout(now);
                let ghost g0 = self.hist;
                if let Option::Some(current) = &ws.current {
                    if let Option::Some(output) = &current.output {
                        self.cur_output = output.clone();
                    }
                }
                if ws.change != WorkspaceChange::Init {
                    if self.ignore_ctr > 0 {
                        self.ignore_ctr = self.ignore_ctr - 1;
                    } else {
                        if let (Option::Some(o), Option::Some(c)) = (&ws.old, &ws.current) {
                            if o.num != c.num {
                                if let Option::Some(n) = o.num {
                                    if let Option::Some(out) = &o.output {
                                        self.add_ws(n, out);
                                    }
                                }
                                let ghost g1 = self.hist;
                                if let Option::Some(n) = c.num {
                                    if let Option::Some(out) = &c.output {
                                        self.add_ws(n, out);
                                    }
                                }
                                proof {
                                    let trig = old(self).spec_triggered(now);
                                    assert(timeout_step_mgr(old(self).hist, g0, trig));
                                    assert(maybe_push_mgr(g0, g1, ws.old));
                                    assert(maybe_push_mgr(g1, self.hist, ws.current));
                                }
                            }
                        }
                    }
                }
                (Option::None, Option::None)
            },
            Event::Binding(key) => {
                let has_hist = match self.hist.get(&self.cur_output) {
                    Option::Some(h) => h.len() > 0,
                    Option::None => false,
                };
                if !has_hist {
                    return (Option::None, Option::None);
                }
                let op = match self.select_op(key) {
                    Option::Some(op) => op,
                    Option::None => {
                        return (Option::None, Option::None);
                    },
                };
                match op {
                    HistOp::Prev => {
                        match self.goto_ws(WSDirection::PREV, wss, now) {
                            Option::Some(n) => {
                                self.ignore_ctr = self.ignore_ctr + 1;
                                (Option::Some(switch_cmd(n)), Option::None)
                            },
                            Option::None => (Option::None, Option::None),
                        }
                    },
                    HistOp::MovePrev => {
                        match self.goto_ws(WSDirection::PREV, wss, now) {
                            Option::Some(n) => {
                                self.ignore_ctr = self.ignore_ctr + 2;
                                (Option::Some(move_cmd(n)), Option::None)
                            },
                            Option::None => (Option::None, Option::None),
                        }
                    },
                    HistOp::Next => {
                        match self.goto_ws(WSDirection::NEXT, wss, now) {
                            Option::Some(n) => {
                                self.ignore_ctr = self.ignore_ctr + 1;
                                (Option::Some(switch_cmd(n)), Option::None)
                            },
                            Option::None => (Option::None, Option::None),
                        }
                    },
                    HistOp::MoveNext => {
                        match self.goto_ws(WSDirection::NEXT, wss, now) {
                            Option::Some(n) => {
                                self.ignore_ctr = self.ignore_ctr + 2;
                                (Option::Some(move_cmd(n)), Option::None)
                            },
                            Option::None => (Option::None, Option::None),
                        }
                    },
                    HistOp::SwapPrev => {
                        self.swap_ws(WSDirection::PREV, wss, now);
                        (Option::None, Option::None)
                    },
                    HistOp::SwapNext => {
                        self.swap_ws(WSDirection::NEXT, wss, now);
                        (Option::None, Option::None)
                    },
                    HistOp::ResetCursor => {
                        if !self.check_timeout(now) {
                            self.hist.reset_for(&self.cur_output);
                        }
                        (Option::None, Option::None)
                    },
                    HistOp::ToHead => {
                        match self.goto_head(wss, now) {
                            Option::Some(n) => {
                                self.ignore_ctr = self.ignore_ctr + 1;
                                (Option::Some(switch_cmd(n)), Option::None)
                            },
                            Option::None => (Option::None, Option::None),
                        }
                    },
                    HistOp::MoveToHead => {
                        match self.goto_head(wss, now) {
                            Option::Some(n) => {
                                self.ignore_ctr = self.ignore_ctr + 2;
                                (Option::Some(move_cmd(n)), Option::None)
                            },
                            Option::None => (Option::None, Option::None),
                        }
                    },
                    HistOp::RemPrev => {
                        match self.rem_ws(WSDirection::PREV, wss, now) {
                            Option::Some(n) => {
                                self.ignore_ctr = self.ignore_ctr + 1;
                                (Option::Some(switch_cmd(n)), Option::None)
                            },
                            Option::None => (Option::None, Option::None),
                        }
                    },
                    HistOp::RemNext => {
                        match self.rem_ws(WSDirection::NEXT, wss, now) {
                            Option::Some(n) => {
                                self.ignore_ctr = self.ignore_ctr + 1;
                                (Option::Some(switch_cmd(n)), Option::None)
                            },
                            Option::None => (Option::None, Option::None),
                        }
                    },
                    HistOp::ShowStack => {
                        self.check_timeout(now);
                        let body = match self.hist.display(&self.cur_output) {
                            Result::Ok(b) => b,
                            Result::Err(_) => {
                                proof {
                                    assert(false);
                                }
                                String::new()
                            },
                        };
                        let summary = if self.hist.per_output() {
                            let mut s = String::from_str("i3 Workspace History (");
                            s.append(self.cur_output.as_str());
                            s.append(")");
                            s
                        } else {
                            String::from_str("i3 Workspace History")
                        };
                        proof {
                            assert(summary@ =~= spec_stack_header(
                                self.hist.is_per_output(),
                                self.cur_output@,
                            ));
                        }
                        (Option::None, Option::Some(StackNote { summary, body }))
                    },
                }
            },
            _ => (Option::None, Option::None),
        }
    }
}

impl WSHistory {
    /// Whether a binding event should be handled with a fresh
    /// "current workspaces" query at hand: the skip policies need one.
    pub fn needs_workspace_query(&self) -> (b: bool)
        ensures
            b == (self.skip_visible || self.hist.is_per_output()),
    {
        self.skip_visible || self.hist.per_output()
    }

    /// One dispatch step, fed from the loop's environment snapshot.  An
    /// engine whose ignore counter has grown past any realistic bound
    /// stops reacting rather than let the counter wrap.
    pub fn dispatch(&mut self, e: &Event, ctx: &crate::traits::EventCtx) -> (r:
        crate::traits::EventResponse)
        requires
            old(self).wf(),
        ensures
            final(self).wf(),
            old(self).ignore_ctr <= usize::MAX - 2 ==> process_post(
                old(self),
                &*final(self),
                e,
                (match ctx.workspaces {
                    Option::Some(v) => Option::Some(v@),
                    Option::None => Option::None,
                }),
                ctx.now_ms,
                r.command,
                r.notification,
            ),
            old(self).ignore_ctr > usize::MAX - 2 ==> *final(self) == *old(self) && r.command
                is None && r.notification is None,
    {
        if self.ignore_ctr <= usize::MAX - 2 {
            let wss = match &ctx.workspaces {
                Option::Some(v) => Option::Some(v),
                Option::None => Option::None,
            };
            let (command, notification) = self.process_event(e, wss, ctx.now_ms);
            crate::traits::EventResponse { command, notification }
        } else {
            crate::traits::EventResponse { command: Option::None, notification: Option::None }
        }
    }
}

impl crate::traits::OnEvent for WSHistory {
    /// The engine is well formed when its stored stacks are.
    open spec fn inv(&self) -> bool {
        self.wf()
    }

    /// The engine declares exactly the workspace and binding event
    /// classes; whatever other handlers asked for stays in the set.
    fn add_subscriptions(&self, subs: &mut std::collections::HashSet<u32>)
        ensures
            final(subs)@ == old(subs)@.insert(crate::conn_loop::SUB_WORKSPACE).insert(
                crate::conn_loop::SUB_BINDING,
            ),
    {
        subs.insert(crate::conn_loop::SUB_WORKSPACE);
        subs.insert(crate::conn_loop::SUB_BINDING);
    }

    /// One dispatch step through the handler protocol, with the full
    /// per-event guarantee of `process_post` (the engine only sits out
    /// an ignore counter at the top of its range, rather than wrap it).
    fn handle_event(&mut self, e: &Event, ctx: &crate::traits::EventCtx) -> (r:
        crate::traits::EventResponse)
        ensures
            old(self).ignore_ctr <= usize::MAX - 2 ==> process_post(
                old(self),
                &*final(self),
                e,
                (match ctx.workspaces {
                    Option::Some(v) => Option::Some(v@),
                    Option::None => Option::None,
                }),
                ctx.now_ms,
                r.command,
                r.notification,
            ),
            old(self).ignore_ctr > usize::MAX - 2 ==> *final(self) == *old(self) && r.command
                is None && r.notification is None,
    {
        self.dispatch(e, ctx)
    }
}

impl Default for WSHistory {
    /// The stock configuration: per-output history bounded at 20
    /// entries, visible entries skipped, a 10-second idle timeout, and
    /// the twelve standard chords.
    fn default() -> (d: WSHistory)
        ensures
            d.wf(),
            d.hist.hist_sz == 20,
            d.hist.is_per_output(),
            forall|o: Seq<char>| #[trigger] d.hist.stack_of(o) is None,
            d.ignore_ctr == 0,
            d.skip_visible,
            d.activity_deadline == 0,
            d.activity_timeout == Option::Some(10000u64),
            d.cur_output@ == Seq::<char>::empty(),
            chord_is(d.binding_prev, seq!["Mod4"@], "o"@),
            chord_is(d.binding_move_prev, seq!["Mod4"@, "shift"@], "o"@),
            chord_is(d.binding_next, seq!["Mod4"@], "i"@),
            chord_is(d.binding_move_next, seq!["Mod4"@, "shift"@], "i"@),
            chord_is(d.binding_swap_prev, seq!["Mod4"@, "ctrl"@], "o"@),
            chord_is(d.binding_swap_next, seq!["Mod4"@, "ctrl"@], "i"@),
            chord_is(d.binding_reset, seq!["Mod4"@, "ctrl"@, "shift"@], "o"@),
            chord_is(d.binding_to_head, seq!["Mod4"@, "ctrl"@, "shift"@], "i"@),
            chord_is(d.binding_move_to_head, seq!["Mod4"@, "Mod1"@, "shift"@], "i"@),
            chord_is(d.binding_rem_and_prev, seq!["Mod4"@, "Mod1"@], "o"@),
            chord_is(d.binding_rem_and_next, seq!["Mod4"@, "Mod1"@], "i"@),
            chord_is(d.binding_show_stack, seq!["Mod4"@, "ctrl"@], "s"@),
    {
        WSHistory {
            hist: HistoryManager::new(default_hist_type(), default_hist_sz()),
            skip_visible: default_skip_visible(),
            ignore_ctr: 0,
            cur_output: String::new(),
            activity_deadline: 0,
            activity_timeout: Option::Some(10000),
            binding_prev: Option::Some(Self::chord(vec![String::from_str("Mod4")], "o")),
            binding_move_prev: Option::Some(
                Self::chord(vec![String::from_str("Mod4"), String::from_str("shift")], "o"),
            ),
            binding_next: Option::Some(Self::chord(vec![String::from_str("Mod4")], "i")),
            binding_move_next: Option::Some(
                Self::chord(vec![String::from_str("Mod4"), String::from_str("shift")], "i"),
            ),
            binding_swap_prev: Option::Some(
                Self::chord(vec![String::from_str("Mod4"), String::from_str("ctrl")], "o"),
            ),
            binding_swap_next: Option::Some(
                Self::chord(vec![String::from_str("Mod4"), String::from_str("ctrl")], "i"),
            ),
            binding_reset: Option::Some(
                Self::chord(
                    vec![
                        String::from_str("Mod4"),
                        String::from_str("ctrl"),
                        String::from_str("shift"),
                    ],
                    "o",
                ),
            ),
            binding_to_head: Option::Some(
                Self::chord(
                    vec![
                        String::from_str("Mod4"),
                        String::from_str("ctrl"),
                        String::from_str("shift"),
                    ],
                    "i",
                ),
            ),
            binding_move_to_head: Option::Some(
                Self::chord(
                    vec![
                        String::from_str("Mod4"),
                        String::from_str("Mod1"),
                        String::from_str("shift"),
                    ],
                    "i",
                ),
            ),
            binding_rem_and_prev: Option::Some(
                Self::chord(vec![String::from_str("Mod4"), String::from_str("Mod1")], "o"),
            ),
            binding_rem_and_next: Option::Some(
                Self::chord(vec![String::from_str("Mod4"), String::from_str("Mod1")], "i"),
            ),
            binding_show_stack: Option::Some(
                Self::chord(vec![String::from_str("Mod4"), String::from_str("ctrl")], "s"),
            ),
        }
    }
}

/// Law: once the idle timeout has passed with no cursor activity, any
/// navigation operation run at that instant computes from a stack whose
/// cursor rests at position 0, whatever output it works on.
pub proof fn lemma_idle_timeout_resets(e: &WSHistory, now: u64, o: Seq<char>)
    requires
        e.spec_triggered(now),
    ensures
        e.stack_mid(o, now) matches Option::Some(sp) ==> sp.1 == 0,
{
}

/// Law: with the skip policies off, moving the cursor to the previous
/// entry and then to the next returns it to its starting position, and
/// so to the starting workspace.
pub proof fn lemma_prev_next_roundtrip(
    st: Option<(Seq<i32>, int)>,
    cur: int,
    co: Seq<char>,
    wss: Option<Seq<WorkspaceInfo>>,
)
    requires
        st matches Option::Some(sp) && 0 <= cur < sp.0.len() - 1,
    ensures
        spec_nav_from(st, cur, WSDirection::PREV, false, false, co, wss) == Option::Some(cur + 1),
        spec_nav_from(st, cur + 1, WSDirection::NEXT, false, false, co, wss) == Option::Some(cur),
{
}

} // verus!
