use vstd::prelude::*;
use crate::config::{Config, Window};
use crate::emit::{
    attach_args, attach_argv, new_session_args, new_session_argv, new_window_args, new_window_argv,
    send_keys_args, send_keys_argv,
};

verus! {

/// The operations that build one window at position `index`: its creation,
/// then one send-keys per command, in declaration order.
pub open spec fn window_ops(session: Seq<char>, index: nat, w: Window) -> Seq<Seq<Seq<char>>> {
    seq![new_window_argv(session, index, w.name@)] + w.commands@.map_values(
        |c: String| send_keys_argv(session, index, c@),
    )
}

/// The operations that build the windows `ws`, window after window, each at
/// its position in `ws`.
pub open spec fn windows_ops(session: Seq<char>, ws: Seq<Window>) -> Seq<Seq<Seq<char>>>
    decreases ws.len(),
{
    if ws.len() == 0 {
        seq![]
    } else {
        windows_ops(session, ws.drop_last()) + window_ops(
            session,
            (ws.len() - 1) as nat,
            ws.last(),
        )
    }
}

/// Every operation that realises `c`, in the order in which they run:
/// create the session, build each window, attach.
pub open spec fn session_plan(c: Config) -> Seq<Seq<Seq<char>>> {
    seq![new_session_argv(c.name@)] + windows_ops(c.name@, c.windows@) + seq![
        attach_argv(c.name@),
    ]
}

/// How many commands the windows before position `k` carry together.
pub open spec fn commands_before(ws: Seq<Window>, k: int) -> nat
    decreases k,
{
    if k <= 0 {
        0
    } else {
        commands_before(ws, k - 1) + ws[k - 1].commands@.len()
    }
}

/// Where the creation of window `k` stands in the session plan.
pub open spec fn window_offset(ws: Seq<Window>, k: int) -> int {
    1 + k + commands_before(ws, k)
}

/// Builds the argv of every operation that realises `config`, in order.
pub fn command_plan(config: &Config) -> (r: Vec<Vec<String>>)
    requires
        config.valid(),
    ensures
        r.deep_view() == session_plan(*config),
{
    let session = &config.name;
    let ghost s = session@;
    let ghost ws = config.windows@;
    let mut plan: Vec<Vec<String>> = Vec::new();
    plan.push(new_session_args(session));
    assert(ws.subrange(0, 0) =~= Seq::<Window>::empty());
    assert(plan.deep_view() =~= seq![new_session_argv(s)] + windows_ops(s, ws.subrange(0, 0)));
    let mut i: usize = 0;
    while i < config.windows.len()
        invariant
            0 <= i <= ws.len(),
            ws == config.windows@,
            s == session@,
            session == &config.name,
            plan.deep_view() == seq![new_session_argv(s)] + windows_ops(s, ws.subrange(0, i as int)),
        decreases ws.len() - i,
    {
        let w = &config.windows[i];
        let ghost before = plan.deep_view();
        plan.push(new_window_args(session, i, &w.name));
        assert(plan.deep_view() =~= before.push(new_window_argv(s, i as nat, w.name@)));
        let mut j: usize = 0;
        while j < w.commands.len()
            invariant
                0 <= i < ws.len(),
                0 <= j <= w.commands@.len(),
                w == ws[i as int],
                s == session@,
                plan.deep_view() == before + seq![new_window_argv(s, i as nat, w.name@)]
                    + w.commands@.subrange(0, j as int).map_values(
                    |c: String| send_keys_argv(s, i as nat, c@),
                ),
            decreases w.commands@.len() - j,
        {
            let ghost mid = plan.deep_view();
            plan.push(send_keys_args(session, i, &w.commands[j]));
            assert(plan.deep_view() =~= mid.push(send_keys_argv(s, i as nat, w.commands@[j as int]@)));
            assert(w.commands@.subrange(0, j + 1).map_values(
                |c: String| send_keys_argv(s, i as nat, c@),
            ) =~= w.commands@.subrange(0, j as int).map_values(
                |c: String| send_keys_argv(s, i as nat, c@),
            ).push(send_keys_argv(s, i as nat, w.commands@[j as int]@)));
            j = j + 1;
        }
        assert(w.commands@.subrange(0, j as int) =~= w.commands@);
        let ghost next = ws.subrange(0, i + 1);
        assert(next.drop_last() =~= ws.subrange(0, i as int));
        assert(next.last() == w);
        assert(plan.deep_view() =~= seq![new_session_argv(s)] + windows_ops(s, next));
        i = i + 1;
    }
    assert(ws.subrange(0, i as int) =~= ws);
    let ghost built = plan.deep_view();
    plan.push(attach_args(session));
    assert(plan.deep_view() =~= built.push(attach_argv(s)));
    assert(plan.deep_view() =~= session_plan(*config));
    plan
}

proof fn lemma_commands_before_prefix(ws: Seq<Window>, k: int)
    requires
        ws.len() > 0,
        0 <= k <= ws.len() - 1,
    ensures
        commands_before(ws.drop_last(), k) == commands_before(ws, k),
    decreases k,
{
    if k > 0 {
        lemma_commands_before_prefix(ws, k - 1);
    }
}

proof fn lemma_windows_ops_layout(session: Seq<char>, ws: Seq<Window>)
    ensures
        windows_ops(session, ws).len() == ws.len() + commands_before(ws, ws.len() as int),
        forall|k: int|
            0 <= k < ws.len() ==> windows_ops(session, ws)[k + #[trigger] commands_before(ws, k)]
                == new_window_argv(session, k as nat, ws[k].name@),
        forall|k: int, j: int|
            0 <= k < ws.len() && 0 <= j < ws[k].commands@.len() ==> windows_ops(session, ws)[k
                + commands_before(ws, k) + 1 + j] == send_keys_argv(
                session,
                k as nat,
                #[trigger] ws[k].commands@[j]@,
            ),
    decreases ws.len(),
{
    if ws.len() > 0 {
        let p = ws.drop_last();
        let n = ws.len() - 1;
        lemma_windows_ops_layout(session, p);
        assert forall|k: int| 0 <= k <= n implies commands_before(p, k) == commands_before(
            ws,
            k,
        ) by {
            lemma_commands_before_prefix(ws, k);
        }
        let head = windows_ops(session, p);
        let tail = window_ops(session, n as nat, ws.last());
        assert(windows_ops(session, ws) == head + tail);
        assert(head.len() == n + commands_before(ws, n));
        assert forall|k: int|
            0 <= k < ws.len() implies windows_ops(session, ws)[k + #[trigger] commands_before(
                ws,
                k,
            )] == new_window_argv(session, k as nat, ws[k].name@) by {
            if k < n {
                assert(p[k] == ws[k]);
                assert(commands_before(p, k) == commands_before(ws, k));
                assert(head[k + commands_before(p, k)] == new_window_argv(
                    session,
                    k as nat,
                    p[k].name@,
                ));
                assert(k + commands_before(ws, k) < n + commands_before(ws, n)) by {
                    lemma_commands_before_grows(ws, k, n);
                }
            } else {
                assert(tail[0] == new_window_argv(session, n as nat, ws[n].name@));
            }
        }
        assert forall|k: int, j: int|
            0 <= k < ws.len() && 0 <= j < ws[k].commands@.len() implies windows_ops(session, ws)[k
                + commands_before(ws, k) + 1 + j] == send_keys_argv(
                session,
                k as nat,
                #[trigger] ws[k].commands@[j]@,
            ) by {
            if k < n {
                assert(p[k] == ws[k]);
                assert(commands_before(p, k) == commands_before(ws, k));
                assert(k + commands_before(ws, k) + 1 + j < n + commands_before(ws, n)) by {
                    lemma_commands_before_grows(ws, k, n);
                }
                assert(head[k + commands_before(p, k) + 1 + j] == send_keys_argv(
                    session,
                    k as nat,
                    p[k].commands@[j]@,
                ));
            }
        }
    }
}

proof fn lemma_commands_before_grows(ws: Seq<Window>, k: int, n: int)
    requires
        0 <= k < n <= ws.len(),
    ensures
        commands_before(ws, k) + ws[k].commands@.len() <= commands_before(ws, n),
    decreases n - k,
{
    if k + 1 < n {
        lemma_commands_before_grows(ws, k, n - 1);
    }
}

/// The plan of a layout with N windows, window k carrying M(k) commands,
/// holds 2 + N + (M(0) + ... + M(N-1)) operations: first the creation of the
/// session; then, for each window in order, its creation at its own 0-based
/// index followed by one send-keys per command in declaration order; last the
/// attach.
pub proof fn lemma_plan_layout(c: Config)
    ensures
        ({
            let plan = session_plan(c);
            let s = c.name@;
            let ws = c.windows@;
            &&& plan.len() == 2 + ws.len() + commands_before(ws, ws.len() as int)
            &&& plan[0] == new_session_argv(s)
            &&& plan[plan.len() - 1] == attach_argv(s)
            &&& forall|k: int|
                0 <= k < ws.len() ==> plan[#[trigger] window_offset(ws, k)] == new_window_argv(
                    s,
                    k as nat,
                    ws[k].name@,
                )
            &&& forall|k: int, j: int|
                0 <= k < ws.len() && 0 <= j < ws[k].commands@.len() ==> plan[window_offset(ws, k)
                    + 1 + j] == send_keys_argv(s, k as nat, #[trigger] ws[k].commands@[j]@)
        }),
{
    let s = c.name@;
    let ws = c.windows@;
    let plan = session_plan(c);
    lemma_windows_ops_layout(s, ws);
    let mid = windows_ops(s, ws);
    assert forall|k: int| 0 <= k < ws.len() implies plan[#[trigger] window_offset(ws, k)]
        == new_window_argv(s, k as nat, ws[k].name@) by {
        assert(mid[k + commands_before(ws, k)] == new_window_argv(s, k as nat, ws[k].name@));
        assert(k + commands_before(ws, k) < mid.len()) by {
            lemma_commands_before_grows(ws, k, ws.len() as int);
        }
    }
    assert forall|k: int, j: int|
        0 <= k < ws.len() && 0 <= j < ws[k].commands@.len() implies plan[window_offset(ws, k) + 1
            + j] == send_keys_argv(s, k as nat, #[trigger] ws[k].commands@[j]@) by {
        assert(mid[k + commands_before(ws, k) + 1 + j] == send_keys_argv(
            s,
            k as nat,
            ws[k].commands@[j]@,
        ));
        assert(k + commands_before(ws, k) + ws[k].commands@.len() < mid.len()) by {
            lemma_commands_before_grows(ws, k, ws.len() as int);
        }
    }
}

/// A layout without windows is realised by creating the session and
/// attaching to it, with nothing in between.
pub proof fn lemma_plan_without_windows(c: Config)
    requires
        c.windows@.len() == 0,
    ensures
        session_plan(c) == seq![new_session_argv(c.name@), attach_argv(c.name@)],
{
    assert(session_plan(c) =~= seq![new_session_argv(c.name@), attach_argv(c.name@)]);
}

/// Whether an argv names the operation `token` as its first word.
pub open spec fn starts_with_token(token: Seq<char>) -> spec_fn(Seq<Seq<char>>) -> bool {
    |o: Seq<Seq<char>>| o.len() > 0 && o[0] == token
}

/// The create-window operations of `ws`, one per window, at indices
/// 0, 1, ... in order.
pub open spec fn new_window_ops(session: Seq<char>, ws: Seq<Window>) -> Seq<Seq<Seq<char>>> {
    Seq::new(ws.len(), |i: int| new_window_argv(session, i as nat, ws[i].name@))
}

/// The send-keys operations of `ws`: window after window, each window's
/// commands in declaration order, each aimed at that window's initial pane.
pub open spec fn send_keys_ops(session: Seq<char>, ws: Seq<Window>) -> Seq<Seq<Seq<char>>>
    decreases ws.len(),
{
    if ws.len() == 0 {
        seq![]
    } else {
        send_keys_ops(session, ws.drop_last()) + ws.last().commands@.map_values(
            |c: String| send_keys_argv(session, (ws.len() - 1) as nat, c@),
        )
    }
}

proof fn lemma_filter_keeps_all(xs: Seq<Seq<Seq<char>>>, pred: spec_fn(Seq<Seq<char>>) -> bool)
    requires
        forall|i: int| 0 <= i < xs.len() ==> pred(#[trigger] xs[i]),
    ensures
        xs.filter(pred) == xs,
    decreases xs.len(),
{
    reveal(Seq::filter);
    if xs.len() > 0 {
        lemma_filter_keeps_all(xs.drop_last(), pred);
        assert(xs.drop_last().push(xs.last()) =~= xs);
    }
}

proof fn lemma_filter_keeps_none(xs: Seq<Seq<Seq<char>>>, pred: spec_fn(Seq<Seq<char>>) -> bool)
    requires
        forall|i: int| 0 <= i < xs.len() ==> !pred(#[trigger] xs[i]),
    ensures
        xs.filter(pred) == Seq::<Seq<Seq<char>>>::empty(),
{
    xs.lemma_all_neg_filter_empty(pred);
    assert(xs.filter(pred) =~= Seq::<Seq<Seq<char>>>::empty());
}

proof fn lemma_windows_ops_by_operation(session: Seq<char>, ws: Seq<Window>)
    ensures
        windows_ops(session, ws).filter(starts_with_token("new-window"@)) == new_window_ops(
            session,
            ws,
        ),
        windows_ops(session, ws).filter(starts_with_token("send-keys"@)) == send_keys_ops(
            session,
            ws,
        ),
    decreases ws.len(),
{
    reveal_strlit("new-window");
    reveal_strlit("send-keys");
    assert("new-window"@.len() != "send-keys"@.len());
    let nw = starts_with_token("new-window"@);
    let sk = starts_with_token("send-keys"@);
    if ws.len() == 0 {
        reveal(Seq::filter);
        assert(new_window_ops(session, ws) =~= Seq::<Seq<Seq<char>>>::empty());
    } else {
        let p = ws.drop_last();
        let n = (ws.len() - 1) as nat;
        lemma_windows_ops_by_operation(session, p);
        let head = seq![new_window_argv(session, n, ws.last().name@)];
        let cmds = ws.last().commands@.map_values(|c: String| send_keys_argv(session, n, c@));
        assert(window_ops(session, n, ws.last()) == head + cmds);
        Seq::filter_distributes_over_add(windows_ops(session, p), head + cmds, nw);
        Seq::filter_distributes_over_add(windows_ops(session, p), head + cmds, sk);
        Seq::filter_distributes_over_add(head, cmds, nw);
        Seq::filter_distributes_over_add(head, cmds, sk);
        assert(nw(head[0]));
        assert(!sk(head[0]));
        lemma_filter_keeps_all(head, nw);
        lemma_filter_keeps_none(head, sk);
        assert forall|i: int| 0 <= i < cmds.len() implies sk(#[trigger] cmds[i]) && !nw(cmds[i]) by {
            assert(cmds[i][0] == "send-keys"@);
        }
        lemma_filter_keeps_all(cmds, sk);
        lemma_filter_keeps_none(cmds, nw);
        assert(new_window_ops(session, ws) =~= new_window_ops(session, p) + head);
    }
}

/// Picking out the operations of one kind from the plan of a layout with N
/// windows: the create-window operations are exactly one per window, in
/// order, window k at index k and under its own name; the send-keys
/// operations are exactly the windows' commands, grouped by window in window
/// order and in declaration order within a window, each aimed at its window's
/// index.
pub proof fn lemma_plan_by_operation(c: Config)
    ensures
        session_plan(c).filter(starts_with_token("new-window"@)) == new_window_ops(
            c.name@,
            c.windows@,
        ),
        session_plan(c).filter(starts_with_token("send-keys"@)) == send_keys_ops(
            c.name@,
            c.windows@,
        ),
{
    reveal_strlit("new-window");
    reveal_strlit("send-keys");
    reveal_strlit("new-session");
    reveal_strlit("-u");
    assert("new-window"@.len() == 10 && "send-keys"@.len() == 9);
    assert("new-session"@.len() == 11 && "-u"@.len() == 2);
    let s = c.name@;
    let first = seq![new_session_argv(s)];
    let mid = windows_ops(s, c.windows@);
    let last = seq![attach_argv(s)];
    lemma_windows_ops_by_operation(s, c.windows@);
    let nw = starts_with_token("new-window"@);
    let sk = starts_with_token("send-keys"@);
    assert(session_plan(c) == first + mid + last);
    Seq::filter_distributes_over_add(first + mid, last, nw);
    Seq::filter_distributes_over_add(first + mid, last, sk);
    Seq::filter_distributes_over_add(first, mid, nw);
    Seq::filter_distributes_over_add(first, mid, sk);
    assert(!nw(first[0]) && !sk(first[0]));
    assert(!nw(last[0]) && !sk(last[0]));
    lemma_filter_keeps_none(first, nw);
    lemma_filter_keeps_none(first, sk);
    lemma_filter_keeps_none(last, nw);
    lemma_filter_keeps_none(last, sk);
    assert(first.filter(nw) + mid.filter(nw) + last.filter(nw) =~= mid.filter(nw));
    assert(first.filter(sk) + mid.filter(sk) + last.filter(sk) =~= mid.filter(sk));
}

/// `a` and `b` hold windows with the same commands, position by position, and
/// the same names everywhere but at position `j`.
pub open spec fn same_but_name_at(a: Seq<Window>, b: Seq<Window>, j: int) -> bool {
    &&& a.len() == b.len()
    &&& forall|k: int| 0 <= k < a.len() ==> #[trigger] a[k].commands@ == b[k].commands@
    &&& forall|k: int| 0 <= k < a.len() && k != j ==> #[trigger] a[k].name@ == b[k].name@
}

proof fn lemma_commands_before_same(a: Seq<Window>, b: Seq<Window>, j: int, k: int)
    requires
        same_but_name_at(a, b, j),
        0 <= k <= a.len(),
    ensures
        commands_before(a, k) == commands_before(b, k),
    decreases k,
{
    if k > 0 {
        lemma_commands_before_same(a, b, j, k - 1);
        assert(a[k - 1].commands@ == b[k - 1].commands@);
    }
}

proof fn lemma_window_ops_same_commands(session: Seq<char>, n: nat, a: Window, b: Window)
    requires
        a.commands@ == b.commands@,
    ensures
        window_ops(session, n, a) == window_ops(session, n, b).update(
            0,
            new_window_argv(session, n, a.name@),
        ),
{
    assert(window_ops(session, n, a) =~= window_ops(session, n, b).update(
        0,
        new_window_argv(session, n, a.name@),
    ));
}

proof fn lemma_windows_ops_rename(session: Seq<char>, a: Seq<Window>, b: Seq<Window>, j: int)
    requires
        same_but_name_at(a, b, j),
        0 <= j < a.len(),
    ensures
        windows_ops(session, a) == windows_ops(session, b).update(
            j + commands_before(b, j),
            new_window_argv(session, j as nat, a[j].name@),
        ),
    decreases a.len(),
{
    let n = a.len() - 1;
    let pa = a.drop_last();
    let pb = b.drop_last();
    lemma_window_ops_same_commands(session, n as nat, a.last(), b.last());
    let ta = window_ops(session, n as nat, a.last());
    let tb = window_ops(session, n as nat, b.last());
    lemma_windows_ops_layout(session, pb);
    lemma_windows_ops_layout(session, pa);
    lemma_commands_before_same(a, b, j, n);
    lemma_commands_before_same(pa, pb, j, n);
    lemma_commands_before_prefix(b, n);
    lemma_commands_before_prefix(a, n);
    if j == n {
        assert(windows_ops(session, pa) == windows_ops(session, pb)) by {
            lemma_windows_ops_equal(session, pa, pb);
        }
        assert(windows_ops(session, a) =~= windows_ops(session, b).update(
            j + commands_before(b, j),
            new_window_argv(session, j as nat, a[j].name@),
        ));
    } else {
        lemma_windows_ops_rename(session, pa, pb, j);
        assert(a.last().name@ == b.last().name@);
        assert(ta =~= tb);
        lemma_commands_before_prefix(b, j);
        assert(j + commands_before(b, j) < windows_ops(session, pb).len()) by {
            lemma_commands_before_grows(pb, j, n);
        }
        assert(windows_ops(session, a) =~= windows_ops(session, b).update(
            j + commands_before(b, j),
            new_window_argv(session, j as nat, a[j].name@),
        ));
    }
}

proof fn lemma_windows_ops_equal(session: Seq<char>, a: Seq<Window>, b: Seq<Window>)
    requires
        same_but_name_at(a, b, a.len() as int),
    ensures
        windows_ops(session, a) == windows_ops(session, b),
    decreases a.len(),
{
    if a.len() > 0 {
        let n = a.len() - 1;
        lemma_windows_ops_equal(session, a.drop_last(), b.drop_last());
        lemma_window_ops_same_commands(session, n as nat, a.last(), b.last());
        assert(window_ops(session, n as nat, a.last()) =~= window_ops(session, n as nat, b.last()));
    }
}

/// Renaming window `j`, and nothing else, changes one token of the plan: the
/// name given to window `j` on its creation. Every target, every other
/// operation and the plan's length stay as they were.
pub proof fn lemma_rename_changes_only_name(c1: Config, c2: Config, j: int)
    requires
        c1.name@ == c2.name@,
        same_but_name_at(c1.windows@, c2.windows@, j),
        0 <= j < c1.windows@.len(),
    ensures
        ({
            let at = window_offset(c2.windows@, j);
            &&& window_offset(c1.windows@, j) == at
            &&& session_plan(c1) == session_plan(c2).update(
                at,
                session_plan(c2)[at].update(4, c1.windows@[j].name@),
            )
        }),
{
    let s = c1.name@;
    let a = c1.windows@;
    let b = c2.windows@;
    lemma_windows_ops_rename(s, a, b, j);
    lemma_commands_before_same(a, b, j, j);
    lemma_windows_ops_layout(s, b);
    lemma_plan_layout(c2);
    assert(j + commands_before(b, j) < windows_ops(s, b).len()) by {
        lemma_commands_before_grows(b, j, b.len() as int);
    }
    let at = window_offset(b, j);
    assert(session_plan(c2)[at].update(4, a[j].name@) =~= new_window_argv(s, j as nat, a[j].name@));
    assert(session_plan(c1) =~= session_plan(c2).update(
        at,
        session_plan(c2)[at].update(4, a[j].name@),
    ));
}

} // verus!
