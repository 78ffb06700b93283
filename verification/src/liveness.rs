//! The liveness sweep: tracked agents whose process has exited are marked
//! stale, once.

use vstd::prelude::*;

use crate::clock::now_ms;
use crate::proto::{AgentInfo, AgentStatus, Duplicate};
use crate::registry::{mark_stale_effect, session_index, sessions_unique, staled, Registry};

verus! {

/// The agents of `agents` after a sweep at `now`, where `dead[k]` says the
/// check found agent `k`'s process gone: each non-stale agent found dead is
/// marked stale, every other agent is kept as it was.
pub open spec fn swept(agents: Seq<AgentInfo>, dead: Seq<bool>, now: u64) -> Seq<AgentInfo> {
    Seq::new(
        agents.len(),
        |k: int|
            if agents[k].status != AgentStatus::Stale && dead[k] {
                staled(agents[k], now)
            } else {
                agents[k]
            },
    )
}

/// The agents the sweep newly marks stale among the first `dead.len()` of
/// `agents`, in order, as they are after the sweep.
pub open spec fn newly_stale(agents: Seq<AgentInfo>, dead: Seq<bool>, now: u64) -> Seq<AgentInfo>
    decreases dead.len(),
{
    if dead.len() == 0 {
        Seq::empty()
    } else {
        let n = dead.len() - 1;
        let prev = newly_stale(agents, dead.drop_last(), now);
        if agents[n].status != AgentStatus::Stale && dead[n] {
            prev.push(staled(agents[n], now))
        } else {
            prev
        }
    }
}

/// The sweep's outcome: `dead` holds what the liveness check answered for
/// each agent that was not stale yet (a process found gone is `true`), and
/// the registry and the result follow from it.
pub open spec fn sweep_effect<F: Fn(u32) -> bool>(
    before: Registry,
    after: Registry,
    is_alive: F,
    now: u64,
    result: Seq<AgentInfo>,
) -> bool {
    let agents = before.agents();
    exists|dead: Seq<bool>|
        {
            &&& dead.len() == agents.len()
            &&& forall|k: int|
                0 <= k < agents.len() && agents[k].status != AgentStatus::Stale ==> call_ensures(
                    is_alive,
                    (agents[k].pid,),
                    !(#[trigger] dead[k]),
                )
            &&& after.agents() == swept(agents, dead, now)
            &&& after.test_runs() == before.test_runs()
            &&& after.retired() == before.retired()
            &&& result == newly_stale(agents, dead, now)
        }
}

/// Marks every tracked, non-stale agent whose process `is_alive` reports
/// gone as stale, as of time `now`, and returns the agents newly marked, for
/// the caller to broadcast. An agent already stale is not checked again.
pub fn sweep_once_at<F: Fn(u32) -> bool>(registry: &mut Registry, is_alive: &F, now: u64) -> (r:
    Vec<AgentInfo>)
    requires
        old(registry).wf(),
        forall|pid: u32| is_alive.requires((pid,)),
    ensures
        final(registry).wf(),
        sweep_effect(*old(registry), *final(registry), *is_alive, now, r@),
{
    let agents = registry.snapshot();
    let ghost agents0 = agents@;
    let ghost before = *registry;
    let ghost mut dead: Seq<bool> = Seq::empty();
    let mut result: Vec<AgentInfo> = Vec::new();
    let mut k: usize = 0;
    assert(swept(agents0.take(0), dead, now) + agents0.skip(0) =~= agents0);
    while k < agents.len()
        invariant
            agents@ == agents0,
            agents0 == before.agents(),
            k <= agents0.len(),
            dead.len() == k,
            registry.wf(),
            forall|pid: u32| is_alive.requires((pid,)),
            forall|j: int|
                0 <= j < k && agents0[j].status != AgentStatus::Stale ==> call_ensures(
                    *is_alive,
                    (agents0[j].pid,),
                    !(#[trigger] dead[j]),
                ),
            registry.agents() == swept(agents0.take(k as int), dead, now) + agents0.skip(k as int),
            registry.test_runs() == before.test_runs(),
            registry.retired() == before.retired(),
            result@ == newly_stale(agents0, dead, now),
        decreases agents0.len() - k,
    {
        let agent = &agents[k];
        let ghost current = registry.agents();
        assert(current[k as int] == agents0[k as int]);
        if agent.status != AgentStatus::Stale && !is_alive(agent.pid) {
            let ghost mid = *registry;
            let marked = registry.mark_stale_at(&agent.session_id, now);
            proof {
                reveal(mark_stale_effect);
                let id = agent.session_id.0@;
                assert(current[k as int].session_id.0@ == id);
                let si = session_index(current, id);
                assert(si == k as int);
                assert(dead.push(true).drop_last() =~= dead);
                dead = dead.push(true);
            }
            match marked {
                Some(a) => result.push(a),
                None => {},
            }
        } else {
            proof {
                assert(dead.push(false).drop_last() =~= dead);
                dead = dead.push(false);
            }
        }
        assert(registry.agents() =~= swept(agents0.take(k + 1), dead, now) + agents0.skip(k + 1));
        k = k + 1;
    }
    assert(agents0.take(agents0.len() as int) =~= agents0);
    assert(registry.agents() =~= swept(agents0, dead, now));
    result
}

/// `sweep_once_at` as of the current wall-clock time.
pub fn sweep_once<F: Fn(u32) -> bool>(registry: &mut Registry, is_alive: &F) -> (r: Vec<AgentInfo>)
    requires
        old(registry).wf(),
        forall|pid: u32| is_alive.requires((pid,)),
    ensures
        final(registry).wf(),
        exists|now: u64| sweep_effect(*old(registry), *final(registry), *is_alive, now, r@),
{
    let now = now_ms();
    sweep_once_at(registry, is_alive, now)
}

/// Every agent a sweep reports is one it marked stale: some agent that was
/// not stale and whose process the check found gone, as marked.
proof fn lemma_newly_stale_members(agents: Seq<AgentInfo>, dead: Seq<bool>, now: u64)
    requires
        dead.len() <= agents.len(),
    ensures
        forall|m: int|
            0 <= m < newly_stale(agents, dead, now).len() ==> exists|k: int|
                0 <= k < dead.len() && agents[k].status != AgentStatus::Stale && dead[k]
                    && #[trigger] newly_stale(agents, dead, now)[m] == staled(agents[k], now),
    decreases dead.len(),
{
    if dead.len() > 0 {
        let prev = dead.drop_last();
        lemma_newly_stale_members(agents, prev, now);
        let out = newly_stale(agents, dead, now);
        assert forall|m: int| 0 <= m < out.len() implies exists|k: int|
            0 <= k < dead.len() && agents[k].status != AgentStatus::Stale && dead[k]
                && #[trigger] out[m] == staled(agents[k], now) by {
            let n = dead.len() - 1;
            if m < newly_stale(agents, prev, now).len() {
                let k = choose|k: int|
                    0 <= k < prev.len() && agents[k].status != AgentStatus::Stale && prev[k]
                        && #[trigger] newly_stale(agents, prev, now)[m] == staled(agents[k], now);
                assert(dead[k] == prev[k]);
            } else {
                assert(out[m] == staled(agents[n], now));
            }
        }
    }
}

/// A sweep does not repeat itself: no agent reported by one sweep is
/// reported again by the next, because it is stale by then and stale agents
/// are not checked again.
pub proof fn lemma_sweep_does_not_repeat<F: Fn(u32) -> bool, G: Fn(u32) -> bool>(
    before: Registry,
    mid: Registry,
    after: Registry,
    first_check: F,
    second_check: G,
    t1: u64,
    t2: u64,
    first: Seq<AgentInfo>,
    second: Seq<AgentInfo>,
)
    requires
        before.wf(),
        sweep_effect(before, mid, first_check, t1, first),
        sweep_effect(mid, after, second_check, t2, second),
    ensures
        forall|i: int, j: int|
            0 <= i < first.len() && 0 <= j < second.len() ==> #[trigger] first[i].session_id.0@
                != #[trigger] second[j].session_id.0@,
{
    let a0 = before.agents();
    let d1 = choose|dead: Seq<bool>|
        {
            &&& dead.len() == a0.len()
            &&& forall|k: int|
                0 <= k < a0.len() && a0[k].status != AgentStatus::Stale ==> call_ensures(
                    first_check,
                    (a0[k].pid,),
                    !(#[trigger] dead[k]),
                )
            &&& mid.agents() == swept(a0, dead, t1)
            &&& mid.test_runs() == before.test_runs()
            &&& mid.retired() == before.retired()
            &&& first == newly_stale(a0, dead, t1)
        };
    let a1 = mid.agents();
    let d2 = choose|dead: Seq<bool>|
        {
            &&& dead.len() == a1.len()
            &&& forall|k: int|
                0 <= k < a1.len() && a1[k].status != AgentStatus::Stale ==> call_ensures(
                    second_check,
                    (a1[k].pid,),
                    !(#[trigger] dead[k]),
                )
            &&& after.agents() == swept(a1, dead, t2)
            &&& after.test_runs() == mid.test_runs()
            &&& after.retired() == mid.retired()
            &&& second == newly_stale(a1, dead, t2)
        };
    lemma_newly_stale_members(a0, d1, t1);
    lemma_newly_stale_members(a1, d2, t2);
    assert forall|i: int, j: int|
        0 <= i < first.len() && 0 <= j < second.len() implies #[trigger] first[i].session_id.0@
        != #[trigger] second[j].session_id.0@ by {
        let k1 = choose|k: int|
            0 <= k < d1.len() && a0[k].status != AgentStatus::Stale && d1[k]
                && #[trigger] newly_stale(a0, d1, t1)[i] == staled(a0[k], t1);
        let k2 = choose|k: int|
            0 <= k < d2.len() && a1[k].status != AgentStatus::Stale && d2[k]
                && #[trigger] newly_stale(a1, d2, t2)[j] == staled(a1[k], t2);
        assert(a1[k1].status == AgentStatus::Stale);
        assert(a1[k2].session_id == a0[k2].session_id);
        if k1 != k2 {
            assert(a0[k1].session_id.0@ != a0[k2].session_id.0@);
        }
    }
}

/// A sweep in which no agent that was not stale is found gone reports
/// nothing.
proof fn lemma_newly_stale_empty(agents: Seq<AgentInfo>, dead: Seq<bool>, now: u64)
    requires
        dead.len() <= agents.len(),
        forall|k: int|
            0 <= k < dead.len() && agents[k].status != AgentStatus::Stale ==> !#[trigger] dead[k],
    ensures
        newly_stale(agents, dead, now) == Seq::<AgentInfo>::empty(),
    decreases dead.len(),
{
    if dead.len() > 0 {
        let prev = dead.drop_last();
        assert forall|k: int|
            0 <= k < prev.len() && agents[k].status != AgentStatus::Stale implies !#[trigger] prev[k] by {
            assert(prev[k] == dead[k]);
        }
        lemma_newly_stale_empty(agents, prev, now);
    }
}

/// Whether `check` answers like `alive` for every process id: it always
/// reports `alive(pid)` for `pid`.
pub open spec fn answers_like<F: Fn(u32) -> bool>(check: F, alive: spec_fn(u32) -> bool) -> bool {
    forall|pid: u32, r: bool| call_ensures(check, (pid,), r) ==> r == alive(pid)
}

/// A second sweep with the same liveness answers reports nothing and
/// changes nothing: after the first, every agent that is not stale has a
/// live process.
pub proof fn lemma_second_sweep_is_quiet<F: Fn(u32) -> bool, G: Fn(u32) -> bool>(
    before: Registry,
    mid: Registry,
    after: Registry,
    first_check: F,
    second_check: G,
    alive: spec_fn(u32) -> bool,
    t1: u64,
    t2: u64,
    first: Seq<AgentInfo>,
    second: Seq<AgentInfo>,
)
    requires
        sweep_effect(before, mid, first_check, t1, first),
        sweep_effect(mid, after, second_check, t2, second),
        answers_like(first_check, alive),
        answers_like(second_check, alive),
    ensures
        second == Seq::<AgentInfo>::empty(),
        after.agents() == mid.agents(),
        after.test_runs() == mid.test_runs(),
        after.retired() == mid.retired(),
{
    let a0 = before.agents();
    let d1 = choose|dead: Seq<bool>|
        {
            &&& dead.len() == a0.len()
            &&& forall|k: int|
                0 <= k < a0.len() && a0[k].status != AgentStatus::Stale ==> call_ensures(
                    first_check,
                    (a0[k].pid,),
                    !(#[trigger] dead[k]),
                )
            &&& mid.agents() == swept(a0, dead, t1)
            &&& mid.test_runs() == before.test_runs()
            &&& mid.retired() == before.retired()
            &&& first == newly_stale(a0, dead, t1)
        };
    let a1 = mid.agents();
    let d2 = choose|dead: Seq<bool>|
        {
            &&& dead.len() == a1.len()
            &&& forall|k: int|
                0 <= k < a1.len() && a1[k].status != AgentStatus::Stale ==> call_ensures(
                    second_check,
                    (a1[k].pid,),
                    !(#[trigger] dead[k]),
                )
            &&& after.agents() == swept(a1, dead, t2)
            &&& after.test_runs() == mid.test_runs()
            &&& after.retired() == mid.retired()
            &&& second == newly_stale(a1, dead, t2)
        };
    assert forall|k: int| 0 <= k < d2.len() && a1[k].status != AgentStatus::Stale implies !#[trigger] d2[k] by {
        assert(a1[k] == (if a0[k].status != AgentStatus::Stale && d1[k] {
            staled(a0[k], t1)
        } else {
            a0[k]
        }));
        assert(a0[k].status != AgentStatus::Stale && !d1[k]);
        assert(call_ensures(first_check, (a0[k].pid,), !d1[k]));
        assert(alive(a0[k].pid));
        assert(call_ensures(second_check, (a1[k].pid,), !d2[k]));
    }
    lemma_newly_stale_empty(a1, d2, t2);
    assert(swept(a1, d2, t2) =~= a1);
}

/// Every agent found gone that was not stale yet is among those a sweep
/// reports.
proof fn lemma_newly_stale_covers(agents: Seq<AgentInfo>, dead: Seq<bool>, now: u64)
    requires
        dead.len() <= agents.len(),
    ensures
        forall|k: int|
            0 <= k < dead.len() && agents[k].status != AgentStatus::Stale && #[trigger] dead[k]
                ==> newly_stale(agents, dead, now).contains(staled(agents[k], now)),
    decreases dead.len(),
{
    if dead.len() > 0 {
        let n = dead.len() - 1;
        let prev = dead.drop_last();
        lemma_newly_stale_covers(agents, prev, now);
        let out = newly_stale(agents, dead, now);
        let before = newly_stale(agents, prev, now);
        assert forall|k: int|
            0 <= k < dead.len() && agents[k].status != AgentStatus::Stale && #[trigger] dead[k]
                implies out.contains(staled(agents[k], now)) by {
            if k == n {
                assert(out[out.len() - 1] == staled(agents[k], now));
            } else {
                assert(prev[k] == dead[k]);
                assert(before.contains(staled(agents[k], now)));
                let m = choose|m: int| 0 <= m < before.len() && before[m] == staled(agents[k], now);
                if agents[n].status != AgentStatus::Stale && dead[n] {
                    assert(out[m] == before[m]);
                }
            }
        }
    }
}

/// A sweep reports each session at most once.
proof fn lemma_newly_stale_unique(agents: Seq<AgentInfo>, dead: Seq<bool>, now: u64)
    requires
        dead.len() <= agents.len(),
        sessions_unique(agents),
    ensures
        sessions_unique(newly_stale(agents, dead, now)),
    decreases dead.len(),
{
    if dead.len() > 0 {
        let n = dead.len() - 1;
        let prev = dead.drop_last();
        lemma_newly_stale_unique(agents, prev, now);
        lemma_newly_stale_members(agents, prev, now);
        let before = newly_stale(agents, prev, now);
        let out = newly_stale(agents, dead, now);
        if agents[n].status != AgentStatus::Stale && dead[n] {
            assert forall|i: int, j: int|
                #![trigger out[i], out[j]]
                0 <= i < out.len() && 0 <= j < out.len() && i != j implies out[i].session_id.0@
                != out[j].session_id.0@ by {
                if i < before.len() && j < before.len() {
                    assert(out[i] == before[i] && out[j] == before[j]);
                } else {
                    let m = if i < before.len() { i } else { j };
                    assert(out[m] == before[m]);
                    let k = choose|k: int|
                        0 <= k < prev.len() && agents[k].status != AgentStatus::Stale && prev[k]
                            && #[trigger] newly_stale(agents, prev, now)[m] == staled(agents[k], now);
                    assert(agents[k].session_id.0@ != agents[n].session_id.0@);
                }
            }
        }
    }
}

/// A sweep, with a liveness check that answers like `alive`, marks stale
/// exactly the agents that were not stale and whose process is not alive,
/// leaves every other agent as it was, and reports exactly the agents it
/// marked, each once and as they now stand in the registry.
pub proof fn lemma_sweep_marks_exactly_the_gone<F: Fn(u32) -> bool>(
    before: Registry,
    after: Registry,
    check: F,
    alive: spec_fn(u32) -> bool,
    now: u64,
    reported: Seq<AgentInfo>,
)
    requires
        before.wf(),
        sweep_effect(before, after, check, now, reported),
        answers_like(check, alive),
    ensures
        after.agents().len() == before.agents().len(),
        forall|k: int|
            0 <= k < before.agents().len() ==> #[trigger] after.agents()[k] == if before.agents()[k].status
                != AgentStatus::Stale && !alive(before.agents()[k].pid) {
                staled(before.agents()[k], now)
            } else {
                before.agents()[k]
            },
        forall|m: int|
            0 <= m < reported.len() ==> exists|k: int|
                0 <= k < before.agents().len() && before.agents()[k].status != AgentStatus::Stale
                    && !alive(before.agents()[k].pid) && #[trigger] reported[m]
                    == after.agents()[k],
        forall|k: int|
            0 <= k < before.agents().len() && before.agents()[k].status != AgentStatus::Stale
                && !alive(before.agents()[k].pid) ==> reported.contains(#[trigger] after.agents()[k]),
        sessions_unique(reported),
        after.test_runs() == before.test_runs(),
        after.retired() == before.retired(),
{
    let a0 = before.agents();
    let d = choose|dead: Seq<bool>|
        {
            &&& dead.len() == a0.len()
            &&& forall|k: int|
                0 <= k < a0.len() && a0[k].status != AgentStatus::Stale ==> call_ensures(
                    check,
                    (a0[k].pid,),
                    !(#[trigger] dead[k]),
                )
            &&& after.agents() == swept(a0, dead, now)
            &&& after.test_runs() == before.test_runs()
            &&& after.retired() == before.retired()
            &&& reported == newly_stale(a0, dead, now)
        };
    assert forall|k: int| 0 <= k < a0.len() && a0[k].status != AgentStatus::Stale implies #[trigger] d[k]
        == !alive(a0[k].pid) by {
        assert(call_ensures(check, (a0[k].pid,), !d[k]));
    }
    lemma_newly_stale_members(a0, d, now);
    lemma_newly_stale_covers(a0, d, now);
    lemma_newly_stale_unique(a0, d, now);
    assert forall|k: int| 0 <= k < a0.len() implies #[trigger] after.agents()[k] == if a0[k].status
        != AgentStatus::Stale && !alive(a0[k].pid) {
        staled(a0[k], now)
    } else {
        a0[k]
    } by {
        if a0[k].status != AgentStatus::Stale {
            assert(d[k] == !alive(a0[k].pid));
        }
    }
    assert forall|m: int| 0 <= m < reported.len() implies exists|k: int|
        0 <= k < a0.len() && a0[k].status != AgentStatus::Stale && !alive(a0[k].pid)
            && #[trigger] reported[m] == after.agents()[k] by {
        let k = choose|k: int|
            0 <= k < d.len() && a0[k].status != AgentStatus::Stale && d[k]
                && #[trigger] newly_stale(a0, d, now)[m] == staled(a0[k], now);
        assert(d[k] == !alive(a0[k].pid));
        assert(after.agents()[k] == staled(a0[k], now));
    }
    assert forall|k: int|
        0 <= k < a0.len() && a0[k].status != AgentStatus::Stale && !alive(a0[k].pid) implies reported.contains(
        #[trigger] after.agents()[k],
    ) by {
        assert(d[k] == !alive(a0[k].pid));
        assert(after.agents()[k] == staled(a0[k], now));
    }
}

} // verus!
