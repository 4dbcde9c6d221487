//! Data-provider subscriptions of widgets.
//!
//! Each subscription is keyed by (widget id, provider kind, config hash) and
//! owns one update-producing task, named by a task id that is never reused.
//! The host runs the tasks; an update reaches a widget only while the
//! subscription that started its task is still registered.

use vstd::prelude::*;

verus! {

/// The kinds of data feed a widget can subscribe to.
#[derive(Clone, Copy, Debug, PartialEq, Eq, Structural)]
pub enum ProviderKind {
    Audio,
    Battery,
    Cpu,
    Date,
    Disk,
    Host,
    Ip,
    Keyboard,
    Media,
    Memory,
    Network,
    Weather,
}

/// One live subscription and the task that feeds it.
#[derive(Clone, Copy, Debug, PartialEq, Eq, Structural)]
pub struct Subscription {
    pub widget_id: u64,
    pub kind: ProviderKind,
    pub config_hash: u64,
    pub task: u64,
}

/// What a `listen` call did.
#[derive(Clone, Copy, Debug, PartialEq, Eq, Structural)]
pub enum Listen {
    /// A new task was registered under this id; the host starts it.
    Started(u64),
    /// This key has a subscription already; its task has this id.
    AlreadyListening(u64),
}

/// A failure scoped to one subscription.
#[derive(Clone, Debug, PartialEq, Eq)]
pub enum ProviderError {
    /// The task id space is used up.
    TasksExhausted,
    /// The provider's task reported a failure; only its subscriber sees it.
    Upstream(String),
}

pub open spec fn same_key(a: Subscription, b: Subscription) -> bool {
    a.widget_id == b.widget_id && a.kind == b.kind && a.config_hash == b.config_hash
}

/// Keys and task ids are distinct across subscriptions.
pub open spec fn distinct_subs(s: Seq<Subscription>) -> bool {
    forall|i: int, j: int|
        0 <= i < s.len() && 0 <= j < s.len() && i != j ==> !same_key(#[trigger] s[i], #[trigger] s[j]) && s[i].task != s[j].task
}

pub open spec fn tasks_below(s: Seq<Subscription>, bound: int) -> bool {
    forall|i: int| 0 <= i < s.len() ==> s[i].task < bound
}

/// Whether a subscription belongs to `widget_id` and, when a kind is given,
/// to that kind.
pub open spec fn owned_by(s: Subscription, widget_id: u64, kind: Option<ProviderKind>) -> bool {
    s.widget_id == widget_id && match kind {
        Some(k) => s.kind == k,
        None => true,
    }
}

/// The subscriptions left once those owned by `widget_id` (of `kind`, when
/// given) are ended.
pub open spec fn remaining(s: Seq<Subscription>, widget_id: u64, kind: Option<ProviderKind>) -> Seq<Subscription> {
    s.filter(|x: Subscription| !owned_by(x, widget_id, kind))
}

/// The subscriptions owned by `widget_id` (of `kind`, when given).
pub open spec fn owned(s: Seq<Subscription>, widget_id: u64, kind: Option<ProviderKind>) -> Seq<Subscription> {
    s.filter(|x: Subscription| owned_by(x, widget_id, kind))
}

pub open spec fn keyed(s: Seq<Subscription>, widget_id: u64, kind: ProviderKind, config_hash: u64) -> bool {
    exists|i: int|
        0 <= i < s.len() && s[i].widget_id == widget_id && s[i].kind == kind && s[i].config_hash == config_hash
}

/// An update produced by `task` for this key reaches the widget exactly when
/// that very subscription is registered.
pub open spec fn delivers(s: Seq<Subscription>, widget_id: u64, kind: ProviderKind, config_hash: u64, task: u64) -> bool {
    s.contains(Subscription { widget_id, kind, config_hash, task })
}

/// Filtering keeps distinct keys and task ids distinct.
pub proof fn lemma_filter_distinct(s: Seq<Subscription>, p: spec_fn(Subscription) -> bool)
    requires
        distinct_subs(s),
    ensures
        distinct_subs(s.filter(p)),
        forall|i: int| 0 <= i < s.filter(p).len() ==> s.contains(#[trigger] s.filter(p)[i]),
    decreases s.len(),
{
    reveal(Seq::filter);
    assert forall|i: int| 0 <= i < s.filter(p).len() implies s.contains(#[trigger] s.filter(p)[i]) by {
        assert(s.filter(p).contains(s.filter(p)[i]));
        s.lemma_filter_contains_rev(p, s.filter(p)[i]);
    }
    if s.len() > 0 {
        let t = s.drop_last();
        assert(distinct_subs(t)) by {
            assert forall|i: int, j: int| 0 <= i < t.len() && 0 <= j < t.len() && i != j implies
                !same_key(#[trigger] t[i], #[trigger] t[j]) && t[i].task != t[j].task by {
                assert(t[i] == s[i] && t[j] == s[j]);
            }
        }
        lemma_filter_distinct(t, p);
        let last = s.last();
        if p(last) {
            let f = t.filter(p);
            assert(s.filter(p) == f.push(last));
            assert forall|i: int| 0 <= i < f.len() implies !same_key(#[trigger] f[i], last) && f[i].task != last.task by {
                assert(t.contains(f[i]));
                let k = choose|k: int| 0 <= k < t.len() && t[k] == f[i];
                assert(s[k] == f[i]);
                assert(s[s.len() - 1] == last);
            }
            assert forall|i: int, j: int| 0 <= i < f.push(last).len() && 0 <= j < f.push(last).len() && i != j implies
                !same_key(#[trigger] f.push(last)[i], #[trigger] f.push(last)[j]) && f.push(last)[i].task != f.push(last)[j].task by {
                if i < f.len() && j < f.len() {
                } else if i < f.len() {
                    assert(f.push(last)[j] == last);
                } else {
                    assert(f.push(last)[i] == last);
                }
            }
        }
    }
}

/// The subscription registry.
pub struct ProviderManager {
    subs: Vec<Subscription>,
    next_task: u64,
}

impl ProviderManager {
    pub closed spec fn subscriptions(&self) -> Seq<Subscription> {
        self.subs@
    }

    pub closed spec fn next(&self) -> int {
        self.next_task as int
    }

    pub open spec fn wf(&self) -> bool {
        distinct_subs(self.subscriptions()) && tasks_below(self.subscriptions(), self.next())
    }

    pub fn new() -> (r: Self)
        ensures
            r.wf(),
            r.subscriptions() == Seq::<Subscription>::empty(),
            r.next() == 0,
    {
        ProviderManager { subs: Vec::new(), next_task: 0 }
    }

    /// The live subscriptions, oldest first.
    pub fn subscriptions_vec(&self) -> (r: &Vec<Subscription>)
        ensures
            r@ == self.subscriptions(),
    {
        &self.subs
    }

    /// Subscribes `widget_id` to `kind` with the given configuration. A key
    /// already subscribed keeps its task; otherwise a fresh task is registered.
    pub fn listen(&mut self, widget_id: u64, kind: ProviderKind, config_hash: u64) -> (r: Result<Listen, ProviderError>)
        requires
            old(self).wf(),
        ensures
            final(self).wf(),
            keyed(old(self).subscriptions(), widget_id, kind, config_hash) ==> {
                &&& r matches Ok(Listen::AlreadyListening(t))
                &&& delivers(old(self).subscriptions(), widget_id, kind, config_hash, t)
                &&& final(self).subscriptions() == old(self).subscriptions()
                &&& final(self).next() == old(self).next()
            },
            !keyed(old(self).subscriptions(), widget_id, kind, config_hash) && old(self).next() < u64::MAX ==> {
                &&& r == Ok::<Listen, ProviderError>(Listen::Started(old(self).next() as u64))
                &&& final(self).subscriptions() == old(self).subscriptions().push(
                    Subscription { widget_id, kind, config_hash, task: old(self).next() as u64 },
                )
                &&& final(self).next() == old(self).next() + 1
            },
            !keyed(old(self).subscriptions(), widget_id, kind, config_hash) && old(self).next() == u64::MAX ==> {
                &&& r == Err::<Listen, ProviderError>(ProviderError::TasksExhausted)
                &&& final(self).subscriptions() == old(self).subscriptions()
            },
    {
        let mut i: usize = 0;
        while i < self.subs.len()
            invariant
                i <= self.subs.len(),
                self.subs@ == old(self).subs@,
                self.next_task == old(self).next_task,
                distinct_subs(self.subs@),
                tasks_below(self.subs@, self.next_task as int),
                forall|j: int|
                    0 <= j < i ==> !(self.subs@[j].widget_id == widget_id && self.subs@[j].kind == kind
                        && self.subs@[j].config_hash == config_hash),
            decreases self.subs.len() - i,
        {
            let s = self.subs[i];
            if s.widget_id == widget_id && s.kind == kind && s.config_hash == config_hash {
                assert(self.subs@[i as int] == Subscription { widget_id, kind, config_hash, task: s.task });
                return Ok(Listen::AlreadyListening(s.task));
            }
            i += 1;
        }
        if self.next_task == u64::MAX {
            return Err(ProviderError::TasksExhausted);
        }
        let task = self.next_task;
        let ghost before = self.subs@;
        self.subs.push(Subscription { widget_id, kind, config_hash, task });
        self.next_task = task + 1;
        assert forall|a: int, b: int|
            0 <= a < self.subs@.len() && 0 <= b < self.subs@.len() && a != b implies !same_key(
                #[trigger] self.subs@[a],
                #[trigger] self.subs@[b],
            ) && self.subs@[a].task != self.subs@[b].task by {
            if a < before.len() && b < before.len() {
                assert(self.subs@[a] == before[a] && self.subs@[b] == before[b]);
            } else if a < before.len() {
                assert(self.subs@[a] == before[a]);
            } else {
                assert(self.subs@[b] == before[b]);
            }
        }
        Ok(Listen::Started(task))
    }

    /// Removes the subscriptions owned by `widget_id` (of `kind` only, when
    /// given) and returns them, so that their tasks can be stopped.
    fn remove_owned(&mut self, widget_id: u64, kind: Option<ProviderKind>) -> (r: Vec<Subscription>)
        requires
            old(self).wf(),
        ensures
            final(self).wf(),
            final(self).next() == old(self).next(),
            final(self).subscriptions() == remaining(old(self).subscriptions(), widget_id, kind),
            r@ == owned(old(self).subscriptions(), widget_id, kind),
    {
        let ghost all = self.subs@;
        let mut kept: Vec<Subscription> = Vec::new();
        let mut removed: Vec<Subscription> = Vec::new();
        let mut i: usize = 0;
        while i < self.subs.len()
            invariant
                i <= self.subs.len(),
                self.subs@ == all,
                kept@ == all.take(i as int).filter(|s: Subscription| !owned_by(s, widget_id, kind)),
                removed@ == all.take(i as int).filter(|s: Subscription| owned_by(s, widget_id, kind)),
            decreases self.subs.len() - i,
        {
            proof {
                assert(all.take(i + 1) =~= all.take(i as int).push(all[i as int]));
                all.take(i as int).lemma_filter_push(all[i as int], |s: Subscription| !owned_by(s, widget_id, kind));
                all.take(i as int).lemma_filter_push(all[i as int], |s: Subscription| owned_by(s, widget_id, kind));
            }
            let s = self.subs[i];
            let owned = s.widget_id == widget_id && match kind {
                Some(k) => s.kind == k,
                None => true,
            };
            if owned {
                removed.push(s);
            } else {
                kept.push(s);
            }
            i += 1;
        }
        proof {
            assert(all.take(all.len() as int) =~= all);
            lemma_filter_distinct(all, |s: Subscription| !owned_by(s, widget_id, kind));
        }
        self.subs = kept;
        removed
    }

    /// Ends the subscriptions of `widget_id` to `kind`, whatever their
    /// configuration, and returns them so that their tasks can be stopped.
    pub fn unlisten(&mut self, widget_id: u64, kind: ProviderKind) -> (r: Vec<Subscription>)
        requires
            old(self).wf(),
        ensures
            final(self).wf(),
            final(self).next() == old(self).next(),
            final(self).subscriptions() == remaining(old(self).subscriptions(), widget_id, Some(kind)),
            r@ == owned(old(self).subscriptions(), widget_id, Some(kind)),
    {
        self.remove_owned(widget_id, Some(kind))
    }

    /// Ends every subscription of a closed widget and returns them so that
    /// their tasks can be stopped.
    pub fn close_widget(&mut self, widget_id: u64) -> (r: Vec<Subscription>)
        requires
            old(self).wf(),
        ensures
            final(self).wf(),
            final(self).next() == old(self).next(),
            final(self).subscriptions() == remaining(old(self).subscriptions(), widget_id, None),
            r@ == owned(old(self).subscriptions(), widget_id, None),
    {
        self.remove_owned(widget_id, None)
    }

    /// Whether an update that `task` produced for this key is to be
    /// delivered.
    pub fn should_deliver(&self, widget_id: u64, kind: ProviderKind, config_hash: u64, task: u64) -> (r: bool)
        ensures
            r == delivers(self.subscriptions(), widget_id, kind, config_hash, task),
    {
        let target = Subscription { widget_id, kind, config_hash, task };
        let mut i: usize = 0;
        while i < self.subs.len()
            invariant
                i <= self.subs.len(),
                target == (Subscription { widget_id, kind, config_hash, task }),
                forall|j: int| 0 <= j < i ==> self.subs@[j] != target,
            decreases self.subs.len() - i,
        {
            if self.subs[i] == target {
                assert(self.subs@.contains(target));
                return true;
            }
            i += 1;
        }
        false
    }
}

/// After `unlisten(w, p)` no update for `(w, p)` is delivered, whatever its
/// configuration or task.
pub proof fn lemma_unlisten_stops_delivery(
    before: Seq<Subscription>,
    widget_id: u64,
    kind: ProviderKind,
    config_hash: u64,
    task: u64,
)
    ensures
        !delivers(remaining(before, widget_id, Some(kind)), widget_id, kind, config_hash, task),
{
    let p = |x: Subscription| !owned_by(x, widget_id, Some(kind));
    assert(remaining(before, widget_id, Some(kind)) == before.filter(p));
    let target = Subscription { widget_id, kind, config_hash, task };
    if before.filter(p).contains(target) {
        let i = choose|i: int| 0 <= i < before.filter(p).len() && before.filter(p)[i] == target;
        before.lemma_filter_pred(p, i);
    }
}

/// After closing widget `w` none of its subscriptions remains, and every task
/// that served it was handed back to be stopped.
pub proof fn lemma_close_leaves_no_orphan(before: Seq<Subscription>, widget_id: u64)
    ensures
        forall|s: Subscription| #[trigger] remaining(before, widget_id, None).contains(s) ==> s.widget_id != widget_id,
        forall|s: Subscription|
            before.contains(s) && s.widget_id == widget_id ==> #[trigger] owned(before, widget_id, None).contains(s),
{
    let keep = |x: Subscription| !owned_by(x, widget_id, None);
    let stop = |x: Subscription| owned_by(x, widget_id, None);
    assert(remaining(before, widget_id, None) == before.filter(keep));
    assert(owned(before, widget_id, None) == before.filter(stop));
    assert forall|s: Subscription| #[trigger] remaining(before, widget_id, None).contains(s) implies s.widget_id != widget_id by {
        let i = choose|i: int| 0 <= i < before.filter(keep).len() && before.filter(keep)[i] == s;
        before.lemma_filter_pred(keep, i);
    }
    assert forall|s: Subscription| before.contains(s) && s.widget_id == widget_id implies #[trigger] owned(
        before,
        widget_id,
        None,
    ).contains(s) by {
        let i = choose|i: int| 0 <= i < before.len() && before[i] == s;
        before.lemma_filter_contains(stop, i);
    }
}

} // verus!
