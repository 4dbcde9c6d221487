//! The open-widget registry: opening, closing and relaunching widgets.
//!
//! Window creation itself is the host's work: every `OpenWidget` returned
//! here stands for one window that the host creates (and, should that fail,
//! closes again by id).

use vstd::prelude::*;
use crate::config::{Config, WidgetConfig};
use crate::monitor_state::{Monitor, MonitorState};
use crate::placement::{Bounds, PlacementError, Target, placement_targets, resolve_placement, resolve_spec};

verus! {

/// One widget instance: one window on one monitor.
#[derive(Debug)]
pub struct OpenWidget {
    /// Instance id, never handed out twice by the same registry.
    pub id: u64,
    /// The definition the instance was created from.
    pub config: WidgetConfig,
    pub monitor: Monitor,
    pub bounds: Bounds,
}

impl Clone for OpenWidget {
    fn clone(&self) -> (r: Self)
        ensures
            r == *self,
    {
        OpenWidget { id: self.id, config: self.config.clone(), monitor: self.monitor, bounds: self.bounds }
    }
}

/// Why a registry operation failed.
#[derive(Clone, Copy, Debug, PartialEq, Eq, Structural)]
pub enum WidgetError {
    /// The placement rule selects no current monitor.
    Placement(PlacementError),
    /// No open widget has this id.
    NotFound(u64),
    /// The id space is used up.
    IdsExhausted,
}

/// A widget definition that a relaunch could not reopen.
#[derive(Clone, Debug)]
pub struct OpenFailure {
    pub path: String,
    pub error: WidgetError,
}

/// What opening a batch of definitions did.
#[derive(Debug)]
pub struct OpenBatch {
    pub opened: Vec<OpenWidget>,
    pub failures: Vec<OpenFailure>,
}

/// What a relaunch did: the instances torn down and the reopen failures.
#[derive(Debug)]
pub struct RelaunchReport {
    pub closed: Vec<OpenWidget>,
    pub failures: Vec<OpenFailure>,
}

pub open spec fn ids_unique(ws: Seq<OpenWidget>) -> bool {
    forall|i: int, j: int| 0 <= i < ws.len() && 0 <= j < ws.len() && i != j ==> ws[i].id != ws[j].id
}

pub open spec fn ids_below(ws: Seq<OpenWidget>, bound: int) -> bool {
    forall|i: int| 0 <= i < ws.len() ==> ws[i].id < bound
}

pub open spec fn has_id(ws: Seq<OpenWidget>, id: u64) -> bool {
    exists|i: int| 0 <= i < ws.len() && ws[i].id == id
}

/// The instances created for `c` on the targets `ts`, numbered from `first`.
pub open spec fn opened_from(c: WidgetConfig, ts: Seq<Target>, first: int) -> Seq<OpenWidget> {
    Seq::new(
        ts.len(),
        |k: int| OpenWidget { id: (first + k) as u64, config: c, monitor: ts[k].monitor, bounds: ts[k].bounds },
    )
}

pub open spec fn target_of(w: OpenWidget) -> Target {
    Target { monitor: w.monitor, bounds: w.bounds }
}

/// The definition paths represented among the open instances.
pub open spec fn open_paths(ws: Seq<OpenWidget>) -> Set<Seq<char>> {
    Set::new(|p: Seq<char>| exists|i: int| 0 <= i < ws.len() && ws[i].config.path@ == p)
}

pub open spec fn reopens(c: WidgetConfig, open: Set<Seq<char>>, mons: Seq<Monitor>) -> bool {
    open.contains(c.path@) && resolve_spec(c.placement, mons) is Ok
}

/// The paths represented after a relaunch: those open before whose
/// definition is still loaded and still places on some monitor.
pub open spec fn relaunch_paths(cs: Seq<WidgetConfig>, open: Set<Seq<char>>, mons: Seq<Monitor>) -> Set<Seq<char>> {
    Set::new(|p: Seq<char>| exists|k: int| 0 <= k < cs.len() && cs[k].path@ == p && reopens(cs[k], open, mons))
}

/// Whether a failure names one of the definitions in `cs`.
pub open spec fn names_one_of(f: OpenFailure, cs: Seq<WidgetConfig>) -> bool {
    exists|k: int| 0 <= k < cs.len() && f.path@ == cs[k].path@
}

/// The paths of the definitions in `cs` that place on some monitor.
pub open spec fn placeable_paths(cs: Seq<WidgetConfig>, mons: Seq<Monitor>) -> Set<Seq<char>> {
    Set::new(|p: Seq<char>| exists|k: int| 0 <= k < cs.len() && cs[k].path@ == p && resolve_spec(cs[k].placement, mons) is Ok)
}

/// The instances that opening the definitions `cs` in turn creates, ids
/// counted from `first`: each definition adds one instance per target of its
/// placement rule, unless the rule selects no monitor or the ids would run
/// out.
pub open spec fn batch_spec(cs: Seq<WidgetConfig>, mons: Seq<Monitor>, first: int) -> Seq<OpenWidget>
    decreases cs.len(),
{
    if cs.len() == 0 {
        Seq::empty()
    } else {
        let prev = batch_spec(cs.drop_last(), mons, first);
        let c = cs.last();
        match resolve_spec(c.placement, mons) {
            Ok(ts) => if first + prev.len() + ts.len() <= u64::MAX {
                prev + opened_from(c, ts, first + prev.len())
            } else {
                prev
            },
            Err(_) => prev,
        }
    }
}

/// The definitions a relaunch reopens: those whose path was open, in load
/// order.
pub open spec fn reopened_configs(cs: Seq<WidgetConfig>, open: Set<Seq<char>>) -> Seq<WidgetConfig> {
    cs.filter(|c: WidgetConfig| open.contains(c.path@))
}

/// What opening the definitions `cs` in turn, against the snapshot `mons`,
/// guarantees: the new instances are appended under fresh ids; each comes
/// from one of `cs` and sits where its placement rule puts it; every
/// definition that places on some monitor is opened (as long as ids remain);
/// failures name definitions of `cs`.
pub open spec fn batch_done(
    cs: Seq<WidgetConfig>,
    mons: Seq<Monitor>,
    before: Seq<OpenWidget>,
    first: int,
    after: Seq<OpenWidget>,
    b: OpenBatch,
) -> bool {
    &&& b.opened@ == batch_spec(cs, mons, first)
    &&& after == before + b.opened@
    &&& forall|j: int| 0 <= j < b.opened@.len() ==> {
        let w = #[trigger] b.opened@[j];
        &&& w.id >= first
        &&& cs.contains(w.config)
        &&& placement_targets(w.config.placement, mons).contains(target_of(w))
    }
    &&& open_paths(b.opened@).subset_of(placeable_paths(cs, mons))
    &&& first + cs.len() * mons.len() <= u64::MAX ==> open_paths(b.opened@) == placeable_paths(cs, mons)
    &&& forall|j: int| 0 <= j < b.failures@.len() ==> names_one_of(#[trigger] b.failures@[j], cs)
}

/// Whether some open instance was created from the definition at `path`.
pub fn is_path_open(ws: &Vec<OpenWidget>, path: &String) -> (r: bool)
    ensures
        r == open_paths(ws@).contains(path@),
{
    let mut i: usize = 0;
    while i < ws.len()
        invariant
            i <= ws.len(),
            forall|j: int| 0 <= j < i ==> ws@[j].config.path@ != path@,
        decreases ws.len() - i,
    {
        if ws[i].config.path == *path {
            return true;
        }
        i += 1;
    }
    false
}

/// The registry of open widgets.
pub struct WidgetFactory {
    widgets: Vec<OpenWidget>,
    next_id: u64,
}

impl WidgetFactory {
    pub closed spec fn entries(&self) -> Seq<OpenWidget> {
        self.widgets@
    }

    pub closed spec fn next(&self) -> int {
        self.next_id as int
    }

    /// Ids are unique and all below the next id to hand out.
    pub open spec fn wf(&self) -> bool {
        ids_unique(self.entries()) && ids_below(self.entries(), self.next())
    }

    pub fn new() -> (r: Self)
        ensures
            r.wf(),
            r.entries() == Seq::<OpenWidget>::empty(),
            r.next() == 0,
    {
        WidgetFactory { widgets: Vec::new(), next_id: 0 }
    }

    /// The open instances, oldest first.
    pub fn widgets(&self) -> (r: &Vec<OpenWidget>)
        ensures
            r@ == self.entries(),
    {
        &self.widgets
    }

    pub fn next_id(&self) -> (r: u64)
        ensures
            r as int == self.next(),
    {
        self.next_id
    }

    /// Opens `config` on every monitor its placement rule selects in the
    /// current snapshot, under fresh ids, and returns the new instances.
    pub fn open(&mut self, config: &WidgetConfig, monitors: &MonitorState) -> (r: Result<Vec<OpenWidget>, WidgetError>)
        requires
            old(self).wf(),
        ensures
            final(self).wf(),
            match resolve_spec(config.placement, monitors@) {
                Err(e) => r == Err::<Vec<OpenWidget>, WidgetError>(WidgetError::Placement(e)),
                Ok(ts) => if old(self).next() + ts.len() <= u64::MAX {
                    &&& r matches Ok(ws)
                    &&& ws@ == opened_from(*config, ts, old(self).next())
                    &&& final(self).entries() == old(self).entries() + ws@
                    &&& final(self).next() == old(self).next() + ts.len()
                } else {
                    r == Err::<Vec<OpenWidget>, WidgetError>(WidgetError::IdsExhausted)
                },
            },
            r is Err ==> final(self).entries() == old(self).entries() && final(self).next() == old(self).next(),
    {
        let ts = match resolve_placement(&config.placement, monitors.monitors()) {
            Ok(ts) => ts,
            Err(e) => return Err(WidgetError::Placement(e)),
        };
        if ts.len() as u64 > u64::MAX - self.next_id {
            return Err(WidgetError::IdsExhausted);
        }
        let ghost first = self.next_id as int;
        let mut created: Vec<OpenWidget> = Vec::new();
        let mut k: usize = 0;
        while k < ts.len()
            invariant
                k <= ts.len(),
                first + ts.len() <= u64::MAX,
                self.next_id == first + k,
                created@ == opened_from(*config, ts@.take(k as int), first),
                self.widgets@ == old(self).widgets@ + created@,
                ids_unique(old(self).widgets@),
                ids_below(old(self).widgets@, first),
            decreases ts.len() - k,
        {
            let w = OpenWidget { id: self.next_id, config: config.clone(), monitor: ts[k].monitor, bounds: ts[k].bounds };
            self.widgets.push(w.clone());
            created.push(w);
            self.next_id = self.next_id + 1;
            k += 1;
            assert(created@ =~= opened_from(*config, ts@.take(k as int), first));
        }
        assert(ts@.take(ts.len() as int) =~= ts@);
        Ok(created)
    }

    /// Opens each definition in turn. One that fails is reported and the
    /// others still open.
    pub fn open_all(&mut self, cs: &Vec<WidgetConfig>, monitors: &MonitorState) -> (r: OpenBatch)
        requires
            old(self).wf(),
        ensures
            final(self).wf(),
            batch_done(cs@, monitors@, old(self).entries(), old(self).next(), final(self).entries(), r),
    {
        let ghost mons = monitors@;
        let ghost first = self.next_id as int;
        let ghost start = self.widgets@;
        let mut opened: Vec<OpenWidget> = Vec::new();
        let mut failures: Vec<OpenFailure> = Vec::new();
        let mut i: usize = 0;
        while i < cs.len()
            invariant
                i <= cs.len(),
                mons == monitors@,
                self.wf(),
                self.next() >= first,
                self.entries() == start + opened@,
                opened@ == batch_spec(cs@.take(i as int), mons, first),
                self.next() == first + opened@.len(),
                first + cs.len() * mons.len() <= u64::MAX ==> self.next() <= first + i * mons.len(),
                forall|j: int| 0 <= j < opened@.len() ==> {
                    let w = #[trigger] opened@[j];
                    &&& w.id >= first
                    &&& cs@.contains(w.config)
                    &&& placement_targets(w.config.placement, mons).contains(target_of(w))
                },
                first + cs.len() * mons.len() <= u64::MAX ==> forall|k: int|
                    0 <= k < i && resolve_spec(cs@[k].placement, mons) is Ok ==> #[trigger] open_paths(opened@).contains(cs@[k].path@),
                forall|j: int| 0 <= j < failures@.len() ==> names_one_of(#[trigger] failures@[j], cs@),
            decreases cs.len() - i,
        {
            let ghost prev = opened@;
            proof {
                assert(cs@.take(i + 1).drop_last() =~= cs@.take(i as int));
                assert(cs@.take(i + 1).last() == cs@[i as int]);
            }
            match self.open(&cs[i], monitors) {
                Ok(ws) => {
                    let mut ws = ws;
                    let ghost new = ws@;
                    opened.append(&mut ws);
                    proof {
                        let ts = placement_targets(cs@[i as int].placement, mons);
                        assert forall|j: int| 0 <= j < opened@.len() implies {
                            let w = #[trigger] opened@[j];
                            &&& w.id >= first
                            &&& cs@.contains(w.config)
                            &&& placement_targets(w.config.placement, mons).contains(target_of(w))
                        } by {
                            if j >= prev.len() {
                                let k = j - prev.len();
                                assert(opened@[j] == new[k]);
                                assert(ts[k] == target_of(new[k]));
                            } else {
                                assert(opened@[j] == prev[j]);
                            }
                        }
                        assert(opened@[prev.len() as int] == new[0]);
                        assert(open_paths(opened@).contains(cs@[i as int].path@));
                        assert forall|k: int| 0 <= k < i && open_paths(prev).contains(cs@[k].path@)
                            implies #[trigger] open_paths(opened@).contains(cs@[k].path@) by {
                            let j = choose|j: int| 0 <= j < prev.len() && prev[j].config.path@ == cs@[k].path@;
                            assert(opened@[j] == prev[j]);
                        }
                        assert(first + cs.len() * mons.len() <= u64::MAX ==> self.next() <= first + (i + 1) * mons.len()) by {
                            assert(ts.len() <= mons.len()) by {
                                lemma_targets_len(cs@[i as int].placement, mons);
                            }
                            assert(first + (i + 1) * mons.len() == first + i * mons.len() + mons.len()) by (nonlinear_arith);
                        }
                    }
                },
                Err(e) => {
                    proof {
                        if first + cs.len() * mons.len() <= u64::MAX {
                            lemma_targets_len(cs@[i as int].placement, mons);
                            assert(i * mons.len() + mons.len() <= cs.len() * mons.len()) by (nonlinear_arith)
                                requires
                                    i < cs.len(),
                            ;
                        }
                    }
                    let ghost fprev = failures@;
                    failures.push(OpenFailure { path: cs[i].path.clone(), error: e });
                    proof {
                        assert forall|j: int| 0 <= j < failures@.len() implies names_one_of(#[trigger] failures@[j], cs@) by {
                            if j < fprev.len() {
                                assert(failures@[j] == fprev[j]);
                            } else {
                                assert(failures@[j].path@ == cs@[i as int].path@);
                            }
                        }
                        assert(first + cs.len() * mons.len() <= u64::MAX ==> self.next() <= first + (i + 1) * mons.len()) by (nonlinear_arith)
                            requires
                                first + cs.len() * mons.len() <= u64::MAX ==> self.next() <= first + i * mons.len(),
                                mons.len() >= 0,
                        ;
                    }
                },
            }
            i += 1;
        }
        proof {
            assert(cs@.take(cs.len() as int) =~= cs@);
            assert forall|p: Seq<char>| open_paths(opened@).contains(p) implies placeable_paths(cs@, mons).contains(p) by {
                let j = choose|j: int| 0 <= j < opened@.len() && opened@[j].config.path@ == p;
                let w = opened@[j];
                let k = choose|k: int| 0 <= k < cs@.len() && cs@[k] == w.config;
            }
            if first + cs.len() * mons.len() <= u64::MAX {
                assert forall|p: Seq<char>| placeable_paths(cs@, mons).contains(p) implies open_paths(opened@).contains(p) by {
                    let k = choose|k: int| 0 <= k < cs@.len() && cs@[k].path@ == p && resolve_spec(cs@[k].placement, mons) is Ok;
                }
                assert(open_paths(opened@) =~= placeable_paths(cs@, mons));
            }
        }
        OpenBatch { opened, failures }
    }

    /// Removes the instance with this id and returns it.
    pub fn close(&mut self, id: u64) -> (r: Result<OpenWidget, WidgetError>)
        requires
            old(self).wf(),
        ensures
            final(self).wf(),
            final(self).next() == old(self).next(),
            r is Err <==> !has_id(old(self).entries(), id),
            r is Err ==> r == Err::<OpenWidget, WidgetError>(WidgetError::NotFound(id)) && final(self).entries() == old(self).entries(),
            r matches Ok(w) ==> w.id == id && exists|i: int|
                0 <= i < old(self).entries().len() && old(self).entries()[i] == w
                    && final(self).entries() == old(self).entries().remove(i),
            !has_id(final(self).entries(), id),
    {
        let mut i: usize = 0;
        while i < self.widgets.len()
            invariant
                i <= self.widgets.len(),
                self.widgets@ == old(self).widgets@,
                self.next_id == old(self).next_id,
                ids_unique(self.widgets@),
                ids_below(self.widgets@, self.next_id as int),
                forall|j: int| 0 <= j < i ==> self.widgets@[j].id != id,
            decreases self.widgets.len() - i,
        {
            if self.widgets[i].id == id {
                let ghost before = self.widgets@;
                let w = self.widgets.remove(i);
                assert(self.widgets@ == before.remove(i as int));
                assert forall|a: int, b: int|
                    0 <= a < self.widgets@.len() && 0 <= b < self.widgets@.len() && a != b
                        implies #[trigger] self.widgets@[a].id != #[trigger] self.widgets@[b].id by {
                    let a2 = if a < i { a } else { a + 1 };
                    let b2 = if b < i { b } else { b + 1 };
                    assert(self.widgets@[a] == before[a2]);
                    assert(self.widgets@[b] == before[b2]);
                }
                assert forall|a: int| 0 <= a < self.widgets@.len() implies #[trigger] self.widgets@[a].id != id by {
                    let a2 = if a < i { a } else { a + 1 };
                    assert(self.widgets@[a] == before[a2]);
                    assert(before[i as int].id == id);
                }
                return Ok(w);
            }
            i += 1;
        }
        Err(WidgetError::NotFound(id))
    }

    /// Removes every instance created from the definition at `path` and
    /// returns them, oldest first.
    pub fn close_by_path(&mut self, path: &String) -> (r: Vec<OpenWidget>)
        requires
            old(self).wf(),
        ensures
            final(self).wf(),
            final(self).next() == old(self).next(),
            final(self).entries() == old(self).entries().filter(|w: OpenWidget| w.config.path@ != path@),
            r@ == old(self).entries().filter(|w: OpenWidget| w.config.path@ == path@),
            !open_paths(final(self).entries()).contains(path@),
    {
        let ghost all = self.widgets@;
        let ghost keep = |w: OpenWidget| w.config.path@ != path@;
        let mut kept: Vec<OpenWidget> = Vec::new();
        let mut removed: Vec<OpenWidget> = Vec::new();
        let mut i: usize = 0;
        while i < self.widgets.len()
            invariant
                i <= self.widgets.len(),
                self.widgets@ == all,
                keep == (|w: OpenWidget| w.config.path@ != path@),
                kept@ == all.take(i as int).filter(keep),
                removed@ == all.take(i as int).filter(|w: OpenWidget| w.config.path@ == path@),
            decreases self.widgets.len() - i,
        {
            proof {
                assert(all.take(i + 1) =~= all.take(i as int).push(all[i as int]));
                all.take(i as int).lemma_filter_push(all[i as int], keep);
                all.take(i as int).lemma_filter_push(all[i as int], |w: OpenWidget| w.config.path@ == path@);
            }
            if self.widgets[i].config.path == *path {
                removed.push(self.widgets[i].clone());
            } else {
                kept.push(self.widgets[i].clone());
            }
            i += 1;
        }
        proof {
            assert(all.take(all.len() as int) =~= all);
            lemma_filter_ids(all, keep, self.next_id as int);
            assert forall|p: Seq<char>| open_paths(kept@).contains(p) implies p != path@ by {
                let j = choose|j: int| 0 <= j < kept@.len() && kept@[j].config.path@ == p;
                all.lemma_filter_pred(keep, j);
            }
        }
        self.widgets = kept;
        removed
    }

    /// Removes every instance and returns them, oldest first.
    pub fn close_all(&mut self) -> (r: Vec<OpenWidget>)
        requires
            old(self).wf(),
        ensures
            final(self).wf(),
            r@ == old(self).entries(),
            final(self).entries() == Seq::<OpenWidget>::empty(),
            final(self).next() == old(self).next(),
    {
        let mut taken: Vec<OpenWidget> = Vec::new();
        core::mem::swap(&mut taken, &mut self.widgets);
        taken
    }

    /// Tears down every open instance, then reopens from the current
    /// configuration and monitor snapshot each loaded definition that was
    /// open before. A definition that fails to reopen is reported and the
    /// others still reopen.
    pub fn relaunch_all(&mut self, config: &Config, monitors: &MonitorState) -> (r: RelaunchReport)
        requires
            old(self).wf(),
        ensures
            final(self).wf(),
            final(self).next() >= old(self).next(),
            r.closed@ == old(self).entries(),
            final(self).entries() == batch_spec(
                reopened_configs(config.widgets(), open_paths(old(self).entries())),
                monitors@,
                old(self).next(),
            ),
            forall|j: int| 0 <= j < final(self).entries().len() ==> {
                let w = #[trigger] final(self).entries()[j];
                &&& w.id >= old(self).next()
                &&& config.widgets().contains(w.config)
                &&& placement_targets(w.config.placement, monitors@).contains(target_of(w))
            },
            open_paths(final(self).entries()).subset_of(
                relaunch_paths(config.widgets(), open_paths(old(self).entries()), monitors@),
            ),
            old(self).next() + config.widgets().len() * monitors@.len() <= u64::MAX ==> open_paths(final(self).entries())
                == relaunch_paths(config.widgets(), open_paths(old(self).entries()), monitors@),
    {
        let closed = self.close_all();
        let ghost before = open_paths(closed@);
        let ghost mons = monitors@;
        let ghost first = self.next_id as int;
        let cs = config.widget_configs();
        let mut failures: Vec<OpenFailure> = Vec::new();
        let mut i: usize = 0;
        while i < cs.len()
            invariant
                i <= cs.len(),
                cs@ == config.widgets(),
                mons == monitors@,
                before == open_paths(closed@),
                self.wf(),
                self.next() >= first,
                self.entries() == batch_spec(reopened_configs(cs@.take(i as int), before), mons, first),
                self.next() == first + self.entries().len(),
                first + cs.len() * mons.len() <= u64::MAX ==> self.next() <= first + i * mons.len(),
                forall|j: int| 0 <= j < self.entries().len() ==> {
                    let w = #[trigger] self.entries()[j];
                    &&& w.id >= first
                    &&& cs@.contains(w.config)
                    &&& placement_targets(w.config.placement, mons).contains(target_of(w))
                    &&& reopens(w.config, before, mons)
                },
                first + cs.len() * mons.len() <= u64::MAX ==> forall|k: int| 0 <= k < i && reopens(cs@[k], before, mons)
                    ==> #[trigger] open_paths(self.entries()).contains(cs@[k].path@),
            decreases cs.len() - i,
        {
            proof {
                let pred = |c: WidgetConfig| before.contains(c.path@);
                assert(cs@.take(i + 1) =~= cs@.take(i as int).push(cs@[i as int]));
                cs@.take(i as int).lemma_filter_push(cs@[i as int], pred);
                let f = reopened_configs(cs@.take(i as int), before);
                assert(f.push(cs@[i as int]).drop_last() =~= f);
            }
            if is_path_open(&closed, &cs[i].path) {
                let ghost prev = self.entries();
                match self.open(&cs[i], monitors) {
                    Ok(ws) => {
                        proof {
                            let ts = placement_targets(cs@[i as int].placement, mons);
                            assert forall|j: int| 0 <= j < self.entries().len() implies {
                                let w = #[trigger] self.entries()[j];
                                &&& w.id >= first
                                &&& cs@.contains(w.config)
                                &&& placement_targets(w.config.placement, mons).contains(target_of(w))
                                &&& reopens(w.config, before, mons)
                            } by {
                                if j >= prev.len() {
                                    let k = j - prev.len();
                                    assert(self.entries()[j] == ws@[k]);
                                    assert(ts[k] == target_of(ws@[k]));
                                } else {
                                    assert(self.entries()[j] == prev[j]);
                                }
                            }
                            assert(self.entries()[prev.len() as int] == ws@[0]);
                            assert(open_paths(self.entries()).contains(cs@[i as int].path@));
                            assert forall|k: int| 0 <= k < i && open_paths(prev).contains(cs@[k].path@)
                                implies #[trigger] open_paths(self.entries()).contains(cs@[k].path@) by {
                                let j = choose|j: int| 0 <= j < prev.len() && prev[j].config.path@ == cs@[k].path@;
                                assert(self.entries()[j] == prev[j]);
                            }
                            assert(first + cs.len() * mons.len() <= u64::MAX ==> self.next() <= first + (i + 1) * mons.len()) by {
                                assert(ts.len() <= mons.len()) by {
                                    lemma_targets_len(cs@[i as int].placement, mons);
                                }
                                assert(first + (i + 1) * mons.len() == first + i * mons.len() + mons.len()) by (nonlinear_arith);
                            }
                        }
                    },
                    Err(e) => {
                        proof {
                            if first + cs.len() * mons.len() <= u64::MAX {
                                lemma_targets_len(cs@[i as int].placement, mons);
                                assert(i * mons.len() + mons.len() <= cs.len() * mons.len()) by (nonlinear_arith)
                                    requires
                                        i < cs.len(),
                                ;
                            }
                        }
                        failures.push(OpenFailure { path: cs[i].path.clone(), error: e });
                        proof {
                            assert(first + cs.len() * mons.len() <= u64::MAX ==> self.next() <= first + (i + 1) * mons.len()) by (nonlinear_arith)
                                requires
                                    first + cs.len() * mons.len() <= u64::MAX ==> self.next() <= first + i * mons.len(),
                                    mons.len() >= 0,
                            ;
                        }
                    },
                }
            } else {
                proof {
                    assert(first + cs.len() * mons.len() <= u64::MAX ==> self.next() <= first + (i + 1) * mons.len()) by (nonlinear_arith)
                        requires
                            first + cs.len() * mons.len() <= u64::MAX ==> self.next() <= first + i * mons.len(),
                            mons.len() >= 0,
                    ;
                }
            }
            i += 1;
        }
        proof {
            assert(cs@.take(cs.len() as int) =~= cs@);
            assert forall|p: Seq<char>| open_paths(self.entries()).contains(p) implies relaunch_paths(
                cs@,
                before,
                mons,
            ).contains(p) by {
                let j = choose|j: int| 0 <= j < self.entries().len() && self.entries()[j].config.path@ == p;
                let w = self.entries()[j];
                let k = choose|k: int| 0 <= k < cs@.len() && cs@[k] == w.config;
            }
            if first + cs.len() * mons.len() <= u64::MAX {
                assert forall|p: Seq<char>| relaunch_paths(cs@, before, mons).contains(p) implies open_paths(
                    self.entries(),
                ).contains(p) by {
                    let k = choose|k: int| 0 <= k < cs@.len() && cs@[k].path@ == p && reopens(cs@[k], before, mons);
                }
                assert(open_paths(self.entries()) =~= relaunch_paths(cs@, before, mons));
            }
        }
        RelaunchReport { closed, failures }
    }
}

/// Relaunching twice in a row leaves the same definition paths represented
/// among the open widgets as relaunching once.
pub proof fn lemma_relaunch_twice_same_paths(cs: Seq<WidgetConfig>, open: Set<Seq<char>>, mons: Seq<Monitor>)
    ensures
        relaunch_paths(cs, relaunch_paths(cs, open, mons), mons) == relaunch_paths(cs, open, mons),
{
    let once = relaunch_paths(cs, open, mons);
    assert forall|p: Seq<char>| once.contains(p) implies relaunch_paths(cs, once, mons).contains(p) by {
        let k = choose|k: int| 0 <= k < cs.len() && cs[k].path@ == p && reopens(cs[k], open, mons);
        assert(reopens(cs[k], once, mons));
    }
    assert(relaunch_paths(cs, once, mons) =~= once);
}

/// Filtering keeps ids unique and below the same bound.
pub proof fn lemma_filter_ids(s: Seq<OpenWidget>, p: spec_fn(OpenWidget) -> bool, bound: int)
    requires
        ids_unique(s),
        ids_below(s, bound),
    ensures
        ids_unique(s.filter(p)),
        ids_below(s.filter(p), bound),
    decreases s.len(),
{
    reveal(Seq::filter);
    if s.len() > 0 {
        let t = s.drop_last();
        assert(ids_unique(t) && ids_below(t, bound)) by {
            assert forall|i: int| 0 <= i < t.len() implies #[trigger] t[i] == s[i] by {}
        }
        lemma_filter_ids(t, p, bound);
        let last = s.last();
        if p(last) {
            let f = t.filter(p);
            assert(s.filter(p) == f.push(last));
            assert forall|i: int| 0 <= i < f.len() implies #[trigger] f[i].id != last.id by {
                assert(f.contains(f[i]));
                t.lemma_filter_contains_rev(p, f[i]);
                let k = choose|k: int| 0 <= k < t.len() && t[k] == f[i];
                assert(s[k] == f[i]);
                assert(s[s.len() - 1] == last);
            }
            let g = f.push(last);
            assert forall|i: int, j: int| 0 <= i < g.len() && 0 <= j < g.len() && i != j implies g[i].id != g[j].id by {
                if i < f.len() && j < f.len() {
                    assert(g[i] == f[i] && g[j] == f[j]);
                } else if i < f.len() {
                    assert(g[i] == f[i] && g[j] == last);
                } else {
                    assert(g[j] == f[j] && g[i] == last);
                }
            }
            assert forall|i: int| 0 <= i < g.len() implies g[i].id < bound by {
                if i < f.len() {
                    assert(g[i] == f[i]);
                } else {
                    assert(g[i] == last);
                }
            }
        }
    }
}

/// A placement rule yields at most one target per monitor.
pub proof fn lemma_targets_len(p: crate::placement::WidgetPlacement, mons: Seq<Monitor>)
    ensures
        placement_targets(p, mons).len() <= mons.len(),
{
    mons.lemma_filter_len(|m: Monitor| crate::placement::is_primary(m));
}

} // verus!
