//! The bookkeeping of running uprobestats tasks: which BPF maps are polled, so that two
//! tasks never poll the same map, and which binder transaction filters a task installs.
use crate::config_resolver::{MethodConfigView, ResolvedProbe, ResolvedProbeView, ResolvedTask};
use crate::string::{contains_infix, contains_str, str_eq};
use vstd::prelude::*;

verus! {

/// The name that marks the BPF program of binder transaction probes.
pub const BINDER_BPF_PROGRAM_NAME: &'static str = "Binder_uprobe_exec_transact_internal";

/// Why a task could not be started or set up.
#[derive(Debug, Clone, PartialEq)]
pub enum TaskError {
    /// Another running task already polls these maps.
    MapsInUse(Vec<String>),
    /// A binder transaction probe has no filter.
    MissingBinderFilter,
    /// A binder transaction filter of this interface has no method.
    MissingMethodIds(String),
}

/// The abstract content of a `TaskError`.
pub enum TaskErrorView {
    /// Another running task already polls these maps.
    MapsInUse(Seq<Seq<char>>),
    /// A binder transaction probe has no filter.
    MissingBinderFilter,
    /// A binder transaction filter of this interface has no method.
    MissingMethodIds(Seq<char>),
}

impl View for TaskError {
    type V = TaskErrorView;

    open spec fn view(&self) -> TaskErrorView {
        match self {
            TaskError::MapsInUse(v) => TaskErrorView::MapsInUse(v@.map_values(|s: String| s@)),
            TaskError::MissingBinderFilter => TaskErrorView::MissingBinderFilter,
            TaskError::MissingMethodIds(s) => TaskErrorView::MissingMethodIds(s@),
        }
    }
}

/// The strings of `v`, as a set of character sequences.
pub open spec fn string_set(v: Seq<String>) -> Set<Seq<char>> {
    Set::new(|x: Seq<char>| exists|i: int| 0 <= i < v.len() && v[i]@ == x)
}

/// No string occurs twice in `v`.
pub open spec fn strings_distinct(v: Seq<String>) -> bool {
    forall|i: int, j: int| 0 <= i < j < v.len() ==> v[i]@ != v[j]@
}

proof fn lemma_string_set_push(v: Seq<String>, s: String)
    ensures
        string_set(v.push(s)) == string_set(v).insert(s@),
{
    let w = v.push(s);
    assert forall|x: Seq<char>| string_set(w).contains(x) implies string_set(v).insert(s@).contains(x) by {
        let k = choose|k: int| 0 <= k < w.len() && w[k]@ == x;
        if k < v.len() {
            assert(w[k] == v[k]);
        }
    }
    assert forall|x: Seq<char>| string_set(v).insert(s@).contains(x) implies string_set(w).contains(x) by {
        if x == s@ {
            assert(w[v.len() as int] == s);
        } else {
            let k = choose|k: int| 0 <= k < v.len() && v[k]@ == x;
            assert(w[k] == v[k]);
        }
    }
    assert(string_set(w) =~= string_set(v).insert(s@));
}

proof fn lemma_string_set_take(v: Seq<String>, i: int)
    requires
        0 <= i < v.len(),
    ensures
        string_set(v.take(i + 1)) == string_set(v.take(i)).insert(v[i]@),
{
    assert(v.take(i + 1) =~= v.take(i).push(v[i]));
    lemma_string_set_push(v.take(i), v[i]);
}

/// The active state for the uprobestats daemon process: the BPF maps polled by the running
/// tasks. It is only set when there are tasks currently running.
pub struct ActiveState {
    polled_bpf_maps: Vec<String>,
}

impl ActiveState {
    /// The polled maps.
    pub closed spec fn maps(&self) -> Set<Seq<char>> {
        string_set(self.polled_bpf_maps@)
    }

    /// No map is recorded twice.
    pub closed spec fn wf(&self) -> bool {
        strings_distinct(self.polled_bpf_maps@)
    }

    /// Creates a new instance of ActiveState polling the given maps.
    ///
    /// Should only be called when there are no existing tasks running.
    pub fn new(polled_bpf_maps: Vec<String>) -> (r: Self)
        ensures
            r.wf(),
            r.maps() == string_set(polled_bpf_maps@),
    {
        ActiveState { polled_bpf_maps: distinct_strings(&polled_bpf_maps) }
    }

    /// Whether the map is polled.
    fn polls(&self, map: &str) -> (r: bool)
        ensures
            r == self.maps().contains(map@),
    {
        let mut i: usize = 0;
        while i < self.polled_bpf_maps.len()
            invariant
                i <= self.polled_bpf_maps@.len(),
                forall|k: int| 0 <= k < i ==> self.polled_bpf_maps@[k]@ != map@,
            decreases self.polled_bpf_maps@.len() - i,
        {
            if str_eq(self.polled_bpf_maps[i].as_str(), map) {
                return true;
            }
            i = i + 1;
        }
        false
    }

    /// Stops polling the map.
    fn forget(&mut self, map: &str)
        requires
            old(self).wf(),
        ensures
            final(self).wf(),
            final(self).maps() == old(self).maps().remove(map@),
    {
        let ghost before = self.polled_bpf_maps@;
        let mut i: usize = 0;
        while i < self.polled_bpf_maps.len()
            invariant
                i <= self.polled_bpf_maps@.len(),
                self.polled_bpf_maps@ == before,
                before == old(self).polled_bpf_maps@,
                strings_distinct(before),
                forall|k: int| 0 <= k < i ==> before[k]@ != map@,
            decreases self.polled_bpf_maps@.len() - i,
        {
            if str_eq(self.polled_bpf_maps[i].as_str(), map) {
                let _ = self.polled_bpf_maps.remove(i);
                let ghost after = self.polled_bpf_maps@;
                assert(after =~= before.remove(i as int));
                assert forall|a: int, b: int| 0 <= a < b < after.len() implies after[a]@ != after[b]@ by {
                    if b < i {
                        assert(before[a]@ != before[b]@);
                    } else if a < i {
                        assert(before[a]@ != before[b + 1]@);
                    } else {
                        assert(before[a + 1]@ != before[b + 1]@);
                    }
                }
                assert(string_set(after) =~= string_set(before).remove(map@)) by {
                    assert forall|x: Seq<char>| string_set(before).remove(map@).contains(x) implies string_set(after).contains(x) by {
                        let k = choose|k: int| 0 <= k < before.len() && before[k]@ == x;
                        if k < i {
                            assert(after[k] == before[k]);
                        } else {
                            assert(k != i);
                            assert(after[k - 1] == before[k]);
                        }
                    }
                    assert forall|x: Seq<char>| string_set(after).contains(x) implies string_set(before).remove(map@).contains(x) by {
                        let k = choose|k: int| 0 <= k < after.len() && after[k]@ == x;
                        if k < i {
                            assert(after[k] == before[k]);
                            assert(before[k]@ != before[i as int]@);
                        } else {
                            assert(after[k] == before[k + 1]);
                            assert(before[k + 1]@ != before[i as int]@);
                        }
                    }
                }
                assert(self.maps() == string_set(after));
                assert(old(self).maps() == string_set(before));
                return;
            }
            i = i + 1;
        }
        assert(string_set(before) =~= string_set(before).remove(map@));
    }

    /// Whether no map is polled any more.
    fn is_empty(&self) -> (r: bool)
        ensures
            r == (self.maps() == Set::<Seq<char>>::empty()),
    {
        let r = self.polled_bpf_maps.len() == 0;
        if !r {
            assert(self.maps().contains(self.polled_bpf_maps@[0]@));
        } else {
            assert(self.maps() =~= Set::<Seq<char>>::empty());
        }
        r
    }
}

/// The distinct strings of `v`, in the order of their first occurrence.
fn distinct_strings(v: &Vec<String>) -> (r: Vec<String>)
    ensures
        strings_distinct(r@),
        string_set(r@) == string_set(v@),
{
    let mut r: Vec<String> = Vec::new();
    let mut i: usize = 0;
    while i < v.len()
        invariant
            i <= v@.len(),
            strings_distinct(r@),
            string_set(r@) == string_set(v@.take(i as int)),
        decreases v@.len() - i,
    {
        let mut j: usize = 0;
        let mut found = false;
        while j < r.len()
            invariant
                j <= r@.len(),
                i < v@.len(),
                found <==> exists|k: int| 0 <= k < j && r@[k]@ == v@[i as int]@,
            decreases r@.len() - j,
        {
            if str_eq(r[j].as_str(), v[i].as_str()) {
                found = true;
            }
            j = j + 1;
        }
        let ghost before = r@;
        if !found {
            r.push(v[i].clone());
            assert forall|a: int, b: int| 0 <= a < b < r@.len() implies r@[a]@ != r@[b]@ by {
                if b < before.len() {
                    assert(before[a]@ != before[b]@);
                }
            }
        }
        proof {
            lemma_string_set_take(v@, i as int);
            if !found {
                lemma_string_set_push(before, v@[i as int]);
            } else {
                let m = choose|m: int| 0 <= m < before.len() && before[m]@ == v@[i as int]@;
                assert(string_set(before).contains(v@[i as int]@));
                assert(string_set(before).insert(v@[i as int]@) =~= string_set(before));
            }
        }
        i = i + 1;
    }
    assert(v@.take(i as int) =~= v@);
    r
}

/// The maps polled in a global state: none when no task runs.
pub open spec fn polled_maps(state: Option<ActiveState>) -> Option<Set<Seq<char>>> {
    match state {
        None => None,
        Some(a) => Some(a.maps()),
    }
}

/// A global state whose active state, if any, records no map twice.
pub open spec fn state_wf(state: Option<ActiveState>) -> bool {
    state matches Some(a) ==> a.wf()
}

/// What step 2 makes of the polled maps when a task with maps `task_maps` starts: the
/// first task makes the state active, a later one adds its maps; the maps already polled
/// that the task also wants are a conflict.
pub open spec fn spec_update(
    state: Option<Set<Seq<char>>>,
    task_maps: Set<Seq<char>>,
) -> Result<Option<Set<Seq<char>>>, Set<Seq<char>>> {
    match state {
        None => Ok(Some(task_maps)),
        Some(polled) => if polled.intersect(task_maps) == Set::<Seq<char>>::empty() {
            Ok(Some(polled.union(task_maps)))
        } else {
            Err(polled.intersect(task_maps))
        },
    }
}

/// What step 4 makes of the polled maps when a task with maps `task_maps` ends: its maps
/// are no longer polled, and without any polled map the state is no longer active.
pub open spec fn spec_cleanup(polled: Set<Seq<char>>, task_maps: Set<Seq<char>>) -> Option<Set<Seq<char>>> {
    if polled.difference(task_maps) == Set::<Seq<char>>::empty() {
        None
    } else {
        Some(polled.difference(task_maps))
    }
}

/// Step 2: checks for conflicts with other tasks, and updates the global state accordingly.
///
/// Once this step completes, step 4 (cleaning up the polled maps) must also complete.
pub fn update_polled_bpf_maps(state: &mut Option<ActiveState>, task: &ResolvedTask) -> (r: Result<(), TaskError>)
    requires
        state_wf(*old(state)),
    ensures
        state_wf(*final(state)),
        match spec_update(polled_maps(*old(state)), string_set(task.bpf_map_paths@)) {
            Ok(s) => r is Ok && polled_maps(*final(state)) == s,
            Err(conflicts) => *final(state) == *old(state) && (r matches Err(TaskError::MapsInUse(c)) && string_set(c@)
                == conflicts),
        },
{
    let new_maps = distinct_strings(&task.bpf_map_paths);
    let ghost task_maps = string_set(task.bpf_map_paths@);
    let mut active = match state.take() {
        None => {
            *state = Some(ActiveState { polled_bpf_maps: new_maps });
            return Ok(());
        },
        Some(a) => a,
    };
    let ghost polled = active.maps();
    let mut conflicts: Vec<String> = Vec::new();
    let mut i: usize = 0;
    while i < new_maps.len()
        invariant
            i <= new_maps@.len(),
            string_set(new_maps@) == task_maps,
            polled == active.maps(),
            string_set(conflicts@) == polled.intersect(string_set(new_maps@.take(i as int))),
        decreases new_maps@.len() - i,
    {
        let ghost before = conflicts@;
        if active.polls(new_maps[i].as_str()) {
            conflicts.push(new_maps[i].clone());
        }
        proof {
            lemma_string_set_take(new_maps@, i as int);
            if polled.contains(new_maps@[i as int]@) {
                lemma_string_set_push(before, new_maps@[i as int]);
            }
            assert(string_set(conflicts@) =~= polled.intersect(string_set(new_maps@.take(i + 1))));
        }
        i = i + 1;
    }
    assert(new_maps@.take(i as int) =~= new_maps@);
    if conflicts.len() > 0 {
        assert(string_set(conflicts@).contains(conflicts@[0]@));
        *state = Some(active);
        return Err(TaskError::MapsInUse(conflicts));
    }
    assert(string_set(conflicts@) =~= Set::<Seq<char>>::empty()) by {
        if exists|x: Seq<char>| string_set(conflicts@).contains(x) {
            let x = choose|x: Seq<char>| string_set(conflicts@).contains(x);
            let k = choose|k: int| 0 <= k < conflicts@.len() && conflicts@[k]@ == x;
        }
    }
    let ghost old_maps = active.polled_bpf_maps@;
    let mut j: usize = 0;
    while j < new_maps.len()
        invariant
            j <= new_maps@.len(),
            strings_distinct(new_maps@),
            strings_distinct(active.polled_bpf_maps@),
            polled == string_set(old_maps),
            polled.intersect(string_set(new_maps@)) == Set::<Seq<char>>::empty(),
            active.polled_bpf_maps@ == old_maps + new_maps@.take(j as int),
        decreases new_maps@.len() - j,
    {
        let ghost before = active.polled_bpf_maps@;
        active.polled_bpf_maps.push(new_maps[j].clone());
        assert(active.polled_bpf_maps@ =~= old_maps + new_maps@.take(j + 1));
        assert forall|a: int, b: int| 0 <= a < b < active.polled_bpf_maps@.len() implies active.polled_bpf_maps@[a]@
            != active.polled_bpf_maps@[b]@ by {
            let p = active.polled_bpf_maps@;
            if b < before.len() {
                assert(before[a]@ != before[b]@);
            } else if a < old_maps.len() {
                assert(p[a] == old_maps[a]);
                assert(p[b] == new_maps@[j as int]);
                assert(polled.contains(old_maps[a]@));
                assert(string_set(new_maps@).contains(new_maps@[j as int]@));
                if p[a]@ == p[b]@ {
                    assert(polled.intersect(string_set(new_maps@)).contains(p[a]@));
                }
            } else {
                assert(p[a] == new_maps@[a - old_maps.len()]);
                assert(p[b] == new_maps@[j as int]);
            }
        }
        j = j + 1;
    }
    assert(string_set(active.polled_bpf_maps@) =~= polled.union(task_maps)) by {
        assert(new_maps@.take(j as int) =~= new_maps@);
        let p = active.polled_bpf_maps@;
        assert forall|x: Seq<char>| polled.union(task_maps).contains(x) implies string_set(p).contains(x) by {
            if polled.contains(x) {
                let k = choose|k: int| 0 <= k < old_maps.len() && old_maps[k]@ == x;
                assert(p[k] == old_maps[k]);
            } else {
                let k = choose|k: int| 0 <= k < new_maps@.len() && new_maps@[k]@ == x;
                assert(p[old_maps.len() + k] == new_maps@[k]);
            }
        }
        assert forall|x: Seq<char>| string_set(p).contains(x) implies polled.union(task_maps).contains(x) by {
            let k = choose|k: int| 0 <= k < p.len() && p[k]@ == x;
            if k < old_maps.len() {
                assert(p[k] == old_maps[k]);
            } else {
                assert(p[k] == new_maps@[k - old_maps.len()]);
            }
        }
    }
    *state = Some(active);
    Ok(())
}

/// Step 4: cleans up the global state: the task's maps are no longer polled, and when no
/// map is polled any more the active state is removed. A task is only cleaned up while the
/// state is active.
pub fn cleanup_polled_bpf_maps(state: &mut Option<ActiveState>, task: &ResolvedTask)
    requires
        state_wf(*old(state)),
        (*old(state)) is Some,
    ensures
        state_wf(*final(state)),
        polled_maps(*final(state)) == spec_cleanup(polled_maps(*old(state))->0, string_set(task.bpf_map_paths@)),
{
    let mut active = match state.take() {
        Some(a) => a,
        None => {
            return;
        },
    };
    let ghost polled = active.maps();
    let ghost paths = task.bpf_map_paths@;
    let mut i: usize = 0;
    while i < task.bpf_map_paths.len()
        invariant
            i <= paths.len(),
            paths == task.bpf_map_paths@,
            active.wf(),
            active.maps() == polled.difference(string_set(paths.take(i as int))),
        decreases paths.len() - i,
    {
        active.forget(task.bpf_map_paths[i].as_str());
        proof {
            lemma_string_set_take(paths, i as int);
            assert(active.maps() =~= polled.difference(string_set(paths.take(i + 1))));
        }
        i = i + 1;
    }
    assert(paths.take(i as int) =~= paths);
    if active.is_empty() {
        *state = None;
    } else {
        *state = Some(active);
    }
}

/// Starting a task and then cleaning it up leaves the polled maps as they were; a state
/// that was inactive, or active with no map, becomes inactive.
pub proof fn lemma_update_then_cleanup(state: Option<Set<Seq<char>>>, task_maps: Set<Seq<char>>)
    requires
        spec_update(state, task_maps) is Ok,
    ensures
        spec_cleanup(spec_update(state, task_maps)->Ok_0->0, task_maps) == match state {
            None => None,
            Some(polled) => if polled == Set::<Seq<char>>::empty() {
                None
            } else {
                Some(polled)
            },
        },
{
    match state {
        None => {
            assert(task_maps.difference(task_maps) =~= Set::<Seq<char>>::empty());
        },
        Some(polled) => {
            assert(polled.union(task_maps).difference(task_maps) =~= polled) by {
                assert forall|x: Seq<char>| polled.contains(x) implies !task_maps.contains(x) by {
                    if task_maps.contains(x) {
                        assert(polled.intersect(task_maps).contains(x));
                    }
                }
            }
        },
    }
}

/// A task is refused exactly when one of its maps is already polled, and a refused task
/// leaves the polled maps unchanged.
pub proof fn lemma_conflicting_task_refused(polled: Set<Seq<char>>, task_maps: Set<Seq<char>>, map: Seq<char>)
    requires
        polled.contains(map),
        task_maps.contains(map),
    ensures
        spec_update(Some(polled), task_maps) matches Err(conflicts) && conflicts.contains(map),
{
    assert(polled.intersect(task_maps).contains(map));
    assert(polled.intersect(task_maps) != Set::<Seq<char>>::empty());
}

/// The views of the probes, in order.
pub open spec fn probe_views(probes: Seq<ResolvedProbe>) -> Seq<ResolvedProbeView> {
    probes.map_values(|p: ResolvedProbe| p@)
}

/// The probe attaches the binder transaction program.
pub open spec fn is_binder_probe(probe: ResolvedProbeView) -> bool {
    contains_infix(probe.bpf_program_path, BINDER_BPF_PROGRAM_NAME@)
}

/// The map entries of a probe's binder transaction filters, interface by interface: the
/// interface and its method ids as transaction codes; an interface without methods is an
/// error.
pub open spec fn interface_entries(filters: Seq<(Seq<char>, Seq<(u64, MethodConfigView)>)>) -> Result<
    Seq<(Seq<char>, Seq<u64>)>,
    TaskErrorView,
>
    decreases filters.len(),
{
    if filters.len() == 0 {
        Ok(Seq::empty())
    } else {
        match interface_entries(filters.drop_last()) {
            Err(e) => Err(e),
            Ok(prev) => {
                let last = filters.last();
                if last.1.len() == 0 {
                    Err(TaskErrorView::MissingMethodIds(last.0))
                } else {
                    Ok(prev.push((last.0, last.1.map_values(|m: (u64, MethodConfigView)| m.0))))
                }
            },
        }
    }
}

/// The entries that the binder interface map receives for a task's probes: those of every
/// binder transaction probe, in order; a binder transaction probe without filters is an
/// error.
pub open spec fn binder_entries(probes: Seq<ResolvedProbeView>) -> Result<Seq<(Seq<char>, Seq<u64>)>, TaskErrorView>
    decreases probes.len(),
{
    if probes.len() == 0 {
        Ok(Seq::empty())
    } else {
        match binder_entries(probes.drop_last()) {
            Err(e) => Err(e),
            Ok(prev) => {
                let p = probes.last();
                if !is_binder_probe(p) {
                    Ok(prev)
                } else if p.binder_transaction_filters.len() == 0 {
                    Err(TaskErrorView::MissingBinderFilter)
                } else {
                    match interface_entries(p.binder_transaction_filters) {
                        Err(e) => Err(e),
                        Ok(entries) => Ok(prev + entries),
                    }
                }
            },
        }
    }
}

/// The views of map entries, in order.
pub open spec fn entry_views(entries: Seq<(String, Vec<u64>)>) -> Seq<(Seq<char>, Seq<u64>)> {
    entries.map_values(|e: (String, Vec<u64>)| (e.0@, e.1@))
}

/// Appends the map entries of one probe's filters (`interface_entries`).
fn push_interface_entries(probe: &ResolvedProbe, out: &mut Vec<(String, Vec<u64>)>) -> (r: Result<(), TaskError>)
    ensures
        match interface_entries(probe@.binder_transaction_filters) {
            Ok(entries) => r is Ok && entry_views(final(out)@) == entry_views(old(out)@) + entries,
            Err(e) => r matches Err(x) && x@ == e,
        },
{
    let filters = &probe.binder_transaction_filters;
    let ghost fs = filters@;
    let ghost start = entry_views(out@);
    let mut i: usize = 0;
    assert(fs.take(0) =~= Seq::<(Seq<char>, Seq<(u64, MethodConfigView)>)>::empty());
    assert(start + Seq::<(Seq<char>, Seq<u64>)>::empty() =~= start);
    while i < filters.len()
        invariant
            i <= fs.len(),
            fs == filters@,
            fs == probe@.binder_transaction_filters,
            interface_entries(fs.take(i as int)) matches Ok(es) && entry_views(out@) == start + es,
        decreases fs.len() - i,
    {
        assert(fs.take(i + 1).drop_last() =~= fs.take(i as int));
        let (name, config) = filters.entry(i);
        let ids = config.method_ids();
        if ids.len() == 0 {
            proof {
                lemma_interface_entries_error(fs, i as int);
            }
            return Err(TaskError::MissingMethodIds(name.clone()));
        }
        let ghost before = out@;
        out.push((name.clone(), ids));
        assert(entry_views(out@) =~= entry_views(before).push((name@, ids@)));
        i = i + 1;
    }
    assert(fs.take(i as int) =~= fs);
    Ok(())
}

proof fn lemma_interface_entries_error(fs: Seq<(Seq<char>, Seq<(u64, MethodConfigView)>)>, i: int)
    requires
        0 <= i < fs.len(),
        interface_entries(fs.take(i)) is Ok,
        fs[i].1.len() == 0,
    ensures
        interface_entries(fs) == Err::<Seq<(Seq<char>, Seq<u64>)>, TaskErrorView>(TaskErrorView::MissingMethodIds(fs[i].0)),
    decreases fs.len(),
{
    if fs.len() > i + 1 {
        assert(fs.drop_last().take(i) =~= fs.take(i));
        lemma_interface_entries_error(fs.drop_last(), i);
    } else {
        assert(fs.drop_last() =~= fs.take(i));
    }
}

/// The entries that the binder interface map receives for the probes (`binder_entries`).
pub fn binder_filter_entries(probes: &Vec<ResolvedProbe>) -> (r: Result<Vec<(String, Vec<u64>)>, TaskError>)
    ensures
        match binder_entries(probe_views(probes@)) {
            Ok(entries) => r matches Ok(v) && entry_views(v@) == entries,
            Err(e) => r matches Err(x) && x@ == e,
        },
{
    let ghost ps = probe_views(probes@);
    let mut out: Vec<(String, Vec<u64>)> = Vec::new();
    let mut i: usize = 0;
    assert(ps.take(0) =~= Seq::<ResolvedProbeView>::empty());
    assert(entry_views(out@) =~= Seq::<(Seq<char>, Seq<u64>)>::empty());
    while i < probes.len()
        invariant
            i <= ps.len(),
            ps == probe_views(probes@),
            binder_entries(ps.take(i as int)) matches Ok(es) && entry_views(out@) == es,
        decreases ps.len() - i,
    {
        assert(ps.take(i + 1).drop_last() =~= ps.take(i as int));
        assert(ps.take(i + 1).last() == probes@[i as int]@);
        let probe = &probes[i];
        if contains_str(probe.bpf_program_path.as_str(), BINDER_BPF_PROGRAM_NAME) {
            if probe.binder_transaction_filters.len() == 0 {
                proof {
                    lemma_binder_entries_error(ps, i as int, TaskErrorView::MissingBinderFilter);
                }
                return Err(TaskError::MissingBinderFilter);
            }
            match push_interface_entries(probe, &mut out) {
                Ok(()) => {},
                Err(e) => {
                    proof {
                        lemma_binder_entries_error(ps, i as int, e@);
                    }
                    return Err(e);
                },
            }
        }
        i = i + 1;
    }
    assert(ps.take(i as int) =~= ps);
    Ok(out)
}

proof fn lemma_binder_entries_error(ps: Seq<ResolvedProbeView>, i: int, e: TaskErrorView)
    requires
        0 <= i < ps.len(),
        binder_entries(ps.take(i)) is Ok,
        binder_entries(ps.take(i + 1)) == Err::<Seq<(Seq<char>, Seq<u64>)>, TaskErrorView>(e),
    ensures
        binder_entries(ps) == Err::<Seq<(Seq<char>, Seq<u64>)>, TaskErrorView>(e),
    decreases ps.len(),
{
    if ps.len() > i + 1 {
        assert(ps.drop_last().take(i) =~= ps.take(i));
        assert(ps.drop_last().take(i + 1) =~= ps.take(i + 1));
        lemma_binder_entries_error(ps.drop_last(), i, e);
    } else {
        assert(ps =~= ps.take(i + 1));
    }
}

/// Whether a probe of the task attaches the binder transaction program, so that the
/// binder interface map is needed.
pub fn has_binder_probe(probes: &Vec<ResolvedProbe>) -> (r: bool)
    ensures
        r == exists|i: int| 0 <= i < probes@.len() && #[trigger] is_binder_probe(probes@[i]@),
{
    let mut i: usize = 0;
    while i < probes.len()
        invariant
            i <= probes@.len(),
            forall|k: int| 0 <= k < i ==> !#[trigger] is_binder_probe(probes@[k]@),
        decreases probes@.len() - i,
    {
        if contains_str(probes[i].bpf_program_path.as_str(), BINDER_BPF_PROGRAM_NAME) {
            assert(is_binder_probe(probes@[i as int]@));
            return true;
        }
        i = i + 1;
    }
    false
}

} // verus!
