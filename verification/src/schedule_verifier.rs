use vstd::prelude::*;

use crate::error::CompilerError;
use crate::lists::{BufferPairList, ProcBufferList};
use crate::proc_buffers::ProcBuffer;
use crate::resource_pool::{DebugBufferID, DebugNodeID, DebugNodeType};
use crate::shared::SharedBuffer;
use crate::task::{
    AssignmentModel, AudioGraphTask, MimicProcessReplacingTask, ProcBufferAssignment, TaskModel,
    tasks_model,
};

verus! {

/// The debug identifiers of the buffers in `s`, in order.
pub open spec fn proc_buffer_ids(s: Seq<ProcBuffer>) -> Seq<DebugBufferID> {
    s.map_values(|b: ProcBuffer| b.buffer.debug_id)
}

/// The debug identifiers of all buffers of an assignment, in the order the
/// verifier visits them.
pub open spec fn assignment_buffer_ids(a: AssignmentModel) -> Seq<DebugBufferID> {
    proc_buffer_ids(a.mono_replacing) + proc_buffer_ids(a.indep_mono_in) + proc_buffer_ids(
        a.indep_mono_out,
    ) + proc_buffer_ids(a.stereo_replacing) + proc_buffer_ids(a.indep_stereo_in)
        + proc_buffer_ids(a.indep_stereo_out)
}

/// Scanning `s` from the left after having seen `seen`: the first identifier
/// seen before.
pub open spec fn first_dup_after(seen: Seq<DebugBufferID>, s: Seq<DebugBufferID>) -> Option<
    DebugBufferID,
>
    decreases s.len(),
{
    if s.len() == 0 {
        None
    } else if seen.contains(s[0]) {
        Some(s[0])
    } else {
        first_dup_after(seen.push(s[0]), s.drop_first())
    }
}

/// The first pair of `s` whose two buffers carry the same debug identifier,
/// by that identifier.
pub open spec fn first_equal_pair_from(s: Seq<(SharedBuffer, SharedBuffer)>, i: int) -> Option<
    DebugBufferID,
>
    decreases s.len() - i,
{
    if i < 0 || i >= s.len() {
        None
    } else if s[i].0.debug_id == s[i].1.debug_id {
        Some(s[i].0.debug_id)
    } else {
        first_equal_pair_from(s, i + 1)
    }
}

/// What the verifier answers for `tasks[i..]`, having seen the node
/// identifiers (type and index) in `seen`.
pub open spec fn verify_from(tasks: Seq<TaskModel>, i: int, seen: Seq<(DebugNodeType, u64)>) -> Result<
    (),
    CompilerError,
>
    decreases tasks.len() - i,
{
    if i < 0 || i >= tasks.len() {
        Ok(())
    } else {
        match tasks[i] {
            TaskModel::Node(id, a) => {
                if seen.contains(id.key()) {
                    Err(CompilerError::NodeAppearsTwice(id))
                } else {
                    match first_dup_after(Seq::empty(), assignment_buffer_ids(a)) {
                        Some(b) => Err(CompilerError::BufferAppearsTwice(b)),
                        None => verify_from(tasks, i + 1, seen.push(id.key())),
                    }
                }
            },
            TaskModel::CopyMono(s) => match first_equal_pair_from(s, 0) {
                Some(b) => Err(CompilerError::BufferAppearsTwice(b)),
                None => verify_from(tasks, i + 1, seen),
            },
            TaskModel::CopyStereo(s) => match first_equal_pair_from(s, 0) {
                Some(b) => Err(CompilerError::BufferAppearsTwice(b)),
                None => verify_from(tasks, i + 1, seen),
            },
            _ => verify_from(tasks, i + 1, seen),
        }
    }
}

/// What the verifier answers for a schedule: the first node that appears a
/// second time, or the first buffer that appears twice in one task (or is
/// copied onto itself), in schedule order; otherwise `Ok`.
pub open spec fn verify_spec(tasks: Seq<TaskModel>) -> Result<(), CompilerError> {
    verify_from(tasks, 0, Seq::empty())
}

/// Scanning `a` and then `b` is scanning `a` and, when nothing turned up,
/// scanning `b` having seen `a` too.
pub proof fn lemma_first_dup_after_append(
    seen: Seq<DebugBufferID>,
    a: Seq<DebugBufferID>,
    b: Seq<DebugBufferID>,
)
    ensures
        first_dup_after(seen, a + b) == match first_dup_after(seen, a) {
            Some(x) => Some(x),
            None => first_dup_after(seen + a, b),
        },
    decreases a.len(),
{
    if a.len() == 0 {
        assert(a + b =~= b);
        assert(seen + a =~= seen);
    } else {
        assert((a + b)[0] == a[0]);
        assert((a + b).drop_first() =~= a.drop_first() + b);
        lemma_first_dup_after_append(seen.push(a[0]), a.drop_first(), b);
        assert(seen.push(a[0]) + a.drop_first() =~= seen + a);
    }
}

/// Checks a schedule before it is handed to the realtime thread.
pub struct Verifier {
    /// Used to verify that a node does not appear more than once in the schedule.
    verify_no_duplicate_nodes: Vec<DebugNodeID>,
    /// Used to verify that a buffer does not appear more than once in the same task.
    verify_no_duplicate_buffers: Vec<DebugBufferID>,
}

impl Verifier {
    /// The nodes seen so far by the check in progress.
    pub closed spec fn seen_nodes(&self) -> Seq<DebugNodeID> {
        self.verify_no_duplicate_nodes@
    }

    /// The buffers seen so far in the task being checked.
    pub closed spec fn seen_buffers(&self) -> Seq<DebugBufferID> {
        self.verify_no_duplicate_buffers@
    }

    /// A verifier with empty scratch lists.
    pub fn new() -> (r: Self)
        ensures
            r.seen_nodes() == Seq::<DebugNodeID>::empty(),
            r.seen_buffers() == Seq::<DebugBufferID>::empty(),
    {
        Verifier { verify_no_duplicate_nodes: Vec::new(), verify_no_duplicate_buffers: Vec::new() }
    }

    /// Check that no node appears more than once in the schedule, that no
    /// buffer appears more than once in the same node task, and that no buffer
    /// is copied onto itself.
    pub fn verify_no_data_races(&mut self, tasks: &Vec<AudioGraphTask>) -> (r: Result<
        (),
        CompilerError,
    >)
        ensures
            r == verify_spec(tasks_model(tasks@)),
    {
        let ghost tm = tasks_model(tasks@);
        self.verify_no_duplicate_nodes.clear();
        assert(self.verify_no_duplicate_nodes@.map_values(|n: DebugNodeID| n.key()) =~= Seq::<
            (DebugNodeType, u64),
        >::empty());
        let mut i: usize = 0;
        while i < tasks.len()
            invariant
                i <= tasks@.len(),
                tm == tasks_model(tasks@),
                verify_spec(tm) == verify_from(
                    tm,
                    i as int,
                    self.verify_no_duplicate_nodes@.map_values(|n: DebugNodeID| n.key()),
                ),
            decreases tasks@.len() - i,
        {
            let ghost seen = self.verify_no_duplicate_nodes@.map_values(|n: DebugNodeID| n.key());
            self.verify_no_duplicate_buffers.clear();
            match &tasks[i] {
                AudioGraphTask::Node(node_task) => {
                    let id = node_task.node;
                    if contains_node(&self.verify_no_duplicate_nodes, id) {
                        return Err(CompilerError::NodeAppearsTwice(id));
                    }
                    if let Some(b) = check_assignment(
                        &mut self.verify_no_duplicate_buffers,
                        &node_task.proc_buffer_assignment,
                    ) {
                        return Err(CompilerError::BufferAppearsTwice(b));
                    }
                    self.verify_no_duplicate_nodes.push(id);
                    proof {
                        assert(self.verify_no_duplicate_nodes@.map_values(
                            |n: DebugNodeID| n.key(),
                        ) =~= seen.push(id.key()));
                    }
                },
                AudioGraphTask::MimicProcessReplacing(step) => match step {
                    MimicProcessReplacingTask::CopyMonoBuffers(copy_task) => {
                        if let Some(b) = check_copy_pairs(copy_task) {
                            return Err(CompilerError::BufferAppearsTwice(b));
                        }
                    },
                    MimicProcessReplacingTask::CopyStereoBuffers(copy_task) => {
                        if let Some(b) = check_copy_pairs(copy_task) {
                            return Err(CompilerError::BufferAppearsTwice(b));
                        }
                    },
                    MimicProcessReplacingTask::ClearMonoBuffers(_) => {},
                    MimicProcessReplacingTask::ClearStereoBuffers(_) => {},
                },
            }
            i = i + 1;
        }
        Ok(())
    }
}

/// Whether a node with the same type and index as `id` is in `seen`.
fn contains_node(seen: &Vec<DebugNodeID>, id: DebugNodeID) -> (r: bool)
    ensures
        r == seen@.map_values(|n: DebugNodeID| n.key()).contains(id.key()),
{
    let ghost keys = seen@.map_values(|n: DebugNodeID| n.key());
    let mut j: usize = 0;
    while j < seen.len()
        invariant
            j <= seen@.len(),
            keys == seen@.map_values(|n: DebugNodeID| n.key()),
            forall|k: int| 0 <= k < j ==> keys[k] != id.key(),
        decreases seen@.len() - j,
    {
        if seen[j].node_type == id.node_type && seen[j].index == id.index {
            assert(keys[j as int] == id.key());
            return true;
        }
        j = j + 1;
    }
    false
}

/// Scan the buffers of `list` after those in `seen`; on the first repeated
/// identifier stop and name it, otherwise add them all to `seen`.
fn check_list(seen: &mut Vec<DebugBufferID>, list: &ProcBufferList) -> (r: Option<DebugBufferID>)
    ensures
        r == first_dup_after(old(seen)@, proc_buffer_ids(list@)),
        r is None ==> final(seen)@ == old(seen)@ + proc_buffer_ids(list@),
{
    let ghost s0 = seen@;
    let ghost ids = proc_buffer_ids(list@);
    let n = list.len();
    let mut j: usize = 0;
    assert(ids.skip(0) =~= ids);
    assert(s0 + ids.take(0) =~= s0);
    while j < n
        invariant
            n == list@.len(),
            s0 == old(seen)@,
            ids == proc_buffer_ids(list@),
            j <= n,
            seen@ == s0 + ids.take(j as int),
            first_dup_after(s0, ids) == first_dup_after(seen@, ids.skip(j as int)),
        decreases n - j,
    {
        let id = list.get(j).buffer.debug_id;
        proof {
            assert(ids.skip(j as int).len() > 0);
            assert(ids.skip(j as int)[0] == id);
            assert(ids.skip(j as int).drop_first() =~= ids.skip(j + 1));
            assert(s0 + ids.take(j + 1) =~= (s0 + ids.take(j as int)).push(id));
        }
        if contains_buffer(seen, id) {
            assert(seen@.contains(ids.skip(j as int)[0]));
            assert(first_dup_after(seen@, ids.skip(j as int)) == Some(id));
            return Some(id);
        }
        seen.push(id);
        j = j + 1;
    }
    proof {
        assert(ids.skip(n as int) =~= Seq::<DebugBufferID>::empty());
        assert(ids.take(n as int) =~= ids);
    }
    None
}

/// Whether `id` is in `seen`.
fn contains_buffer(seen: &Vec<DebugBufferID>, id: DebugBufferID) -> (r: bool)
    ensures
        r == seen@.contains(id),
{
    let mut j: usize = 0;
    while j < seen.len()
        invariant
            j <= seen@.len(),
            forall|k: int| 0 <= k < j ==> seen@[k] != id,
        decreases seen@.len() - j,
    {
        if seen[j] == id {
            return true;
        }
        j = j + 1;
    }
    false
}

/// Scan all buffers of a node task, in order, starting from an empty `seen`.
fn check_assignment(seen: &mut Vec<DebugBufferID>, a: &ProcBufferAssignment) -> (r: Option<
    DebugBufferID,
>)
    requires
        old(seen)@ == Seq::<DebugBufferID>::empty(),
    ensures
        r == first_dup_after(Seq::empty(), assignment_buffer_ids(a.model())),
{
    let ghost m = a.model();
    let ghost l0 = proc_buffer_ids(m.mono_replacing);
    let ghost l1 = proc_buffer_ids(m.indep_mono_in);
    let ghost l2 = proc_buffer_ids(m.indep_mono_out);
    let ghost l3 = proc_buffer_ids(m.stereo_replacing);
    let ghost l4 = proc_buffer_ids(m.indep_stereo_in);
    let ghost l5 = proc_buffer_ids(m.indep_stereo_out);
    let ghost e = Seq::<DebugBufferID>::empty();
    proof {
        lemma_first_dup_after_append(e, l0 + l1 + l2 + l3 + l4, l5);
        lemma_first_dup_after_append(e, l0 + l1 + l2 + l3, l4);
        lemma_first_dup_after_append(e, l0 + l1 + l2, l3);
        lemma_first_dup_after_append(e, l0 + l1, l2);
        lemma_first_dup_after_append(e, l0, l1);
        assert(e + l0 =~= l0);
        assert(e + (l0 + l1) =~= l0 + l1);
        assert(e + (l0 + l1 + l2) =~= l0 + l1 + l2);
        assert(e + (l0 + l1 + l2 + l3) =~= l0 + l1 + l2 + l3);
        assert(e + (l0 + l1 + l2 + l3 + l4) =~= l0 + l1 + l2 + l3 + l4);
    }
    if let Some(b) = check_list(seen, &a.mono_replacing) {
        return Some(b);
    }
    if let Some(b) = check_list(seen, &a.indep_mono_in) {
        return Some(b);
    }
    if let Some(b) = check_list(seen, &a.indep_mono_out) {
        return Some(b);
    }
    if let Some(b) = check_list(seen, &a.stereo_replacing) {
        return Some(b);
    }
    if let Some(b) = check_list(seen, &a.indep_stereo_in) {
        return Some(b);
    }
    check_list(seen, &a.indep_stereo_out)
}

/// The first pair of `list` whose two buffers carry the same debug identifier.
fn check_copy_pairs(list: &BufferPairList) -> (r: Option<DebugBufferID>)
    ensures
        r == first_equal_pair_from(list@, 0),
{
    let n = list.len();
    let mut j: usize = 0;
    while j < n
        invariant
            n == list@.len(),
            j <= n,
            first_equal_pair_from(list@, 0) == first_equal_pair_from(list@, j as int),
        decreases n - j,
    {
        let (b1, b2) = list.get(j);
        if b1.debug_id == b2.debug_id {
            return Some(b1.debug_id);
        }
        j = j + 1;
    }
    None
}

// ---------------------------------------------------------------------------
// What the verifier checks, stated directly.
// ---------------------------------------------------------------------------

/// No identifier occurs twice in `s`.
pub open spec fn ids_distinct(s: Seq<DebugBufferID>) -> bool {
    forall|i: int, j: int| 0 <= i < j < s.len() ==> s[i] != s[j]
}

/// Whether `t` runs a node.
pub open spec fn is_node_task(t: TaskModel) -> bool {
    t is Node
}

/// The type and index of the node that `t` runs.
pub open spec fn node_task_key(t: TaskModel) -> (DebugNodeType, u64) {
    match t {
        TaskModel::Node(id, _) => id.key(),
        _ => (DebugNodeType::User, 0),
    }
}

/// A single task has no data race: a node task uses each buffer once, and a
/// copy never copies a buffer onto itself.
pub open spec fn task_race_free(t: TaskModel) -> bool {
    match t {
        TaskModel::Node(_, a) => ids_distinct(assignment_buffer_ids(a)),
        TaskModel::CopyMono(s) => forall|k: int| 0 <= k < s.len() ==> #[trigger] s[k].0.debug_id != s[k].1.debug_id,
        TaskModel::CopyStereo(s) => forall|k: int| 0 <= k < s.len() ==> #[trigger] s[k].0.debug_id != s[k].1.debug_id,
        _ => true,
    }
}

/// A schedule without data races: no node runs twice, and no task races with itself.
pub open spec fn no_data_races(tasks: Seq<TaskModel>) -> bool {
    &&& forall|i: int, j: int|
        0 <= i < j < tasks.len() && is_node_task(tasks[i]) && is_node_task(tasks[j]) ==> node_task_key(
            #[trigger] tasks[i],
        ) != node_task_key(#[trigger] tasks[j])
    &&& forall|i: int| 0 <= i < tasks.len() ==> task_race_free(#[trigger] tasks[i])
}

/// Scanning `s` after `seen` finds nothing exactly when no identifier of `s`
/// was seen and none occurs twice in `s`.
pub proof fn lemma_first_dup_after_none(seen: Seq<DebugBufferID>, s: Seq<DebugBufferID>)
    ensures
        first_dup_after(seen, s) is None <==> (forall|k: int| 0 <= k < s.len() ==> !seen.contains(#[trigger] s[k]))
            && ids_distinct(s),
    decreases s.len(),
{
    if s.len() > 0 {
        let t = s.drop_first();
        lemma_first_dup_after_none(seen.push(s[0]), t);
        if first_dup_after(seen, s) is None {
            assert(!seen.contains(s[0]));
            assert forall|k: int| 0 <= k < s.len() implies !seen.contains(#[trigger] s[k]) by {
                if k > 0 {
                    assert(t[k - 1] == s[k]);
                    if seen.contains(s[k]) {
                        let w = choose|w: int| 0 <= w < seen.len() && seen[w] == s[k];
                        assert(seen.push(s[0])[w] == s[k]);
                    }
                }
            }
            assert forall|i: int, j: int| 0 <= i < j < s.len() implies s[i] != s[j] by {
                if i == 0 {
                    assert(t[j - 1] == s[j]);
                    assert(seen.push(s[0])[seen.len() as int] == s[0]);
                } else {
                    assert(t[i - 1] == s[i] && t[j - 1] == s[j]);
                }
            }
        }
        if (forall|k: int| 0 <= k < s.len() ==> !seen.contains(#[trigger] s[k])) && ids_distinct(s) {
            assert(!seen.contains(s[0]));
            assert forall|k: int| 0 <= k < t.len() implies !seen.push(s[0]).contains(#[trigger] t[k]) by {
                assert(t[k] == s[k + 1]);
                assert(!seen.contains(s[k + 1]));
                assert(s[0] != s[k + 1]);
                if seen.push(s[0]).contains(t[k]) {
                    let w = choose|w: int| 0 <= w < seen.push(s[0]).len() && seen.push(s[0])[w] == t[k];
                    if w < seen.len() {
                        assert(seen[w] == t[k]);
                    }
                }
            }
            assert forall|i: int, j: int| 0 <= i < j < t.len() implies t[i] != t[j] by {
                assert(s[i + 1] != s[j + 1]);
            }
        }
    }
}

/// The first equal pair at or after `i` is none exactly when there is none.
pub proof fn lemma_first_equal_pair_none(s: Seq<(SharedBuffer, SharedBuffer)>, i: int)
    requires
        0 <= i,
    ensures
        first_equal_pair_from(s, i) is None <==> forall|k: int| i <= k < s.len() ==> #[trigger] s[k].0.debug_id
            != s[k].1.debug_id,
    decreases s.len() - i,
{
    if i < s.len() {
        lemma_first_equal_pair_none(s, i + 1);
    }
}

/// What `verify_from` accepts, stated directly.
pub proof fn lemma_verify_from_ok(tasks: Seq<TaskModel>, i: int, seen: Seq<(DebugNodeType, u64)>)
    requires
        0 <= i <= tasks.len(),
    ensures
        verify_from(tasks, i, seen) is Ok <==> {
            &&& forall|j: int| i <= j < tasks.len() && is_node_task(tasks[j]) ==> !seen.contains(node_task_key(#[trigger] tasks[j]))
            &&& forall|j: int, k: int|
                i <= j < k < tasks.len() && is_node_task(tasks[j]) && is_node_task(tasks[k]) ==> node_task_key(
                    #[trigger] tasks[j],
                ) != node_task_key(#[trigger] tasks[k])
            &&& forall|j: int| i <= j < tasks.len() ==> task_race_free(#[trigger] tasks[j])
        },
    decreases tasks.len() - i,
{
    if i < tasks.len() {
        let t = tasks[i];
        match t {
            TaskModel::Node(id, a) => {
                lemma_first_dup_after_none(Seq::empty(), assignment_buffer_ids(a));
                let seen2 = seen.push(id.key());
                lemma_verify_from_ok(tasks, i + 1, seen2);
                assert(seen2[seen.len() as int] == id.key());
                assert forall|j: int| i + 1 <= j < tasks.len() && is_node_task(tasks[j]) && !seen2.contains(
                    node_task_key(tasks[j]),
                ) implies !seen.contains(node_task_key(#[trigger] tasks[j])) by {
                    if seen.contains(node_task_key(tasks[j])) {
                        let w = choose|w: int| 0 <= w < seen.len() && seen[w] == node_task_key(tasks[j]);
                        assert(seen2[w] == node_task_key(tasks[j]));
                    }
                }
                assert forall|j: int| i + 1 <= j < tasks.len() && is_node_task(tasks[j]) && !seen.contains(
                    node_task_key(tasks[j]),
                ) && node_task_key(tasks[j]) != id.key() implies !seen2.contains(node_task_key(#[trigger] tasks[j])) by {
                    if seen2.contains(node_task_key(tasks[j])) {
                        let w = choose|w: int| 0 <= w < seen2.len() && seen2[w] == node_task_key(tasks[j]);
                        if w < seen.len() {
                            assert(seen[w] == node_task_key(tasks[j]));
                        }
                    }
                }
            },
            TaskModel::CopyMono(s) => {
                lemma_first_equal_pair_none(s, 0);
                lemma_verify_from_ok(tasks, i + 1, seen);
            },
            TaskModel::CopyStereo(s) => {
                lemma_first_equal_pair_none(s, 0);
                lemma_verify_from_ok(tasks, i + 1, seen);
            },
            _ => {
                lemma_verify_from_ok(tasks, i + 1, seen);
            },
        }
    }
}

/// The verifier accepts a schedule exactly when it has no data races: no node
/// appears twice in the schedule, no buffer appears twice in the same node
/// task, and no buffer is copied onto itself.
pub proof fn lemma_verifier_accepts_iff_race_free(tasks: Seq<TaskModel>)
    ensures
        verify_spec(tasks) is Ok <==> no_data_races(tasks),
{
    lemma_verify_from_ok(tasks, 0, Seq::empty());
}

/// The verifier only ever complains of a node or a buffer appearing twice.
pub proof fn lemma_verify_from_errors(tasks: Seq<TaskModel>, i: int, seen: Seq<(DebugNodeType, u64)>)
    ensures
        verify_from(tasks, i, seen) matches Err(e) ==> (e is NodeAppearsTwice || e is BufferAppearsTwice),
    decreases tasks.len() - i,
{
    if 0 <= i < tasks.len() {
        match tasks[i] {
            TaskModel::Node(id, a) => {
                lemma_verify_from_errors(tasks, i + 1, seen.push(id.key()));
            },
            _ => {
                lemma_verify_from_errors(tasks, i + 1, seen);
            },
        }
    }
}

} // verus!
