use vstd::prelude::*;

use crate::compiler::{
    buffer_id_ok, entry_buffer_count, entry_ids_ok, input_ids_ok, lemma_port_buffer_count_monotone,
    lemma_schedule_buffer_count_monotone, port_buffer_count, schedule_buffer_count, schedule_ok,
};
use crate::graph_state::{ScheduledInput, ScheduledNode};
use crate::interface::GraphInterface;

verus! {

/// Whether every buffer feeding `input` has an index the pool can grow to.
fn input_ids_within(input: &ScheduledInput) -> (r: bool)
    ensures
        r == input_ids_ok(*input),
{
    let mut b: usize = 0;
    while b < input.buffers.len()
        invariant
            b <= input.buffers@.len(),
            forall|j: int| 0 <= j < b ==> buffer_id_ok(#[trigger] input.buffers@[j].buffer_id),
        decreases input.buffers@.len() - b,
    {
        if input.buffers[b].buffer_id >= usize::MAX - 1 {
            return false;
        }
        b = b + 1;
    }
    true
}

/// Whether every buffer of `entry` has an index the pool can grow to.
fn entry_ids_within(entry: &ScheduledNode) -> (r: bool)
    ensures
        r == entry_ids_ok(*entry),
{
    let mut j: usize = 0;
    while j < entry.inputs.len()
        invariant
            j <= entry.inputs@.len(),
            forall|i: int| 0 <= i < j ==> input_ids_ok(#[trigger] entry.inputs@[i]),
        decreases entry.inputs@.len() - j,
    {
        if !input_ids_within(&entry.inputs[j]) {
            return false;
        }
        j = j + 1;
    }
    let mut o: usize = 0;
    while o < entry.outputs.len()
        invariant
            o <= entry.outputs@.len(),
            forall|i: int| 0 <= i < entry.inputs@.len() ==> input_ids_ok(#[trigger] entry.inputs@[i]),
            forall|i: int| 0 <= i < o ==> buffer_id_ok(#[trigger] entry.outputs@[i].buffer_id),
        decreases entry.outputs@.len() - o,
    {
        if entry.outputs[o].buffer_id >= usize::MAX - 1 {
            return false;
        }
        o = o + 1;
    }
    true
}

/// The number of buffers feeding the input ports of `entry`, when it is
/// below `usize::MAX`.
fn entry_input_count(entry: &ScheduledNode) -> (r: Option<usize>)
    ensures
        match r {
            Some(c) => c == entry_buffer_count(*entry) && c < usize::MAX,
            None => entry_buffer_count(*entry) >= usize::MAX,
        },
{
    let mut sum: usize = 0;
    let mut j: usize = 0;
    while j < entry.inputs.len()
        invariant
            j <= entry.inputs@.len(),
            sum == port_buffer_count(entry.inputs@, j as int),
            sum < usize::MAX,
        decreases entry.inputs@.len() - j,
    {
        let n = entry.inputs[j].buffers.len();
        if n >= usize::MAX - sum {
            proof {
                lemma_port_buffer_count_monotone(
                    entry.inputs@,
                    j + 1,
                    entry.inputs@.len() as int,
                );
            }
            return None;
        }
        sum = sum + n;
        j = j + 1;
    }
    Some(sum)
}

/// Whether `schedule` is within the limits that `compile_graph` works in:
/// every buffer index leaves room to grow the pool to it, no entry is fed by
/// `usize::MAX` buffers or more, and naming a new delay compensation or sum
/// node for every input buffer cannot overflow the graph's counters.
pub fn schedule_within_limits(graph: &GraphInterface, schedule: &Vec<ScheduledNode>) -> (r: bool)
    ensures
        r <==> (schedule_ok(schedule@) && graph.next_delay_comp_node_id + schedule_buffer_count(
            schedule@,
            schedule@.len() as int,
        ) <= u64::MAX && graph.next_sum_node_id + schedule_buffer_count(
            schedule@,
            schedule@.len() as int,
        ) <= u64::MAX),
{
    let mut total: u64 = 0;
    let mut k: usize = 0;
    while k < schedule.len()
        invariant
            k <= schedule@.len(),
            total == schedule_buffer_count(schedule@, k as int),
            forall|i: int| 0 <= i < k ==> entry_ids_ok(#[trigger] schedule@[i]),
            forall|i: int| 0 <= i < k ==> #[trigger] entry_buffer_count(schedule@[i]) < usize::MAX,
        decreases schedule@.len() - k,
    {
        if !entry_ids_within(&schedule[k]) {
            assert(!entry_ids_ok(schedule@[k as int]));
            return false;
        }
        match entry_input_count(&schedule[k]) {
            None => {
                assert(entry_buffer_count(schedule@[k as int]) >= usize::MAX);
                return false;
            },
            Some(c) => {
                let c64 = c as u64;
                if c64 > u64::MAX - total {
                    proof {
                        lemma_schedule_buffer_count_monotone(
                            schedule@,
                            k + 1,
                            schedule@.len() as int,
                        );
                    }
                    return false;
                }
                total = total + c64;
            },
        }
        k = k + 1;
    }
    graph.next_delay_comp_node_id <= u64::MAX - total && graph.next_sum_node_id <= u64::MAX - total
}

} // verus!
