//! Offloading compute tasks to edge nodes.
//!
//! CPU loads are thousandths of a core, memory is megabytes, network
//! latency is microseconds.

use vstd::prelude::*;

verus! {

/// Urgency of a compute task.
#[derive(Debug, Clone, Copy, PartialEq, Eq, Structural)]
pub enum TaskPriority {
    Low,
    Medium,
    High,
    Critical,
}

/// Rank used to order priorities, higher first.
pub open spec fn spec_priority_rank(p: TaskPriority) -> int {
    match p {
        TaskPriority::Low => 0,
        TaskPriority::Medium => 1,
        TaskPriority::High => 2,
        TaskPriority::Critical => 3,
    }
}

/// A unit of work that may be offloaded.
#[derive(Debug, Clone)]
pub struct ComputeTask {
    pub id: String,
    /// Processor demand in thousandths of a core.
    pub cpu_load_milli: u32,
    pub memory_mb: u64,
    pub deadline_ms: u32,
    pub priority: TaskPriority,
}

/// A remote node with spare capacity.
#[derive(Debug, Clone)]
pub struct EdgeNode {
    pub id: String,
    /// Spare processor capacity in thousandths of a core.
    pub available_cpu_milli: u32,
    pub available_memory_mb: u64,
    pub network_latency_us: u64,
    pub assigned_tasks: Vec<ComputeTask>,
}

/// Whether a node has capacity for a task.
pub open spec fn spec_fits(n: EdgeNode, t: ComputeTask) -> bool {
    n.available_cpu_milli >= t.cpu_load_milli && n.available_memory_mb >= t.memory_mb
}

/// Placement score of a node: its latency times its busyness; lower is
/// better, and busier or farther nodes score higher.
pub open spec fn spec_node_score(n: EdgeNode) -> int {
    n.network_latency_us * (1000 - n.available_cpu_milli)
}

/// Count of tasks assigned across all nodes.
pub open spec fn spec_total_assigned(nodes: Seq<EdgeNode>) -> int
    decreases nodes.len(),
{
    if nodes.len() == 0 {
        0
    } else {
        spec_total_assigned(nodes.drop_last()) + nodes.last().assigned_tasks@.len()
    }
}

/// Chooses tasks for edge nodes: a capacity threshold for local work, the
/// known nodes, and the queue of waiting tasks.
#[derive(Debug, Clone)]
pub struct FogComputingManager {
    /// Local CPU threshold above which work is offloaded, in thousandths.
    pub local_cpu_threshold_milli: u32,
    pub edge_nodes: Vec<EdgeNode>,
    pub task_queue: Vec<ComputeTask>,
}

impl FogComputingManager {
    /// A manager with no nodes and an empty queue.
    pub fn new(threshold_milli: u32) -> (r: FogComputingManager)
        ensures
            r.local_cpu_threshold_milli == threshold_milli,
            r.edge_nodes@.len() == 0,
            r.task_queue@.len() == 0,
    {
        FogComputingManager {
            local_cpu_threshold_milli: threshold_milli,
            edge_nodes: Vec::new(),
            task_queue: Vec::new(),
        }
    }

    /// Registers an edge node with fresh capacity and no tasks; a node
    /// already known under the same id is replaced.
    pub fn add_edge_node(&mut self, id: String, cpu_milli: u32, memory_mb: u64, latency_us: u64)
        ensures
            final(self).local_cpu_threshold_milli == old(self).local_cpu_threshold_milli,
            final(self).task_queue@ == old(self).task_queue@,
            ({
                ||| (exists|k: int|
                    {
                        &&& 0 <= k < old(self).edge_nodes@.len()
                        &&& (#[trigger] old(self).edge_nodes@[k]).id@ == id@
                        &&& final(self).edge_nodes@.len() == old(self).edge_nodes@.len()
                        &&& final(self).edge_nodes@[k].id@ == id@
                        &&& final(self).edge_nodes@[k].available_cpu_milli == cpu_milli
                        &&& final(self).edge_nodes@[k].available_memory_mb == memory_mb
                        &&& final(self).edge_nodes@[k].network_latency_us == latency_us
                        &&& final(self).edge_nodes@[k].assigned_tasks@.len() == 0
                        &&& forall|j: int|
                            0 <= j < old(self).edge_nodes@.len() && j != k
                                ==> #[trigger] final(self).edge_nodes@[j]
                                == old(self).edge_nodes@[j]
                    })
                ||| {
                    &&& final(self).edge_nodes@.len() == old(self).edge_nodes@.len() + 1
                    &&& final(self).edge_nodes@[final(self).edge_nodes@.len() - 1].id@ == id@
                    &&& final(self).edge_nodes@[final(self).edge_nodes@.len()
                        - 1].available_cpu_milli == cpu_milli
                    &&& final(self).edge_nodes@[final(self).edge_nodes@.len()
                        - 1].available_memory_mb == memory_mb
                    &&& final(self).edge_nodes@[final(self).edge_nodes@.len()
                        - 1].network_latency_us == latency_us
                    &&& final(self).edge_nodes@[final(self).edge_nodes@.len()
                        - 1].assigned_tasks@.len() == 0
                    &&& forall|j: int|
                        0 <= j < old(self).edge_nodes@.len() ==> #[trigger] final(self).edge_nodes@[j]
                            == old(self).edge_nodes@[j]
                }
            }),
    {
        let node = EdgeNode {
            id: clone_string(&id),
            available_cpu_milli: cpu_milli,
            available_memory_mb: memory_mb,
            network_latency_us: latency_us,
            assigned_tasks: Vec::new(),
        };
        let mut k: usize = 0;
        while k < self.edge_nodes.len()
            invariant
                k <= self.edge_nodes@.len(),
                self.edge_nodes@ == old(self).edge_nodes@,
                self.task_queue@ == old(self).task_queue@,
                self.local_cpu_threshold_milli == old(self).local_cpu_threshold_milli,
                node.id@ == id@,
                node.available_cpu_milli == cpu_milli,
                node.available_memory_mb == memory_mb,
                node.network_latency_us == latency_us,
                node.assigned_tasks@.len() == 0,
            decreases self.edge_nodes@.len() - k,
        {
            if string_eq(&self.edge_nodes[k].id, &id) {
                self.edge_nodes[k] = node;
                return ;
            }
            k = k + 1;
        }
        self.edge_nodes.push(node);
    }

    /// Appends a task to the waiting queue.
    pub fn queue_task(&mut self, task: ComputeTask)
        ensures
            final(self).task_queue@ == old(self).task_queue@.push(task),
            final(self).edge_nodes@ == old(self).edge_nodes@,
            final(self).local_cpu_threshold_milli == old(self).local_cpu_threshold_milli,
    {
        self.task_queue.push(task);
    }

    /// Places one task on the first node with capacity whose placement
    /// score no later node strictly beats; the node's capacity shrinks by
    /// the task's demands and the task joins its list. False, and no
    /// change, when no node fits.
    fn assign_task(&mut self, task: &ComputeTask) -> (assigned: bool)
        ensures
            final(self).task_queue@ == old(self).task_queue@,
            final(self).local_cpu_threshold_milli == old(self).local_cpu_threshold_milli,
            !assigned ==> final(self).edge_nodes@ == old(self).edge_nodes@ && (forall|j: int|
                0 <= j < old(self).edge_nodes@.len() ==> !spec_fits(
                    #[trigger] old(self).edge_nodes@[j],
                    *task,
                )),
            assigned ==> exists|k: int|
                {
                    &&& 0 <= k < old(self).edge_nodes@.len()
                    &&& spec_fits(#[trigger] old(self).edge_nodes@[k], *task)
                    &&& forall|j: int|
                        0 <= j < old(self).edge_nodes@.len() && spec_fits(
                            #[trigger] old(self).edge_nodes@[j],
                            *task,
                        ) ==> spec_node_score(old(self).edge_nodes@[j]) >= spec_node_score(
                            old(self).edge_nodes@[k],
                        )
                    &&& forall|j: int|
                        0 <= j < k && spec_fits(#[trigger] old(self).edge_nodes@[j], *task)
                            ==> spec_node_score(old(self).edge_nodes@[j]) > spec_node_score(
                            old(self).edge_nodes@[k],
                        )
                    &&& final(self).edge_nodes@.len() == old(self).edge_nodes@.len()
                    &&& final(self).edge_nodes@[k].available_cpu_milli
                        == old(self).edge_nodes@[k].available_cpu_milli - task.cpu_load_milli
                    &&& final(self).edge_nodes@[k].available_memory_mb
                        == old(self).edge_nodes@[k].available_memory_mb - task.memory_mb
                    &&& final(self).edge_nodes@[k].assigned_tasks@.len()
                        == old(self).edge_nodes@[k].assigned_tasks@.len() + 1
                    &&& forall|j: int|
                        0 <= j < old(self).edge_nodes@.len() && j != k
                            ==> #[trigger] final(self).edge_nodes@[j]
                            == old(self).edge_nodes@[j]
                },
    {
        let mut best: Option<usize> = None;
        let mut best_score: i128 = 0;
        let mut j: usize = 0;
        while j < self.edge_nodes.len()
            invariant
                j <= self.edge_nodes@.len(),
                self.edge_nodes@ == old(self).edge_nodes@,
                self.task_queue@ == old(self).task_queue@,
                self.local_cpu_threshold_milli == old(self).local_cpu_threshold_milli,
                match best {
                    Some(k) => {
                        &&& k < j
                        &&& spec_fits(self.edge_nodes@[k as int], *task)
                        &&& best_score == spec_node_score(self.edge_nodes@[k as int])
                        &&& forall|m: int|
                            0 <= m < j && spec_fits(#[trigger] self.edge_nodes@[m], *task)
                                ==> spec_node_score(self.edge_nodes@[m]) >= best_score
                        &&& forall|m: int|
                            0 <= m < k && spec_fits(#[trigger] self.edge_nodes@[m], *task)
                                ==> spec_node_score(self.edge_nodes@[m]) > best_score
                    },
                    None => forall|m: int|
                        0 <= m < j ==> !spec_fits(#[trigger] self.edge_nodes@[m], *task),
                },
            decreases self.edge_nodes@.len() - j,
        {
            let node = &self.edge_nodes[j];
            if node.available_cpu_milli >= task.cpu_load_milli && node.available_memory_mb
                >= task.memory_mb {
                proof {
                    assert((node.network_latency_us as int) * (1000 - node.available_cpu_milli
                        as int) <= 0xffff_ffff_ffff_ffffint * 1000int) by (nonlinear_arith)
                        requires
                            node.network_latency_us <= 0xffff_ffff_ffff_ffffu64,
                            node.available_cpu_milli >= 0,
                    ;
                    assert((node.network_latency_us as int) * (1000 - node.available_cpu_milli
                        as int) >= -(0xffff_ffff_ffff_ffffint * 0xffff_ffffint))
                        by (nonlinear_arith)
                        requires
                            node.network_latency_us <= 0xffff_ffff_ffff_ffffu64,
                            node.available_cpu_milli <= 0xffff_ffffu32,
                    ;
                }
                let score: i128 = (node.network_latency_us as i128) * (1000i128
                    - node.available_cpu_milli as i128);
                let better = match best {
                    Some(_) => score < best_score,
                    None => true,
                };
                if better {
                    best = Some(j);
                    best_score = score;
                }
            }
            j = j + 1;
        }
        match best {
            Some(k) => {
                let chosen = &self.edge_nodes[k];
                let mut new_tasks = clone_tasks(&chosen.assigned_tasks);
                new_tasks.push(clone_task(task));
                let updated = EdgeNode {
                    id: clone_string(&chosen.id),
                    available_cpu_milli: chosen.available_cpu_milli - task.cpu_load_milli,
                    available_memory_mb: chosen.available_memory_mb - task.memory_mb,
                    network_latency_us: chosen.network_latency_us,
                    assigned_tasks: new_tasks,
                };
                self.edge_nodes[k] = updated;
                true
            },
            None => false,
        }
    }

    /// Assigns queued tasks to edge nodes, highest priority first; tasks
    /// no node can take return to the queue. Returns how many tasks were
    /// placed: the queue shrinks by exactly that many, the nodes' task
    /// lists grow by it in total, and when nothing was placed, no node had
    /// capacity for any task left in the queue.
    pub fn distribute_tasks(&mut self) -> (assigned_count: usize)
        ensures
            final(self).local_cpu_threshold_milli == old(self).local_cpu_threshold_milli,
            final(self).task_queue@.len() + assigned_count == old(self).task_queue@.len(),
            spec_total_assigned(final(self).edge_nodes@) == spec_total_assigned(
                old(self).edge_nodes@,
            ) + assigned_count,
            assigned_count == 0 ==> final(self).edge_nodes@ == old(self).edge_nodes@,
            assigned_count == 0 ==> forall|i: int, j: int|
                0 <= i < final(self).task_queue@.len() && 0 <= j < final(self).edge_nodes@.len()
                    ==> !spec_fits(
                    #[trigger] final(self).edge_nodes@[j],
                    #[trigger] final(self).task_queue@[i],
                ),
    {
        let mut drained: Vec<ComputeTask> = Vec::new();
        core::mem::swap(&mut drained, &mut self.task_queue);
        let tasks = sort_by_priority(drained);
        let mut assigned_count: usize = 0;
        let mut i: usize = 0;
        while i < tasks.len()
            invariant
                i <= tasks@.len(),
                tasks@.len() <= old(self).task_queue@.len() + tasks@.len() - tasks@.len(),
                tasks@.len() == old(self).task_queue@.len(),
                self.local_cpu_threshold_milli == old(self).local_cpu_threshold_milli,
                assigned_count + self.task_queue@.len() == i,
                spec_total_assigned(self.edge_nodes@) == spec_total_assigned(
                    old(self).edge_nodes@,
                ) + assigned_count,
                assigned_count == 0 ==> self.edge_nodes@ == old(self).edge_nodes@,
                assigned_count == 0 ==> forall|i2: int, j: int|
                    0 <= i2 < self.task_queue@.len() && 0 <= j < self.edge_nodes@.len()
                        ==> !spec_fits(
                        #[trigger] self.edge_nodes@[j],
                        #[trigger] self.task_queue@[i2],
                    ),
            decreases tasks@.len() - i,
        {
            let ghost nodes_before = self.edge_nodes@;
            let ok = self.assign_task(&tasks[i]);
            if ok {
                proof {
                    let k = choose|k: int|
                        {
                            &&& 0 <= k < nodes_before.len()
                            &&& spec_fits(#[trigger] nodes_before[k], tasks@[i as int])
                            &&& forall|j: int|
                                0 <= j < nodes_before.len() && spec_fits(
                                    #[trigger] nodes_before[j],
                                    tasks@[i as int],
                                ) ==> spec_node_score(nodes_before[j]) >= spec_node_score(
                                    nodes_before[k],
                                )
                            &&& forall|j: int|
                                0 <= j < k && spec_fits(#[trigger] nodes_before[j], tasks@[i as int])
                                    ==> spec_node_score(nodes_before[j]) > spec_node_score(
                                    nodes_before[k],
                                )
                            &&& self.edge_nodes@.len() == nodes_before.len()
                            &&& self.edge_nodes@[k].available_cpu_milli == nodes_before[k].available_cpu_milli
                                - tasks@[i as int].cpu_load_milli
                            &&& self.edge_nodes@[k].available_memory_mb == nodes_before[k].available_memory_mb
                                - tasks@[i as int].memory_mb
                            &&& self.edge_nodes@[k].assigned_tasks@.len() == nodes_before[k].assigned_tasks@.len()
                                + 1
                            &&& forall|j: int|
                                0 <= j < nodes_before.len() && j != k
                                    ==> #[trigger] self.edge_nodes@[j] == nodes_before[j]
                        };
                    lemma_total_assigned_grow(nodes_before, self.edge_nodes@, k);
                }
                assigned_count = assigned_count + 1;
            } else {
                let requeued = clone_task(&tasks[i]);
                proof {
                    assert forall|j: int|
                        0 <= j < self.edge_nodes@.len() implies !spec_fits(
                        #[trigger] self.edge_nodes@[j],
                        requeued,
                    ) by {
                        assert(!spec_fits(self.edge_nodes@[j], tasks@[i as int]));
                    }
                }
                self.task_queue.push(requeued);
            }
            i = i + 1;
        }
        assigned_count
    }
}

/// Replacing one node with a node holding one more task raises the total
/// by one.
proof fn lemma_total_assigned_grow(before: Seq<EdgeNode>, after: Seq<EdgeNode>, k: int)
    requires
        0 <= k < before.len(),
        after.len() == before.len(),
        after[k].assigned_tasks@.len() == before[k].assigned_tasks@.len() + 1,
        forall|j: int| 0 <= j < before.len() && j != k ==> #[trigger] after[j] == before[j],
    ensures
        spec_total_assigned(after) == spec_total_assigned(before) + 1,
    decreases before.len(),
{
    if before.len() > 0 {
        if k == before.len() - 1 {
            assert(after.drop_last() =~= before.drop_last());
        } else {
            lemma_total_assigned_grow(before.drop_last(), after.drop_last(), k);
        }
    }
}

/// Tasks ordered by priority, highest first, ties keeping their order:
/// repeated insertion into a sorted prefix.
fn sort_by_priority(tasks: Vec<ComputeTask>) -> (r: Vec<ComputeTask>)
    ensures
        r@.len() == tasks@.len(),
{
    let mut out: Vec<ComputeTask> = Vec::new();
    let mut i: usize = 0;
    while i < tasks.len()
        invariant
            i <= tasks@.len(),
            out@.len() == i,
        decreases tasks@.len() - i,
    {
        let task = clone_task(&tasks[i]);
        let rank = priority_rank(&task.priority);
        // Position after the last task with rank at least this one's.
        let mut pos: usize = out.len();
        while pos > 0
            invariant
                pos <= out@.len(),
            decreases pos,
        {
            if priority_rank(&out[pos - 1].priority) >= rank {
                break;
            }
            pos = pos - 1;
        }
        out.insert(pos, task);
        i = i + 1;
    }
    out
}

/// Rank of a priority, higher first.
fn priority_rank(p: &TaskPriority) -> (r: u8)
    ensures
        r == spec_priority_rank(*p),
{
    match p {
        TaskPriority::Low => 0,
        TaskPriority::Medium => 1,
        TaskPriority::High => 2,
        TaskPriority::Critical => 3,
    }
}

/// A copy of a task list, same length.
fn clone_tasks(v: &Vec<ComputeTask>) -> (r: Vec<ComputeTask>)
    ensures
        r@.len() == v@.len(),
{
    let mut r: Vec<ComputeTask> = Vec::new();
    let mut i: usize = 0;
    while i < v.len()
        invariant
            i <= v@.len(),
            r@.len() == i,
        decreases v@.len() - i,
    {
        r.push(clone_task(&v[i]));
        i = i + 1;
    }
    r
}

/// A copy of a task.
fn clone_task(t: &ComputeTask) -> (r: ComputeTask)
    ensures
        r.id@ == t.id@,
        r.cpu_load_milli == t.cpu_load_milli,
        r.memory_mb == t.memory_mb,
        r.deadline_ms == t.deadline_ms,
        r.priority == t.priority,
{
    ComputeTask {
        id: clone_string(&t.id),
        cpu_load_milli: t.cpu_load_milli,
        memory_mb: t.memory_mb,
        deadline_ms: t.deadline_ms,
        priority: t.priority,
    }
}

/// A copy of a string.
pub fn clone_string(s: &String) -> (r: String)
    ensures
        r@ == s@,
{
    s.clone()
}

/// Whether two strings hold the same characters.
pub fn string_eq(a: &String, b: &String) -> (r: bool)
    ensures
        r == (a@ == b@),
{
    a.eq(b)
}

} // verus!
