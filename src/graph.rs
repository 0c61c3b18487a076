//! Which units a block renders, and which survive it.
//!
//! The topology is given by audio edges: `inputs[b]` lists the units whose
//! output feeds unit `b`. A block renders the destination and every unit from
//! which the destination can be reached through audio edges, each once.
use vstd::prelude::*;
use vstd::set_lib::{lemma_int_range, lemma_len_subset, set_int_range};
use crate::buffer::{AudioBuffer, AudioBufferOptions, SampleRate, silence};

verus! {

/// The audio edges as sequences.
pub open spec fn edges(inputs: Seq<Vec<usize>>) -> Seq<Seq<usize>> {
    inputs.map_values(|v: Vec<usize>| v@)
}

/// Every edge names a unit of the graph.
pub open spec fn edges_in_range(g: Seq<Seq<usize>>) -> bool {
    forall|b: int, j: int| 0 <= b < g.len() && 0 <= j < g[b].len() ==> (#[trigger] g[b][j]) < g.len()
}

/// `order` lists the units that a block renders from `destination`: the
/// destination first, each unit once, each later unit feeding one listed
/// before it, and every unit that feeds a listed unit listed too.
pub open spec fn is_render_set(g: Seq<Seq<usize>>, destination: usize, order: Seq<usize>) -> bool {
    &&& order.len() >= 1
    &&& order[0] == destination
    &&& order.no_duplicates()
    &&& forall|k: int| 0 <= k < order.len() ==> (#[trigger] order[k]) < g.len()
    &&& forall|k: int| 0 < k < order.len() ==> exists|j: int| 0 <= j < k && (#[trigger] g[order[j] as int]).contains(#[trigger] order[k])
    &&& forall|k: int, p: usize| 0 <= k < order.len() && #[trigger] g[order[k] as int].contains(p) ==> order.contains(p)
}

/// `path` runs against the audio edges from `path[0]`: each next unit feeds
/// the one before it.
pub open spec fn is_feed_path(g: Seq<Seq<usize>>, path: Seq<usize>) -> bool {
    &&& path.len() >= 1
    &&& forall|i: int| 0 <= i < path.len() - 1 ==> (#[trigger] g[path[i] as int]).contains(path[i + 1])
}

proof fn lemma_distinct_bounded(s: Seq<usize>, n: usize)
    requires
        s.no_duplicates(),
        forall|i: int| 0 <= i < s.len() ==> (#[trigger] s[i]) < n,
    ensures
        s.len() <= n,
{
    let t = s.map_values(|x: usize| x as int);
    assert(t.no_duplicates()) by {
        assert forall|i: int, j: int| 0 <= i < t.len() && 0 <= j < t.len() && i != j implies t[i] != t[j] by {
            assert(s[i] != s[j]);
        }
    }
    t.unique_seq_to_set();
    assert(t.to_set().subset_of(set_int_range(0, n as int))) by {
        assert forall|x: int| t.to_set().contains(x) implies set_int_range(0, n as int).contains(x) by {
            let i = choose|i: int| 0 <= i < t.len() && t[i] == x;
            assert(s[i] < n);
        }
    }
    lemma_int_range(0, n as int);
    lemma_len_subset(t.to_set(), set_int_range(0, n as int));
}

/// The set of units a block renders from `destination`, listed in the order
/// a breadth-first search finds them. This is not an execution order: a unit
/// may be listed before units that feed it.
pub fn render_set(inputs: &Vec<Vec<usize>>, destination: usize) -> (order: Vec<usize>)
    requires
        destination < inputs@.len(),
        edges_in_range(edges(inputs@)),
    ensures
        is_render_set(edges(inputs@), destination, order@),
{
    let ghost g = edges(inputs@);
    let n = inputs.len();
    let mut seen: Vec<bool> = Vec::new();
    let mut i: usize = 0;
    while i < n
        invariant
            i <= n,
            seen@.len() == i,
            forall|x: int| 0 <= x < i ==> !(#[trigger] seen@[x]),
        decreases n - i,
    {
        seen.push(false);
        i = i + 1;
    }
    let mut order: Vec<usize> = Vec::new();
    order.push(destination);
    seen.set(destination, true);
    assert forall|x: int| 0 <= x < n && #[trigger] seen@[x] implies exists|k: int| 0 <= k < order@.len() && order@[k] == x by {
        assert(x == destination);
        assert(order@[0] == x);
    }
    let mut head: usize = 0;
    while head < order.len()
        invariant
            n == inputs@.len(),
            n == g.len(),
            g == edges(inputs@),
            edges_in_range(g),
            seen@.len() == n,
            head <= order@.len(),
            order@.len() >= 1,
            order@[0] == destination,
            order@.no_duplicates(),
            forall|k: int| 0 <= k < order@.len() ==> (#[trigger] order@[k]) < n,
            forall|k: int| 0 <= k < order@.len() ==> seen@[#[trigger] order@[k] as int],
            forall|x: int| 0 <= x < n && #[trigger] seen@[x] ==> exists|k: int| 0 <= k < order@.len() && order@[k] == x,
            forall|k: int| 0 < k < order@.len() ==> exists|j: int| 0 <= j < k && (#[trigger] g[order@[j] as int]).contains(#[trigger] order@[k]),
            forall|k: int, jj: int| 0 <= k < head && 0 <= jj < g[order@[k] as int].len() ==> seen@[#[trigger] g[order@[k] as int][jj] as int],
        decreases n - head,
    {
        proof {
            lemma_distinct_bounded(order@, n);
        }
        let x = order[head];
        let ghost len0 = order@.len();
        let mut j: usize = 0;
        while j < inputs[x].len()
            invariant
                n == inputs@.len(),
                n == g.len(),
                g == edges(inputs@),
                edges_in_range(g),
                x < n,
                x == order@[head as int],
                head < len0 <= order@.len(),
                j <= g[x as int].len(),
                seen@.len() == n,
                order@[0] == destination,
                order@.no_duplicates(),
                forall|k: int| 0 <= k < order@.len() ==> (#[trigger] order@[k]) < n,
                forall|k: int| 0 <= k < order@.len() ==> seen@[#[trigger] order@[k] as int],
                forall|y: int| 0 <= y < n && #[trigger] seen@[y] ==> exists|k: int| 0 <= k < order@.len() && order@[k] == y,
                forall|k: int| 0 < k < order@.len() ==> exists|jj: int| 0 <= jj < k && (#[trigger] g[order@[jj] as int]).contains(#[trigger] order@[k]),
                forall|k: int, jj: int| 0 <= k < head && 0 <= jj < g[order@[k] as int].len() ==> seen@[#[trigger] g[order@[k] as int][jj] as int],
                forall|jj: int| 0 <= jj < j ==> seen@[#[trigger] g[x as int][jj] as int],
            decreases g[x as int].len() - j,
        {
            assert(inputs@[x as int]@ == g[x as int]);
            let p = inputs[x][j];
            assert(p == g[x as int][j as int]);
            if !seen[p] {
                let ghost before = order@;
                let ghost seen_before = seen@;
                order.push(p);
                seen.set(p, true);
                assert(order@.no_duplicates()) by {
                    assert forall|a: int, b: int| 0 <= a < order@.len() && 0 <= b < order@.len() && a != b implies order@[a] != order@[b] by {
                        if a < before.len() && b < before.len() {
                        } else if a == before.len() {
                            assert(seen_before[before[b] as int]);
                        } else {
                            assert(seen_before[before[a] as int]);
                        }
                    }
                }
                assert forall|y: int| 0 <= y < n && #[trigger] seen@[y] implies exists|k: int| 0 <= k < order@.len() && order@[k] == y by {
                    if y == p as int {
                        assert(order@[before.len() as int] == y);
                    } else {
                        assert(seen_before[y]);
                        let k = choose|k: int| 0 <= k < before.len() && before[k] == y;
                        assert(order@[k] == y);
                    }
                }
                assert forall|k: int| 0 < k < order@.len() implies exists|jj: int| 0 <= jj < k && (#[trigger] g[order@[jj] as int]).contains(#[trigger] order@[k]) by {
                    if k == before.len() {
                        assert(g[order@[head as int] as int][j as int] == order@[k]);
                        assert(g[order@[head as int] as int].contains(order@[k]));
                    } else {
                        let jj = choose|jj: int| 0 <= jj < k && (#[trigger] g[before[jj] as int]).contains(#[trigger] before[k]);
                        assert(g[order@[jj] as int].contains(order@[k]));
                    }
                }
            }
            j = j + 1;
        }
        head = head + 1;
    }
    proof {
        assert forall|k: int, p: usize| 0 <= k < order@.len() && #[trigger] g[order@[k] as int].contains(p) implies order@.contains(p) by {
            let jj = choose|jj: int| 0 <= jj < g[order@[k] as int].len() && g[order@[k] as int][jj] == p;
            assert(seen@[g[order@[k] as int][jj] as int]);
            let k2 = choose|k2: int| 0 <= k2 < order@.len() && order@[k2] == p as int;
            assert(order@[k2] == p);
        }
    }
    order
}

/// Every unit from which the destination can be reached through audio edges
/// is rendered, and no unit twice.
pub proof fn lemma_reachable_rendered_once(g: Seq<Seq<usize>>, destination: usize, order: Seq<usize>, path: Seq<usize>)
    requires
        is_render_set(g, destination, order),
        is_feed_path(g, path),
        path[0] == destination,
    ensures
        order.contains(path[path.len() - 1]),
        order.no_duplicates(),
    decreases path.len(),
{
    if path.len() == 1 {
        assert(order[0] == path[0]);
    } else {
        let front = path.drop_last();
        assert(is_feed_path(g, front)) by {
            assert forall|i: int| 0 <= i < front.len() - 1 implies (#[trigger] g[front[i] as int]).contains(front[i + 1]) by {
                assert(g[path[i] as int].contains(path[i + 1]));
            }
        }
        lemma_reachable_rendered_once(g, destination, order, front);
        let last = front[front.len() - 1];
        let k = choose|k: int| 0 <= k < order.len() && order[k] == last;
        assert(g[path[path.len() - 2] as int].contains(path[path.len() - 1]));
        assert(g[order[k] as int].contains(path[path.len() - 1]));
    }
}

/// Whether `i` is listed in `order`.
fn listed(order: &Vec<usize>, i: usize) -> (r: bool)
    ensures
        r == order@.contains(i),
{
    let mut k: usize = 0;
    while k < order.len()
        invariant
            k <= order@.len(),
            forall|m: int| 0 <= m < k ==> order@[m] != i,
        decreases order@.len() - k,
    {
        if order[k] == i {
            assert(order@[k as int] == i);
            return true;
        }
        k = k + 1;
    }
    false
}

/// Drops the units that a block left behind: a registered unit stays when it
/// was rendered from the destination in this block, or when its processing
/// call asked to be kept alive; otherwise it is removed.
pub fn prune(alive: &mut Vec<bool>, rendered: &Vec<usize>, keep_alive: &Vec<bool>)
    requires
        keep_alive@.len() == old(alive)@.len(),
    ensures
        final(alive)@.len() == old(alive)@.len(),
        forall|i: int| 0 <= i < old(alive)@.len() ==> (#[trigger] final(alive)@[i]) == (old(alive)@[i] && (rendered@.contains(i as usize) || keep_alive@[i])),
{
    let n = alive.len();
    let mut i: usize = 0;
    while i < n
        invariant
            n == old(alive)@.len(),
            alive@.len() == n,
            keep_alive@.len() == n,
            i <= n,
            forall|k: int| 0 <= k < i ==> (#[trigger] alive@[k]) == (old(alive)@[k] && (rendered@.contains(k as usize) || keep_alive@[k])),
            forall|k: int| i <= k < n ==> (#[trigger] alive@[k]) == old(alive)@[k],
        decreases n - i,
    {
        if alive[i] && !keep_alive[i] && !listed(rendered, i) {
            alive.set(i, false);
        }
        i = i + 1;
    }
}

/// The output buffers of a unit for one block: `count` silent buffers, each
/// with the unit's declared channel count and `block_len` frames.
pub fn output_buffers(count: usize, channel_count: usize, block_len: usize, sample_rate: SampleRate) -> (r: Vec<AudioBuffer>)
    ensures
        r@.len() == count,
        forall|k: int| 0 <= k < count ==> {
            &&& (#[trigger] r@[k]).wf()
            &&& r@[k]@.len() == channel_count
            &&& r@[k].frames() == block_len
            &&& r@[k].rate() == sample_rate
            &&& r@[k]@ == Seq::new(channel_count as nat, |c: int| silence(block_len as nat))
        },
{
    let mut r: Vec<AudioBuffer> = Vec::new();
    let mut k: usize = 0;
    while k < count
        invariant
            k <= count,
            r@.len() == k,
            forall|m: int| 0 <= m < k ==> {
                &&& (#[trigger] r@[m]).wf()
                &&& r@[m]@.len() == channel_count
                &&& r@[m].frames() == block_len
                &&& r@[m].rate() == sample_rate
                &&& r@[m]@ == Seq::new(channel_count as nat, |c: int| silence(block_len as nat))
            },
        decreases count - k,
    {
        r.push(AudioBuffer::new(AudioBufferOptions { number_of_channels: channel_count, length: block_len, sample_rate }));
        k = k + 1;
    }
    r
}

} // verus!
