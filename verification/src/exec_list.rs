//! Sentinel-bounded intrusive lists over an arena of link nodes.
//!
//! A link node is addressed by its handle, an index into the arena. A list owns
//! two sentinel nodes; the records it holds embed one link node each. The handle
//! of a record's link node and the index of the record in its table differ by a
//! displacement that is fixed per table, the table's *offset*.

use vstd::prelude::*;

verus! {

/// A link: the handles of the two neighbours, `None` standing for a null link.
///
/// Only a sentinel carries a null link, on the side that faces out of its list.
#[derive(Clone, Copy, Debug, PartialEq, Eq)]
pub struct exec_node {
    pub next: Option<usize>,
    pub prev: Option<usize>,
}

/// A list, given by the handles of its head and tail sentinels.
#[derive(Clone, Copy, Debug, PartialEq, Eq)]
pub struct exec_list {
    pub head_sentinel: usize,
    pub tail_sentinel: usize,
}

/// The node at position `i` of `path` and the one after it are linked to each
/// other: the `next` of the first is the second, and the `prev` of the second
/// is the first.
pub open spec fn linked_at(nodes: Seq<exec_node>, path: Seq<usize>, i: int) -> bool {
    &&& nodes[path[i] as int].next == Some(path[i + 1])
    &&& nodes[path[i + 1] as int].prev == Some(path[i])
}

/// `path` runs along links: every node in it is linked to the one after it.
pub open spec fn is_chain(nodes: Seq<exec_node>, path: Seq<usize>) -> bool {
    &&& path.len() >= 1
    &&& forall|i: int| 0 <= i < path.len() ==> (#[trigger] path[i]) < nodes.len()
    &&& forall|i: int| 0 <= i < path.len() - 1 ==> #[trigger] linked_at(nodes, path, i)
}

/// `path` is a whole list, sentinels included: a chain of at least two nodes
/// that begins at a node without predecessor and ends at one without successor.
pub open spec fn is_path(nodes: Seq<exec_node>, path: Seq<usize>) -> bool {
    &&& is_chain(nodes, path)
    &&& path.len() >= 2
    &&& nodes[path[0] as int].prev is None
    &&& nodes[path.last() as int].next is None
}

/// Node `n` stands at position `k` of the whole list `path`.
pub open spec fn on_path(nodes: Seq<exec_node>, path: Seq<usize>, k: int, n: usize) -> bool {
    &&& is_path(nodes, path)
    &&& 0 <= k < path.len()
    &&& path[k] == n
}

/// The whole list `path` runs through node `n`.
pub open spec fn runs_through(nodes: Seq<exec_node>, path: Seq<usize>, n: usize) -> bool {
    exists|k: int| on_path(nodes, path, k, n)
}

/// Node `n` belongs to a whole list.
pub open spec fn is_linked(nodes: Seq<exec_node>, n: usize) -> bool {
    exists|path: Seq<usize>| runs_through(nodes, path, n)
}

/// The whole list that `n` belongs to, sentinels included.
pub open spec fn path_of(nodes: Seq<exec_node>, n: usize) -> Seq<usize> {
    choose|path: Seq<usize>| runs_through(nodes, path, n)
}

/// The position of `n` in `path_of(nodes, n)`.
pub open spec fn position_of(nodes: Seq<exec_node>, n: usize) -> int {
    choose|k: int| on_path(nodes, path_of(nodes, n), k, n)
}

/// The nodes that follow `n` in its list, nearest first, the tail sentinel left out.
pub open spec fn nodes_after(nodes: Seq<exec_node>, n: usize) -> Seq<usize> {
    let path = path_of(nodes, n);
    let k = position_of(nodes, n);
    if k + 1 < path.len() {
        path.subrange(k + 1, path.len() - 1)
    } else {
        Seq::empty()
    }
}

/// The nodes that precede `n` in its list, nearest first, the head sentinel left out.
pub open spec fn nodes_before(nodes: Seq<exec_node>, n: usize) -> Seq<usize> {
    let path = path_of(nodes, n);
    let k = position_of(nodes, n);
    if k >= 1 {
        path.subrange(1, k).reverse()
    } else {
        Seq::empty()
    }
}

/// The nodes met when stepping away from `n`, backward if `rev` and forward
/// otherwise, until a sentinel is reached.
pub open spec fn nodes_from(nodes: Seq<exec_node>, n: usize, rev: bool) -> Seq<usize> {
    if rev {
        nodes_before(nodes, n)
    } else {
        nodes_after(nodes, n)
    }
}

/// Every handle in `s` is that of a link node embedded in one of the `count`
/// records of a table with the given offset.
pub open spec fn all_embedded(s: Seq<usize>, offset: usize, count: nat) -> bool {
    forall|i: int| 0 <= i < s.len() ==> offset <= (#[trigger] s[i]) < offset + count
}

/// The records that embed the link nodes `s`, in the same order.
pub open spec fn records_of<T>(s: Seq<usize>, offset: usize, table: Seq<T>) -> Seq<T> {
    Seq::new(s.len(), |i: int| table[s[i] - offset])
}

/// An iterator may start at `n` in direction `rev`: `n` belongs to a list, is
/// not the sentinel at the far end, and every node on the way is embedded in a
/// record of the table.
pub open spec fn can_walk(
    nodes: Seq<exec_node>,
    n: usize,
    rev: bool,
    offset: usize,
    count: nat,
) -> bool {
    &&& is_linked(nodes, n)
    &&& if rev {
        nodes[n as int].prev is Some
    } else {
        nodes[n as int].next is Some
    }
    &&& all_embedded(nodes_from(nodes, n, rev), offset, count)
}

impl exec_list {
    /// `path` is this list, from its head sentinel to its tail sentinel.
    pub open spec fn spans(&self, nodes: Seq<exec_node>, path: Seq<usize>) -> bool {
        &&& is_path(nodes, path)
        &&& path[0] == self.head_sentinel
        &&& path.last() == self.tail_sentinel
    }

    /// The list is circular through its sentinels: following `next` from the head
    /// sentinel reaches the tail sentinel, and `prev` leads back the same way.
    pub open spec fn wf(&self, nodes: Seq<exec_node>) -> bool {
        exists|path: Seq<usize>| self.spans(nodes, path)
    }

    /// The handles of the link nodes between the sentinels, in list order.
    pub open spec fn elems(&self, nodes: Seq<exec_node>) -> Seq<usize> {
        let path = choose|path: Seq<usize>| self.spans(nodes, path);
        path.subrange(1, path.len() - 1)
    }

    /// The list is well formed and holds only records of the table with the
    /// given offset and `count` records.
    pub open spec fn holds(&self, nodes: Seq<exec_node>, offset: usize, count: nat) -> bool {
        &&& self.wf(nodes)
        &&& all_embedded(self.elems(nodes), offset, count)
    }

    /// The records in the list, in list order.
    pub open spec fn records<T>(&self, nodes: Seq<exec_node>, offset: usize, table: Seq<T>) -> Seq<
        T,
    > {
        records_of(self.elems(nodes), offset, table)
    }
}

/// A chain that starts where a whole list starts is a prefix of that list.
pub proof fn lemma_chain_is_prefix(nodes: Seq<exec_node>, path: Seq<usize>, chain: Seq<usize>)
    requires
        is_path(nodes, path),
        is_chain(nodes, chain),
        chain[0] == path[0],
    ensures
        chain.len() <= path.len(),
        forall|i: int| 0 <= i < chain.len() ==> chain[i] == path[i],
    decreases chain.len(),
{
    if chain.len() >= 2 {
        let shorter = chain.drop_last();
        assert forall|i: int| 0 <= i < shorter.len() - 1 implies #[trigger] linked_at(
            nodes,
            shorter,
            i,
        ) by {
            assert(linked_at(nodes, chain, i));
            assert(shorter[i] == chain[i]);
            assert(shorter[i + 1] == chain[i + 1]);
        }
        assert forall|i: int| 0 <= i < shorter.len() implies (#[trigger] shorter[i])
            < nodes.len() by {
            assert(shorter[i] == chain[i]);
        }
        lemma_chain_is_prefix(nodes, path, shorter);
        let k = chain.len() - 2;
        assert(shorter[k] == chain[k]);
        assert(chain[k] == path[k]);
        assert(linked_at(nodes, chain, k));
        if k == path.len() - 1 {
            assert(nodes[path.last() as int].next is None);
        } else {
            assert(linked_at(nodes, path, k));
        }
        assert forall|i: int| 0 <= i < chain.len() implies chain[i] == path[i] by {
            if i < chain.len() - 1 {
                assert(shorter[i] == chain[i]);
            }
        }
    }
}

/// Two whole lists that share a node are one list, and the node has one
/// position in it.
pub proof fn lemma_path_unique(
    nodes: Seq<exec_node>,
    p: Seq<usize>,
    i: int,
    q: Seq<usize>,
    j: int,
)
    requires
        is_path(nodes, p),
        is_path(nodes, q),
        0 <= i < p.len(),
        0 <= j < q.len(),
        p[i] == q[j],
    ensures
        i == j,
        p == q,
    decreases i,
{
    if i == 0 {
        if j > 0 {
            assert(linked_at(nodes, q, j - 1));
        }
        lemma_chain_is_prefix(nodes, p, q);
        lemma_chain_is_prefix(nodes, q, p);
        assert(p =~= q);
    } else {
        assert(linked_at(nodes, p, i - 1));
        if j > 0 {
            assert(linked_at(nodes, q, j - 1));
            lemma_path_unique(nodes, p, i - 1, q, j - 1);
        }
    }
}

/// Numbers that all differ and all lie below `n` are at most `n` in number.
pub proof fn lemma_distinct_fit(s: Seq<int>, n: nat)
    requires
        s.no_duplicates(),
        forall|i: int| 0 <= i < s.len() ==> 0 <= #[trigger] s[i] < n,
    ensures
        s.len() <= n,
{
    s.unique_seq_to_set();
    let range = vstd::set_lib::set_int_range(0, n as int);
    vstd::set_lib::lemma_int_range(0, n as int);
    assert forall|x: int| s.to_set().contains(x) implies range.contains(x) by {
        let i = choose|i: int| 0 <= i < s.len() && s[i] == x;
    }
    vstd::set_lib::lemma_len_subset(s.to_set(), range);
}

/// A whole list visits no node twice, so it is no longer than the arena.
pub proof fn lemma_path_fits(nodes: Seq<exec_node>, path: Seq<usize>)
    requires
        is_path(nodes, path),
    ensures
        path.no_duplicates(),
        path.len() <= nodes.len(),
{
    assert forall|i: int, j: int|
        0 <= i < path.len() && 0 <= j < path.len() && i != j implies path[i] != path[j] by {
        if path[i] == path[j] {
            lemma_path_unique(nodes, path, i, path, j);
        }
    }
    let ints = path.map_values(|h: usize| h as int);
    assert forall|i: int, j: int|
        0 <= i < ints.len() && 0 <= j < ints.len() && i != j implies ints[i] != ints[j] by {
        assert(ints[i] == path[i] as int);
        assert(ints[j] == path[j] as int);
    }
    assert forall|i: int| 0 <= i < ints.len() implies 0 <= #[trigger] ints[i] < nodes.len() by {
        assert(ints[i] == path[i] as int);
    }
    lemma_distinct_fit(ints, nodes.len());
}

/// What is known of a node once one whole list through it is known.
pub proof fn lemma_on_path(nodes: Seq<exec_node>, path: Seq<usize>, k: int, n: usize)
    requires
        on_path(nodes, path, k, n),
    ensures
        is_linked(nodes, n),
        path_of(nodes, n) == path,
        position_of(nodes, n) == k,
{
    assert(runs_through(nodes, path, n));
    let p = path_of(nodes, n);
    let j = choose|j: int| on_path(nodes, p, j, n);
    lemma_path_unique(nodes, path, k, p, j);
    let j2 = position_of(nodes, n);
    assert(on_path(nodes, path, j2, n));
    lemma_path_unique(nodes, path, k, path, j2);
}

/// What is known of a list once its path is known.
pub proof fn lemma_spans(nodes: Seq<exec_node>, l: exec_list, path: Seq<usize>)
    requires
        l.spans(nodes, path),
    ensures
        l.wf(nodes),
        l.elems(nodes) == path.subrange(1, path.len() - 1),
        on_path(nodes, path, 0, l.head_sentinel),
        on_path(nodes, path, path.len() - 1, l.tail_sentinel),
{
    let p = choose|p: Seq<usize>| l.spans(nodes, p);
    lemma_path_unique(nodes, path, 0, p, 0);
}

/// Walking forward from the head sentinel meets the list's nodes in list order;
/// walking backward from the tail sentinel meets them in reverse.
pub proof fn lemma_list_walks(nodes: Seq<exec_node>, l: exec_list)
    requires
        l.wf(nodes),
    ensures
        nodes_from(nodes, l.head_sentinel, false) == l.elems(nodes),
        nodes_from(nodes, l.tail_sentinel, true) == l.elems(nodes).reverse(),
        nodes[l.head_sentinel as int].next is Some,
        nodes[l.tail_sentinel as int].prev is Some,
        is_linked(nodes, l.head_sentinel),
        is_linked(nodes, l.tail_sentinel),
{
    let path = choose|path: Seq<usize>| l.spans(nodes, path);
    lemma_spans(nodes, l, path);
    lemma_on_path(nodes, path, 0, l.head_sentinel);
    lemma_on_path(nodes, path, path.len() - 1, l.tail_sentinel);
    assert(linked_at(nodes, path, 0));
    assert(linked_at(nodes, path, path.len() - 2));
}

impl exec_list {
    /// Whether no record is linked between the sentinels.
    pub fn is_empty(&self, nodes: &Vec<exec_node>) -> (r: bool)
        requires
            self.wf(nodes@),
        ensures
            r == (self.elems(nodes@).len() == 0),
    {
        proof {
            let path = choose|path: Seq<usize>| self.spans(nodes@, path);
            assert(linked_at(nodes@, path, 0));
            if path.len() > 2 && path[1] == self.tail_sentinel {
                lemma_path_unique(nodes@, path, 1, path, path.len() - 1);
            }
        }
        match nodes[self.head_sentinel].next {
            Some(m) => m == self.tail_sentinel,
            None => false,
        }
    }

    /// Follows the `next` links from the head sentinel and checks every link on
    /// the way. Returns the handles between the sentinels, in list order, if the
    /// list is well formed, and `None` if it is not.
    pub fn walk(&self, nodes: &Vec<exec_node>) -> (r: Option<Vec<usize>>)
        ensures
            r is Some <==> self.wf(nodes@),
            r matches Some(v) ==> v@ == self.elems(nodes@),
    {
        let head: usize = self.head_sentinel;
        let tail: usize = self.tail_sentinel;
        if head >= nodes.len() || tail >= nodes.len() {
            return None;
        }
        if nodes[head].prev.is_some() {
            return None;
        }
        let mut out: Vec<usize> = Vec::new();
        let mut cur: usize = head;
        let ghost mut chain: Seq<usize> = seq![head];
        loop
            invariant
                head == self.head_sentinel,
                tail == self.tail_sentinel,
                nodes@[head as int].prev is None,
                is_chain(nodes@, chain),
                chain[0] == head,
                chain.last() == cur,
                chain.len() <= nodes@.len(),
                out@ == chain.subrange(1, chain.len() as int),
            decreases nodes@.len() - chain.len(),
        {
            match nodes[cur].next {
                None => {
                    if cur != tail || out.len() == 0 {
                        proof {
                            if self.wf(nodes@) {
                                let path = choose|path: Seq<usize>| self.spans(nodes@, path);
                                lemma_chain_is_prefix(nodes@, path, chain);
                                let k = chain.len() - 1;
                                if k < path.len() - 1 {
                                    assert(linked_at(nodes@, path, k));
                                }
                            }
                        }
                        return None;
                    }
                    out.pop();
                    proof {
                        lemma_spans(nodes@, *self, chain);
                        assert(out@ =~= chain.subrange(1, chain.len() - 1));
                    }
                    return Some(out);
                },
                Some(m) => {
                    let linked_back = m < nodes.len() && match nodes[m].prev {
                        Some(b) => b == cur,
                        None => false,
                    };
                    if !linked_back || out.len() + 1 >= nodes.len() {
                        proof {
                            if self.wf(nodes@) {
                                let path = choose|path: Seq<usize>| self.spans(nodes@, path);
                                lemma_chain_is_prefix(nodes@, path, chain);
                                let k = chain.len() - 1;
                                if k < path.len() - 1 {
                                    assert(linked_at(nodes@, path, k));
                                    assert(path[k + 1] < nodes@.len());
                                    let longer = chain.push(m);
                                    assert(is_chain(nodes@, longer)) by {
                                        assert forall|i: int|
                                            0 <= i < longer.len() - 1 implies #[trigger] linked_at(
                                            nodes@,
                                            longer,
                                            i,
                                        ) by {
                                            if i < chain.len() - 1 {
                                                assert(linked_at(nodes@, chain, i));
                                                assert(longer[i] == chain[i]);
                                                assert(longer[i + 1] == chain[i + 1]);
                                            }
                                        }
                                    }
                                    lemma_chain_is_prefix(nodes@, path, longer);
                                    lemma_path_fits(nodes@, path);
                                }
                            }
                        }
                        return None;
                    }
                    proof {
                        let longer = chain.push(m);
                        assert forall|i: int|
                            0 <= i < longer.len() - 1 implies #[trigger] linked_at(
                            nodes@,
                            longer,
                            i,
                        ) by {
                            if i < chain.len() - 1 {
                                assert(linked_at(nodes@, chain, i));
                                assert(longer[i] == chain[i]);
                                assert(longer[i + 1] == chain[i + 1]);
                            }
                        }
                        assert(longer.subrange(1, longer.len() as int) =~= chain.subrange(
                            1,
                            chain.len() as int,
                        ).push(m));
                        chain = longer;
                    }
                    out.push(m);
                    cur = m;
                },
            }
        }
    }
}

impl exec_list {
    /// Walks the list as [`walk`](Self::walk) does, and checks besides that
    /// every node between the sentinels is embedded in one of the `count`
    /// records of the table with the given offset.
    pub fn walk_table(&self, nodes: &Vec<exec_node>, offset: usize, count: usize) -> (r: Option<
        Vec<usize>,
    >)
        ensures
            r is Some <==> self.holds(nodes@, offset, count as nat),
            r matches Some(v) ==> v@ == self.elems(nodes@),
    {
        match self.walk(nodes) {
            None => None,
            Some(v) => {
                let mut k: usize = 0;
                while k < v.len()
                    invariant
                        k <= v@.len(),
                        v@ == self.elems(nodes@),
                        all_embedded(v@.subrange(0, k as int), offset, count as nat),
                    decreases v@.len() - k,
                {
                    if v[k] < offset || v[k] - offset >= count {
                        return None;
                    }
                    proof {
                        let longer = v@.subrange(0, k + 1);
                        assert forall|i: int| 0 <= i < longer.len() implies offset <= (
                        #[trigger] longer[i]) < offset + count by {
                            if i < k {
                                assert(v@.subrange(0, k as int)[i] == longer[i]);
                            }
                        }
                    }
                    k += 1;
                }
                assert(v@.subrange(0, k as int) =~= v@);
                Some(v)
            },
        }
    }
}

/// A cursor over the records of one list, forward or backward.
///
/// It starts on a link node, most often a sentinel, and yields the record that
/// embeds each node it steps onto: the record whose index in the table is the
/// node's handle less the table's offset. The direction is fixed when the
/// cursor is made. The arena must not change while the cursor is in use, which
/// the borrow enforces.
pub struct ExecListIter<'a, T> {
    nodes: &'a Vec<exec_node>,
    records: &'a Vec<T>,
    n: usize,
    offset: usize,
    rev: bool,
}

impl<'a, T> ExecListIter<'a, T> {
    /// The cursor can take a step: it has not yet reached the far sentinel, and
    /// every node still ahead is embedded in a record of the table.
    pub closed spec fn wf(&self) -> bool {
        can_walk(self.nodes@, self.n, self.rev, self.offset, self.records@.len())
    }

    /// The handles of the link nodes still ahead, nearest first.
    pub closed spec fn pending(&self) -> Seq<usize> {
        nodes_from(self.nodes@, self.n, self.rev)
    }

    /// The records still to be yielded, in the order in which they will come.
    pub closed spec fn view(&self) -> Seq<T> {
        records_of(self.pending(), self.offset, self.records@)
    }

    /// A cursor over list `l` from its head sentinel forward.
    pub fn new(nodes: &'a Vec<exec_node>, records: &'a Vec<T>, l: &exec_list, offset: usize) -> (it:
        Self)
        requires
            l.holds(nodes@, offset, records@.len()),
        ensures
            it.wf(),
            it.pending() == l.elems(nodes@),
            it@ == l.records(nodes@, offset, records@),
    {
        proof {
            lemma_list_walks(nodes@, *l);
        }
        Self { nodes, records, n: l.head_sentinel, offset, rev: false }
    }

    /// A cursor over list `l` from its tail sentinel backward.
    pub fn new_rev(
        nodes: &'a Vec<exec_node>,
        records: &'a Vec<T>,
        l: &exec_list,
        offset: usize,
    ) -> (it: Self)
        requires
            l.holds(nodes@, offset, records@.len()),
        ensures
            it.wf(),
            it.pending() == l.elems(nodes@).reverse(),
            it@ == l.records(nodes@, offset, records@).reverse(),
    {
        proof {
            lemma_list_walks(nodes@, *l);
            let e = l.elems(nodes@);
            assert(records_of(e.reverse(), offset, records@) =~= records_of(
                e,
                offset,
                records@,
            ).reverse());
        }
        Self { nodes, records, n: l.tail_sentinel, offset, rev: true }
    }

    /// A cursor that starts on node `n`, anywhere in a list, and steps backward
    /// if `rev` and forward otherwise.
    pub fn at(
        nodes: &'a Vec<exec_node>,
        records: &'a Vec<T>,
        n: usize,
        offset: usize,
        rev: bool,
    ) -> (it: Self)
        requires
            can_walk(nodes@, n, rev, offset, records@.len()),
        ensures
            it.wf(),
            it.pending() == nodes_from(nodes@, n, rev),
            it@ == records_of(nodes_from(nodes@, n, rev), offset, records@),
    {
        Self { nodes, records, n, offset, rev }
    }

    /// Steps to the neighbouring node. Yields the record that embeds it, or
    /// `None` if that node is the sentinel at the far end; the cursor is then
    /// spent and cannot step again.
    pub fn next(&mut self) -> (r: Option<&'a T>)
        requires
            old(self).wf(),
        ensures
            match r {
                Some(t) => {
                    &&& old(self)@.len() > 0
                    &&& *t == old(self)@[0]
                    &&& final(self)@ == old(self)@.drop_first()
                    &&& final(self).pending() == old(self).pending().drop_first()
                    &&& final(self).wf()
                },
                None => old(self)@.len() == 0 && final(self)@.len() == 0,
            },
    {
        let ghost path = path_of(self.nodes@, self.n);
        let ghost k = position_of(self.nodes@, self.n);
        let ghost before = *self;
        proof {
            assert(runs_through(self.nodes@, path, self.n));
            assert(on_path(self.nodes@, path, k, self.n));
        }
        if self.rev {
            proof {
                if k >= 1 {
                    assert(linked_at(self.nodes@, path, k - 1));
                    lemma_on_path(self.nodes@, path, k - 1, path[k - 1]);
                    if k >= 2 {
                        assert(linked_at(self.nodes@, path, k - 2));
                        assert(before.pending()[0] == path[k - 1]);
                    }
                }
            }
            self.n = self.nodes[self.n].prev.unwrap();
            if self.nodes[self.n].prev.is_none() {
                None
            } else {
                proof {
                    assert(self.pending() =~= before.pending().drop_first());
                    assert(self@ =~= before@.drop_first());
                }
                let records: &'a Vec<T> = self.records;
                Some(&records[self.n - self.offset])
            }
        } else {
            proof {
                if k + 1 < path.len() {
                    assert(linked_at(self.nodes@, path, k));
                    lemma_on_path(self.nodes@, path, k + 1, path[k + 1]);
                    if k + 2 < path.len() {
                        assert(linked_at(self.nodes@, path, k + 1));
                        assert(before.pending()[0] == path[k + 1]);
                    }
                }
            }
            self.n = self.nodes[self.n].next.unwrap();
            if self.nodes[self.n].next.is_none() {
                None
            } else {
                proof {
                    assert(self.pending() =~= before.pending().drop_first());
                    assert(self@ =~= before@.drop_first());
                }
                let records: &'a Vec<T> = self.records;
                Some(&records[self.n - self.offset])
            }
        }
    }

    /// Runs the cursor to the far sentinel and gathers what it yields.
    pub fn collect(self) -> (r: Vec<&'a T>)
        requires
            self.wf(),
        ensures
            r@.len() == self@.len(),
            forall|i: int| 0 <= i < r@.len() ==> *r@[i] == self@[i],
    {
        let mut it = self;
        let mut out: Vec<&'a T> = Vec::new();
        loop
            invariant
                it.wf(),
                out@.len() + it@.len() == self@.len(),
                forall|i: int| 0 <= i < out@.len() ==> *out@[i] == self@[i],
                forall|i: int| 0 <= i < it@.len() ==> it@[i] == self@[out@.len() + i],
            decreases it@.len(),
        {
            let ghost before = it@;
            match it.next() {
                Some(t) => {
                    out.push(t);
                    proof {
                        assert forall|i: int| 0 <= i < it@.len() implies it@[i] == self@[out@.len()
                            + i] by {
                            assert(it@[i] == before[i + 1]);
                        }
                    }
                },
                None => {
                    return out;
                },
            }
        }
    }
}

/// Walking a list backward from its tail sentinel meets what walking it
/// forward from its head sentinel meets, in reverse order: the same link
/// nodes, and so the same records of the table that the list holds.
pub proof fn lemma_backward_is_forward_reversed<T>(
    nodes: Seq<exec_node>,
    l: exec_list,
    offset: usize,
    table: Seq<T>,
)
    requires
        l.holds(nodes, offset, table.len()),
    ensures
        nodes_from(nodes, l.tail_sentinel, true) == nodes_from(
            nodes,
            l.head_sentinel,
            false,
        ).reverse(),
        records_of(nodes_from(nodes, l.tail_sentinel, true), offset, table) == records_of(
            nodes_from(nodes, l.head_sentinel, false),
            offset,
            table,
        ).reverse(),
{
    lemma_list_walks(nodes, l);
    let e = l.elems(nodes);
    assert(records_of(e.reverse(), offset, table) =~= records_of(e, offset, table).reverse());
}

/// A list whose sentinels are linked to each other is empty, and walking an
/// empty list meets nothing in either direction.
pub proof fn lemma_empty_list_yields_nothing(nodes: Seq<exec_node>, l: exec_list)
    requires
        l.wf(nodes),
        nodes[l.head_sentinel as int].next == Some(l.tail_sentinel),
    ensures
        l.elems(nodes).len() == 0,
        nodes_from(nodes, l.head_sentinel, false).len() == 0,
        nodes_from(nodes, l.tail_sentinel, true).len() == 0,
{
    lemma_list_walks(nodes, l);
    let path = choose|path: Seq<usize>| l.spans(nodes, path);
    lemma_spans(nodes, l, path);
    assert(linked_at(nodes, path, 0));
    if path.len() > 2 {
        lemma_path_unique(nodes, path, 1, path, path.len() - 1);
    }
}

/// What walking away from a node of a list meets: forward, the nodes after it
/// in list order; backward, the nodes before it, nearest first.
pub proof fn lemma_elem_walks(nodes: Seq<exec_node>, l: exec_list, j: int)
    requires
        l.wf(nodes),
        0 <= j < l.elems(nodes).len(),
    ensures
        is_linked(nodes, l.elems(nodes)[j]),
        nodes[l.elems(nodes)[j] as int].next is Some,
        nodes[l.elems(nodes)[j] as int].prev is Some,
        nodes_from(nodes, l.elems(nodes)[j], false) == l.elems(nodes).subrange(
            j + 1,
            l.elems(nodes).len() as int,
        ),
        nodes_from(nodes, l.elems(nodes)[j], true) == l.elems(nodes).subrange(0, j).reverse(),
{
    let path = choose|path: Seq<usize>| l.spans(nodes, path);
    lemma_spans(nodes, l, path);
    let e = l.elems(nodes);
    let n = e[j];
    assert(n == path[j + 1]);
    lemma_on_path(nodes, path, j + 1, n);
    assert(runs_through(nodes, path, n));
    assert(linked_at(nodes, path, j));
    assert(linked_at(nodes, path, j + 1));
    assert(nodes_after(nodes, n) =~= e.subrange(j + 1, e.len() as int));
    assert(path.subrange(1, j + 1) =~= e.subrange(0, j));
}

} // verus!
