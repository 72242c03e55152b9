use bio::data_structures::interval_tree::IntervalTree;
use vstd::multiset::Multiset;
use vstd::prelude::*;

verus! {

#[verifier::external_type_specification]
#[verifier::external_body]
#[verifier::reject_recursive_types(N)]
#[verifier::reject_recursive_types(D)]
pub struct ExIntervalTree<N: Ord + Clone, D>(IntervalTree<N, D>);

/// The entries `(start, end, data)` that an interval tree holds.
pub uninterp spec fn tree_entries(t: IntervalTree<u64, usize>) -> Multiset<(u64, u64, usize)>;

/// Whether the half-open intervals `[s1, e1)` and `[s2, e2)` share a point.
pub open spec fn intersects(s1: u64, e1: u64, s2: u64, e2: u64) -> bool {
    s1 < e1 && s2 < e2 && e1 > s2 && s1 < e2
}

/// Relies on bio's `IntervalTree::new`: a fresh tree has no node.
#[verifier::external_body]
fn tree_new() -> (t: IntervalTree<u64, usize>)
    ensures
        tree_entries(t) == Multiset::<(u64, u64, usize)>::empty(),
{
    IntervalTree::new()
}

/// Relies on bio's `IntervalTree::insert`: it adds one node holding the interval and the
/// data. Turning the range into an `Interval` panics when `end < start`.
#[verifier::external_body]
fn tree_insert(t: &mut IntervalTree<u64, usize>, start: u64, end: u64, data: usize)
    requires
        start <= end,
    ensures
        tree_entries(*final(t)) == tree_entries(*old(t)).insert((start, end, data)),
{
    t.insert(start..end, data)
}

/// Relies on bio's `IntervalTree::find`: its iterator visits every node at most once and
/// yields exactly the nodes whose interval intersects the query (see `intersect` there).
#[verifier::external_body]
fn tree_find(t: &IntervalTree<u64, usize>, start: u64, end: u64) -> (r: Vec<(u64, u64, usize)>)
    requires
        start <= end,
    ensures
        forall|e: (u64, u64, usize)|
            #[trigger] r@.to_multiset().count(e) == if intersects(e.0, e.1, start, end) {
                tree_entries(*t).count(e)
            } else {
                0
            },
{
    t.find(start..end).map(|e| (e.interval().start, e.interval().end, *e.data())).collect()
}

/// An execution span of a task: open while `end_ns` is `None`.
pub struct Span {
    pub start_ns: u64,
    pub end_ns: Option<u64>,
    pub name: String,
    pub channel: usize,
}

impl Span {
    /// A closed span ends strictly after it starts.
    pub open spec fn is_closed(&self) -> bool {
        match self.end_ns {
            Some(e) => self.start_ns < e,
            None => false,
        }
    }

    pub open spec fn end(&self) -> u64 {
        self.end_ns.unwrap_or(0)
    }

    /// Whether this span shares a point with the query `[start, end)`.
    pub open spec fn overlaps(&self, start: u64, end: u64) -> bool {
        intersects(self.start_ns, self.end(), start, end)
    }
}

/// The tree entry that stands for the span at position `i`.
pub open spec fn entry_of(spans: Seq<Span>, i: int) -> (u64, u64, usize) {
    (spans[i].start_ns, spans[i].end(), i as usize)
}

/// The closed spans, indexed by their interval `[start_ns, end_ns)`.
pub struct SpanIndex {
    tree: IntervalTree<u64, usize>,
    spans: Vec<Span>,
}

impl SpanIndex {
    pub closed spec fn view(&self) -> Seq<Span> {
        self.spans@
    }

    /// Every stored span is closed, and the tree holds exactly one entry per span.
    pub closed spec fn wf(&self) -> bool {
        &&& forall|i: int| 0 <= i < self@.len() ==> (#[trigger] self@[i]).is_closed()
        &&& forall|e: (u64, u64, usize)|
            #[trigger] tree_entries(self.tree).count(e) == if (e.2 as int) < self@.len()
                && e == entry_of(self@, e.2 as int) {
                1nat
            } else {
                0nat
            }
    }

    pub fn new() -> (r: SpanIndex)
        ensures
            r.wf(),
            r@ == Seq::<Span>::empty(),
    {
        SpanIndex { tree: tree_new(), spans: Vec::new() }
    }

    pub fn len(&self) -> (r: usize)
        ensures
            r == self@.len(),
    {
        self.spans.len()
    }

    pub fn get(&self, i: usize) -> (r: &Span)
        requires
            i < self@.len(),
        ensures
            *r == self@[i as int],
    {
        &self.spans[i]
    }

    /// Stores a closed span.
    pub fn insert(&mut self, span: Span)
        requires
            old(self).wf(),
            span.is_closed(),
            old(self)@.len() < usize::MAX,
        ensures
            final(self).wf(),
            final(self)@ == old(self)@.push(span),
    {
        let ghost before = self.tree;
        let ghost old_spans = self@;
        let i = self.spans.len();
        let start = span.start_ns;
        let end = match span.end_ns {
            Some(e) => e,
            None => 0,
        };
        self.spans.push(span);
        tree_insert(&mut self.tree, start, end, i);
        assert forall|e: (u64, u64, usize)|
            #[trigger] tree_entries(self.tree).count(e) == if (e.2 as int) < self@.len()
                && e == entry_of(self@, e.2 as int) {
                1nat
            } else {
                0nat
            } by {
            assert(tree_entries(before).count(e) == if (e.2 as int) < old_spans.len() && e
                == entry_of(old_spans, e.2 as int) {
                1nat
            } else {
                0nat
            });
            if (e.2 as int) < old_spans.len() {
                assert(entry_of(self@, e.2 as int) == entry_of(old_spans, e.2 as int));
            }
        }
        assert forall|k: int| 0 <= k < self@.len() implies (#[trigger] self@[k]).is_closed() by {
            if k < old_spans.len() {
                assert(self@[k] == old_spans[k]);
            }
        }
    }

    /// Positions of the spans that share a point with `[start, end)`, each once.
    pub fn find(&self, start: u64, end: u64) -> (r: Vec<usize>)
        requires
            self.wf(),
            start <= end,
        ensures
            r@.no_duplicates(),
            forall|i: usize|
                r@.contains(i) <==> ((i as int) < self@.len() && self@[i as int].overlaps(
                    start,
                    end,
                )),
    {
        let found = tree_find(&self.tree, start, end);
        proof {
            broadcast use vstd::multiset::group_multiset_axioms;
            broadcast use vstd::seq_lib::group_to_multiset_ensures;
            assert forall|x: (u64, u64, usize)| found@.to_multiset().contains(x) implies found@.to_multiset().count(x) == 1 by {
                assert(found@.to_multiset().count(x) > 0);
            }
            found@.lemma_multiset_has_no_duplicates_conv();
        }
        let mut r: Vec<usize> = Vec::new();
        let mut k: usize = 0;
        while k < found.len()
            invariant
                self.wf(),
                k <= found@.len(),
                found@.no_duplicates(),
                forall|x: (u64, u64, usize)|
                    #[trigger] found@.to_multiset().count(x) == if intersects(x.0, x.1, start, end) {
                        tree_entries(self.tree).count(x)
                    } else {
                        0
                    },
                r@.len() == k,
                forall|j: int| 0 <= j < k ==> #[trigger] r@[j] == found@[j].2,
                r@.no_duplicates(),
            decreases found@.len() - k,
        {
            proof {
                broadcast use vstd::seq_lib::group_to_multiset_ensures;
                assert forall|j: int| 0 <= j < k implies r@[j] != found@[k as int].2 by {
                    let x = found@[j];
                    let y = found@[k as int];
                    assert(found@.contains(x));
                    assert(found@.contains(y));
                    assert(found@.to_multiset().count(x) > 0);
                    assert(found@.to_multiset().count(y) > 0);
                    assert(x == entry_of(self@, x.2 as int));
                    assert(y == entry_of(self@, y.2 as int));
                }
            }
            r.push(found[k].2);
            k += 1;
        }
        proof {
            broadcast use vstd::seq_lib::group_to_multiset_ensures;
            assert forall|i: usize|
                r@.contains(i) <==> ((i as int) < self@.len() && self@[i as int].overlaps(start, end)) by {
                if r@.contains(i) {
                    let j = choose|j: int| 0 <= j < r@.len() && r@[j] == i;
                    let x = found@[j];
                    assert(found@.contains(x));
                    assert(found@.to_multiset().count(x) > 0);
                    assert(x == entry_of(self@, x.2 as int));
                }
                if (i as int) < self@.len() && self@[i as int].overlaps(start, end) {
                    let x = entry_of(self@, i as int);
                    assert(tree_entries(self.tree).count(x) == 1);
                    assert(found@.to_multiset().count(x) == 1);
                    assert(found@.contains(x));
                    let j = choose|j: int| 0 <= j < found@.len() && found@[j] == x;
                    assert(r@[j] == i);
                }
            }
        }
        r
    }

    /// Every stored span is closed.
    pub proof fn lemma_closed(&self)
        requires
            self.wf(),
        ensures
            forall|i: int| 0 <= i < self@.len() ==> (#[trigger] self@[i]).is_closed(),
    {
    }

    /// Removes every span.
    pub fn clear(&mut self)
        ensures
            final(self).wf(),
            final(self)@ == Seq::<Span>::empty(),
    {
        self.tree = tree_new();
        self.spans = Vec::new();
    }
}

} // verus!
