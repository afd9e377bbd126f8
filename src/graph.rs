//! Resolved dependency graphs and the edge-level difference between two of them.
use vstd::prelude::*;

verus! {

/// The text of each string in a sequence.
pub open spec fn texts(s: Seq<String>) -> Seq<Seq<char>> {
    s.map_values(|x: String| x@)
}

/// One resolved package and the packages it depends on.
pub struct DepNode {
    pub id: String,
    pub deps: Vec<String>,
}

impl DepNode {
    pub open spec fn dep_set(&self) -> Set<Seq<char>> {
        texts(self.deps@).to_set()
    }
}

/// A snapshot of a resolved dependency graph: each node once, with its dependencies.
pub struct DependencyGraph {
    pub nodes: Vec<DepNode>,
}

impl DependencyGraph {
    /// The identities of the nodes, in order.
    pub open spec fn ids(&self) -> Seq<Seq<char>> {
        self.nodes@.map_values(|n: DepNode| n.id@)
    }

    /// Each node's identity is listed once, and so is each of its dependencies.
    pub open spec fn wf(&self) -> bool {
        &&& self.ids().no_duplicates()
        &&& forall|i: int| 0 <= i < self.nodes@.len() ==> #[trigger] texts(self.nodes@[i].deps@).no_duplicates()
    }

    /// The graph as a map from node identity to the set of identities it depends on.
    pub open spec fn view(&self) -> Map<Seq<char>, Set<Seq<char>>> {
        Map::new(
            |id: Seq<char>| self.ids().contains(id),
            |id: Seq<char>| self.nodes@[self.ids().index_of(id)].dep_set(),
        )
    }
}

/// What changed for one node: the dependencies it lost and those it gained.
pub struct NodeChange {
    pub id: String,
    pub removed: Vec<String>,
    pub added: Vec<String>,
}

impl NodeChange {
    pub open spec fn view(&self) -> (Seq<char>, Set<Seq<char>>, Set<Seq<char>>) {
        (self.id@, texts(self.removed@).to_set(), texts(self.added@).to_set())
    }
}

/// The change reported for a node of "after" with dependency set `deps`, or none
/// when the node is present in `before` with the same set.  A node that `before`
/// lacks is reported with nothing removed and all its dependencies added.
pub open spec fn node_change(
    before: Map<Seq<char>, Set<Seq<char>>>,
    id: Seq<char>,
    deps: Set<Seq<char>>,
) -> Option<(Seq<char>, Set<Seq<char>>, Set<Seq<char>>)> {
    if !before.contains_key(id) {
        Some((id, Set::empty(), deps))
    } else if before[id] == deps {
        None
    } else {
        Some((id, before[id].difference(deps), deps.difference(before[id])))
    }
}

/// The changes for the nodes of `after`, in the order of `after`.
pub open spec fn graph_diff(
    before: Map<Seq<char>, Set<Seq<char>>>,
    after: Seq<(Seq<char>, Set<Seq<char>>)>,
) -> Seq<(Seq<char>, Set<Seq<char>>, Set<Seq<char>>)>
    decreases after.len(),
{
    if after.len() == 0 {
        Seq::empty()
    } else {
        let rest = graph_diff(before, after.drop_last());
        match node_change(before, after.last().0, after.last().1) {
            Some(c) => rest.push(c),
            None => rest,
        }
    }
}

/// The nodes of a graph as (identity, dependency set) pairs, in order.
pub open spec fn node_views(g: DependencyGraph) -> Seq<(Seq<char>, Set<Seq<char>>)> {
    g.nodes@.map_values(|n: DepNode| (n.id@, n.dep_set()))
}

/// The changes of a result, in order.
pub open spec fn change_views(r: Seq<NodeChange>) -> Seq<(Seq<char>, Set<Seq<char>>, Set<Seq<char>>)> {
    r.map_values(|c: NodeChange| c.view())
}

fn contains_text(v: &Vec<String>, s: &String) -> (r: bool)
    ensures
        r == texts(v@).contains(s@),
{
    let mut i: usize = 0;
    while i < v.len()
        invariant
            i <= v.len(),
            forall|j: int| 0 <= j < i ==> v@[j]@ != s@,
        decreases v.len() - i,
    {
        if v[i] == *s {
            assert(texts(v@)[i as int] == s@);
            return true;
        }
        i += 1;
    }
    assert forall|j: int| 0 <= j < texts(v@).len() implies texts(v@)[j] != s@ by {
        assert(v@[j]@ != s@);
    }
    false
}

proof fn lemma_push_contains<A>(s: Seq<A>, x: A, y: A)
    ensures
        s.push(x).contains(y) <==> (s.contains(y) || y == x),
{
    if s.contains(y) {
        let k = choose|k: int| 0 <= k < s.len() && s[k] == y;
        assert(s.push(x)[k] == y);
    }
    if y == x {
        assert(s.push(x)[s.len() as int] == y);
    }
    if s.push(x).contains(y) && y != x {
        let k = choose|k: int| 0 <= k < s.len() + 1 && #[trigger] s.push(x)[k] == y;
        assert(s[k] == y);
    }
}

/// The strings of `a` that `b` lacks, in the order of `a`.
fn text_difference(a: &Vec<String>, b: &Vec<String>) -> (r: Vec<String>)
    ensures
        texts(r@).to_set() == texts(a@).to_set().difference(texts(b@).to_set()),
        texts(a@).no_duplicates() ==> texts(r@).no_duplicates(),
{
    let ghost ta = texts(a@);
    let ghost tb = texts(b@);
    let mut r: Vec<String> = Vec::new();
    let mut i: usize = 0;
    while i < a.len()
        invariant
            i <= a.len(),
            ta == texts(a@),
            tb == texts(b@),
            forall|x: Seq<char>| #[trigger] texts(r@).contains(x) <==> (ta.take(i as int).contains(x) && !tb.contains(x)),
            ta.no_duplicates() ==> texts(r@).no_duplicates(),
        decreases a.len() - i,
    {
        let keep = !contains_text(b, &a[i]);
        let ghost before = texts(r@);
        let ghost x = ta[i as int];
        assert(x == a@[i as int]@);
        assert(keep == !tb.contains(x));
        assert(ta.take(i + 1) == ta.take(i as int).push(x));
        if keep {
            r.push(a[i].clone());
            assert(texts(r@) == before.push(x));
            proof {
                if ta.no_duplicates() && before.contains(x) {
                    let k = choose|k: int| 0 <= k < i && ta.take(i as int)[k] == x;
                    assert(ta[k] == ta[i as int]);
                }
                assert forall|y: Seq<char>| #[trigger] texts(r@).contains(y) <==> (ta.take(i + 1).contains(y) && !tb.contains(y)) by {
                    lemma_push_contains(ta.take(i as int), x, y);
                    lemma_push_contains(before, x, y);
                    if before.contains(y) {
                        assert(ta.take(i as int).contains(y));
                    }
                }
            }
        } else {
            proof {
                assert forall|y: Seq<char>| #[trigger] texts(r@).contains(y) <==> (ta.take(i + 1).contains(y) && !tb.contains(y)) by {
                    lemma_push_contains(ta.take(i as int), x, y);
                    if before.contains(y) {
                        assert(ta.take(i as int).contains(y));
                    }
                }
            }
        }
        i += 1;
    }
    assert(ta.take(a.len() as int) == ta);
    assert(texts(r@).to_set() =~= ta.to_set().difference(tb.to_set()));
    r
}

fn find_node(g: &DependencyGraph, id: &String) -> (r: Option<usize>)
    ensures
        match r {
            Some(j) => j < g.nodes@.len() && g.ids()[j as int] == id@,
            None => !g.ids().contains(id@),
        },
{
    let mut i: usize = 0;
    while i < g.nodes.len()
        invariant
            i <= g.nodes@.len(),
            forall|j: int| 0 <= j < i ==> g.ids()[j] != id@,
        decreases g.nodes@.len() - i,
    {
        if g.nodes[i].id == *id {
            return Some(i);
        }
        i += 1;
    }
    None
}

proof fn lemma_view_at(g: DependencyGraph, j: int)
    requires
        g.wf(),
        0 <= j < g.nodes@.len(),
    ensures
        g.view().contains_key(g.nodes@[j].id@),
        g.view()[g.nodes@[j].id@] == g.nodes@[j].dep_set(),
{
    let id = g.nodes@[j].id@;
    assert(g.ids()[j] == id);
    let k = g.ids().index_of(id);
    assert(0 <= k < g.ids().len() && g.ids()[k] == id);
}

/// For every node of `after` whose dependency set differs from its set in
/// `before`, the dependencies removed and added; a node that `before` lacks is
/// reported with everything added.  Nodes only in `before` are not reported.
pub fn diff_deps(before: &DependencyGraph, after: &DependencyGraph) -> (r: Vec<NodeChange>)
    requires
        before.wf(),
        after.wf(),
    ensures
        change_views(r@) == graph_diff(before.view(), node_views(*after)),
        forall|j: int| 0 <= j < r@.len() ==> texts((#[trigger] r@[j]).removed@).no_duplicates()
            && texts(r@[j].added@).no_duplicates(),
{
    let mut r: Vec<NodeChange> = Vec::new();
    let mut i: usize = 0;
    while i < after.nodes.len()
        invariant
            i <= after.nodes@.len(),
            before.wf(),
            after.wf(),
            change_views(r@) == graph_diff(before.view(), node_views(*after).take(i as int)),
            forall|j: int| 0 <= j < r@.len() ==> texts((#[trigger] r@[j]).removed@).no_duplicates()
                && texts(r@[j].added@).no_duplicates(),
        decreases after.nodes@.len() - i,
    {
        let node = &after.nodes[i];
        let ghost bv = before.view();
        let ghost prefix = node_views(*after).take(i + 1);
        assert(prefix.drop_last() == node_views(*after).take(i as int));
        assert(prefix.last() == (node.id@, node.dep_set()));
        assert(texts(node.deps@).no_duplicates());
        let ghost old_r = r@;
        match find_node(before, &node.id) {
            None => {
                assert(!bv.contains_key(node.id@));
                let none: Vec<String> = Vec::new();
                let added = text_difference(&node.deps, &none);
                assert(texts(none@).to_set() =~= Set::empty());
                assert(texts(added@).to_set() =~= node.dep_set());
                let removed: Vec<String> = Vec::new();
                assert(texts(removed@).to_set() =~= Set::empty());
                r.push(NodeChange { id: node.id.clone(), removed, added });
                assert(change_views(r@) == change_views(old_r).push(r@[r@.len() - 1].view()));
            },
            Some(j) => {
                proof { lemma_view_at(*before, j as int); }
                let old_deps = &before.nodes[j].deps;
                assert(texts(old_deps@).no_duplicates());
                let removed = text_difference(old_deps, &node.deps);
                let added = text_difference(&node.deps, old_deps);
                if removed.len() != 0 || added.len() != 0 {
                    proof {
                        if bv[node.id@] == node.dep_set() {
                            if removed.len() != 0 {
                                assert(texts(removed@)[0] == removed@[0]@);
                                assert(texts(removed@).to_set().contains(removed@[0]@));
                            } else {
                                assert(texts(added@)[0] == added@[0]@);
                                assert(texts(added@).to_set().contains(added@[0]@));
                            }
                        }
                    }
                    r.push(NodeChange { id: node.id.clone(), removed, added });
                    assert(change_views(r@) == change_views(old_r).push(r@[r@.len() - 1].view()));
                } else {
                    proof {
                        assert(texts(removed@).to_set() =~= Set::empty());
                        assert(texts(added@).to_set() =~= Set::empty());
                        assert(bv[node.id@] =~= node.dep_set()) by {
                            assert forall|x: Seq<char>| bv[node.id@].contains(x) implies node.dep_set().contains(x) by {
                                assert(!texts(removed@).to_set().contains(x));
                            }
                            assert forall|x: Seq<char>| node.dep_set().contains(x) implies bv[node.id@].contains(x) by {
                                assert(!texts(added@).to_set().contains(x));
                            }
                        }
                    }
                }
            },
        }
        i += 1;
    }
    assert(node_views(*after).take(after.nodes@.len() as int) == node_views(*after));
    r
}

fn texts_unique(v: &Vec<String>) -> (r: bool)
    ensures
        r == texts(v@).no_duplicates(),
{
    let mut i: usize = 0;
    while i < v.len()
        invariant
            i <= v.len(),
            forall|a: int, b: int| 0 <= a < b < v@.len() && a < i ==> v@[a]@ != v@[b]@,
        decreases v.len() - i,
    {
        let mut j: usize = i + 1;
        while j < v.len()
            invariant
                i < j <= v.len(),
                i < v.len(),
                forall|a: int, b: int| 0 <= a < b < v@.len() && a < i ==> v@[a]@ != v@[b]@,
                forall|b: int| i < b < j ==> v@[i as int]@ != v@[b]@,
            decreases v.len() - j,
        {
            if v[i] == v[j] {
                assert(texts(v@)[i as int] == texts(v@)[j as int]);
                return false;
            }
            j += 1;
        }
        i += 1;
    }
    assert forall|a: int, b: int| 0 <= a < texts(v@).len() && 0 <= b < texts(v@).len() && a != b
        implies texts(v@)[a] != texts(v@)[b] by {
        if a < b {
            assert(v@[a]@ != v@[b]@);
        } else {
            assert(v@[b]@ != v@[a]@);
        }
    }
    true
}

impl DependencyGraph {
    /// Whether each node is listed once and lists each dependency once.
    pub fn is_well_formed(&self) -> (r: bool)
        ensures
            r == self.wf(),
    {
        let mut ids: Vec<String> = Vec::new();
        let mut i: usize = 0;
        while i < self.nodes.len()
            invariant
                i <= self.nodes@.len(),
                ids@.len() == i,
                texts(ids@) == self.ids().take(i as int),
                forall|j: int| 0 <= j < i ==> #[trigger] texts(self.nodes@[j].deps@).no_duplicates(),
            decreases self.nodes@.len() - i,
        {
            if !texts_unique(&self.nodes[i].deps) {
                return false;
            }
            let ghost prev = ids@;
            ids.push(self.nodes[i].id.clone());
            assert(ids@ == prev.push(ids@[i as int]));
            assert(texts(ids@) =~= texts(prev).push(self.nodes@[i as int].id@));
            assert(self.ids().take(i + 1) =~= self.ids().take(i as int).push(self.nodes@[i as int].id@));
            i += 1;
        }
        assert(self.ids().take(self.nodes@.len() as int) == self.ids());
        texts_unique(&ids)
    }
}

proof fn lemma_self_diff_prefix(g: DependencyGraph, k: int)
    requires
        g.wf(),
        0 <= k <= g.nodes@.len(),
    ensures
        graph_diff(g.view(), node_views(g).take(k)) == Seq::<(Seq<char>, Set<Seq<char>>, Set<Seq<char>>)>::empty(),
    decreases k,
{
    if k > 0 {
        lemma_self_diff_prefix(g, k - 1);
        lemma_view_at(g, k - 1);
        assert(node_views(g).take(k).drop_last() == node_views(g).take(k - 1));
    }
}

/// Diffing a well-formed graph against itself reports no change.
pub proof fn lemma_diff_of_same_graph_is_empty(g: DependencyGraph)
    requires
        g.wf(),
    ensures
        graph_diff(g.view(), node_views(g)).len() == 0,
{
    lemma_self_diff_prefix(g, g.nodes@.len() as int);
    assert(node_views(g).take(g.nodes@.len() as int) == node_views(g));
}

} // verus!
