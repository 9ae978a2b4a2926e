//! The packages that a project reaches, read from its `Cargo.lock` alone.

use vstd::prelude::*;

use crate::data::{
    field_of, items_of, lemma_list_view, list_view, parse_toml, text_field, text_of_data,
    toml_reading, Data, DataView,
};
use crate::fault::Fault;
use crate::protection::dependency::order::{
    ascending_keys, lemma_sorted, lemma_sorted_map, sort, HasKey, Keyed, PackageKey,
};
use crate::protection::dependency::MAX_LOCKED_PACKAGES;
use crate::text::number::is_digit;
use crate::text::order::{ascending, sort_distinct, sort_texts, strictly_ascending};
use crate::text::pattern::{before_first, take_before};
use crate::text::split::{filled, pieces, split_filled, Separator};
use crate::text::{concat2, concat3, concat4, text_option, texts};

verus! {

/// One package of the lock file.
pub struct LockGraphNode {
    pub name: String,
    pub version: String,
    pub source: String,
    pub dependencies: Vec<String>,
}

/// The model of a package of the lock file.
pub struct NodeView {
    pub name: Seq<char>,
    pub version: Seq<char>,
    pub source: Seq<char>,
    pub dependencies: Seq<Seq<char>>,
}

impl View for LockGraphNode {
    type V = NodeView;

    open spec fn view(&self) -> NodeView {
        NodeView {
            name: self.name@,
            version: self.version@,
            source: self.source@,
            dependencies: texts(self.dependencies@),
        }
    }
}

/// The models of a list of packages.
pub open spec fn node_views(nodes: Seq<LockGraphNode>) -> Seq<NodeView> {
    nodes.map_values(|n: LockGraphNode| n@)
}

/// A text, or the empty one.
pub open spec fn or_empty(text: Option<Seq<char>>) -> Seq<char> {
    match text {
        Some(t) => t,
        None => Seq::empty(),
    }
}

/// The entries under `package` in a lock document.
pub open spec fn package_entries(document: DataView) -> Seq<DataView> {
    match field_of(document, "package"@) {
        Some(list) => match items_of(list) {
            Some(items) => items,
            None => Seq::empty(),
        },
        None => Seq::empty(),
    }
}

/// The texts among the items of a list.
pub open spec fn texts_among(items: Seq<DataView>) -> Seq<Seq<char>>
    decreases items.len(),
{
    if items.len() == 0 {
        Seq::empty()
    } else {
        match text_of_data(items.last()) {
            Some(text) => texts_among(items.drop_last()).push(text),
            None => texts_among(items.drop_last()),
        }
    }
}

/// What a package entry depends on.
pub open spec fn dependency_entries(package: DataView) -> Seq<Seq<char>> {
    match field_of(package, "dependencies"@) {
        Some(list) => match items_of(list) {
            Some(items) => texts_among(items),
            None => Seq::empty(),
        },
        None => Seq::empty(),
    }
}

/// The package of an entry; what is missing is empty.
pub open spec fn node_of(package: DataView) -> NodeView {
    NodeView {
        name: or_empty(text_field(package, "name"@)),
        version: or_empty(text_field(package, "version"@)),
        source: or_empty(text_field(package, "source"@)),
        dependencies: dependency_entries(package),
    }
}

/// The packages of a lock document.
pub open spec fn nodes_of(document: DataView) -> Seq<NodeView> {
    package_entries(document).map_values(|p: DataView| node_of(p))
}

/// The words of a dependency before the parenthesis that holds its source.
pub open spec fn dependency_words(dependency: Seq<char>) -> Seq<Seq<char>> {
    filled(pieces(before_first(dependency, " ("@), Separator::Space))
}

/// The package that a dependency names.
pub open spec fn dependency_name(dependency: Seq<char>) -> Seq<char> {
    let words = dependency_words(dependency);
    if words.len() > 0 {
        words[0]
    } else {
        Seq::empty()
    }
}

/// The version that a dependency names: its second word, where that starts with a digit.
pub open spec fn dependency_version(dependency: Seq<char>) -> Option<Seq<char>> {
    let words = dependency_words(dependency);
    if words.len() > 1 && words[1].len() > 0 && is_digit(words[1][0]) {
        Some(words[1])
    } else {
        None
    }
}

/// Whether a package is one that a dependency may mean.
pub open spec fn may_mean(dependency: Seq<char>, node: NodeView) -> bool {
    &&& node.name == dependency_name(dependency)
    &&& dependency_version(dependency) matches Some(version) ==> node.version == version
}

/// The positions below `n` where a condition holds, in order.
pub open spec fn pick(n: nat, condition: spec_fn(int) -> bool) -> Seq<int>
    decreases n,
{
    if n == 0 {
        Seq::empty()
    } else if condition(n - 1) {
        pick((n - 1) as nat, condition).push(n - 1)
    } else {
        pick((n - 1) as nat, condition)
    }
}

/// The condition to be a package that a dependency may mean.
pub open spec fn meant_by(nodes: Seq<NodeView>, dependency: Seq<char>) -> spec_fn(int) -> bool {
    |i: int| may_mean(dependency, nodes[i])
}

/// Whether some package has the name of a dependency.
pub open spec fn is_named(nodes: Seq<NodeView>, dependency: Seq<char>) -> bool {
    exists|i: int|
        0 <= i < nodes.len() && (#[trigger] nodes[i]).name == dependency_name(dependency)
}

/// Whether a package belongs to the project itself: it has no source.
pub open spec fn is_root(nodes: Seq<NodeView>, i: int) -> bool {
    0 <= i < nodes.len() && nodes[i].source.len() == 0
}

/// The condition to belong to the project itself.
pub open spec fn root_condition(nodes: Seq<NodeView>) -> spec_fn(int) -> bool {
    |i: int| is_root(nodes, i)
}

/// Whether one of the dependencies of a package may mean another package.
pub open spec fn depends_on(nodes: Seq<NodeView>, i: int, j: int) -> bool {
    &&& 0 <= i < nodes.len()
    &&& 0 <= j < nodes.len()
    &&& exists|k: int|
        0 <= k < nodes[i].dependencies.len() && may_mean(
            #[trigger] nodes[i].dependencies[k],
            nodes[j],
        )
}

/// Whether a package is reached from one of the project's own in at most `steps` dependencies.
pub open spec fn reached_within(nodes: Seq<NodeView>, steps: nat, i: int) -> bool
    decreases steps,
{
    if steps == 0 {
        is_root(nodes, i)
    } else {
        ||| reached_within(nodes, (steps - 1) as nat, i)
        ||| exists|j: int|
            #[trigger] depends_on(nodes, j, i) && reached_within(nodes, (steps - 1) as nat, j)
    }
}

/// Whether a package is reached from one of the project's own.
pub open spec fn is_reached(nodes: Seq<NodeView>, i: int) -> bool {
    exists|steps: nat| reached_within(nodes, steps, i)
}

/// The condition to be reached.
pub open spec fn reached_condition(nodes: Seq<NodeView>) -> spec_fn(int) -> bool {
    |i: int| is_reached(nodes, i)
}

/// How a dependency that does not mean exactly one package is reported.
pub open spec fn doubt(nodes: Seq<NodeView>, i: int, k: int) -> Option<Seq<char>> {
    let dependency = nodes[i].dependencies[k];
    if !is_named(nodes, dependency) {
        Some(nodes[i].name + " -> "@ + dependency + " (missing)"@)
    } else if pick(nodes.len(), meant_by(nodes, dependency)).len() != 1 {
        Some(nodes[i].name + " -> "@ + dependency)
    } else {
        None
    }
}

/// Whether a text reports a doubtful dependency of a package.
pub open spec fn doubted_by(nodes: Seq<NodeView>, i: int, text: Seq<char>) -> bool {
    exists|k: int|
        0 <= k < nodes[i].dependencies.len() && #[trigger] doubt(nodes, i, k) == Some(text)
}

/// Whether a text reports a doubtful dependency of a package that is reached.
pub open spec fn is_doubted(nodes: Seq<NodeView>, text: Seq<char>) -> bool {
    exists|i: int|
        0 <= i < nodes.len() && is_reached(nodes, i) && #[trigger] doubted_by(nodes, i, text)
}

/// Name and version of a package.
pub open spec fn root_name(node: NodeView) -> Seq<char> {
    node.name + " "@ + node.version
}

/// Name and version of the project's own packages.
pub open spec fn root_names(nodes: Seq<NodeView>) -> Seq<Seq<char>> {
    pick(nodes.len(), root_condition(nodes)).map_values(|i: int| root_name(nodes[i]))
}

/// Where a package comes from; the project's own come from the workspace.
pub open spec fn coordinate(node: NodeView) -> PackageKey {
    PackageKey {
        name: node.name,
        version: node.version,
        source: if node.source.len() == 0 {
            "workspace"@
        } else {
            node.source
        },
    }
}

/// The packages that are reached.
pub open spec fn reached_packages(nodes: Seq<NodeView>) -> Seq<PackageKey> {
    pick(nodes.len(), reached_condition(nodes)).map_values(|i: int| coordinate(nodes[i]))
}

/// A locked package and where it comes from.
#[derive(Debug)]
pub struct CargoPackageCoordinate {
    pub name: String,
    pub version: String,
    pub source: String,
}

impl View for CargoPackageCoordinate {
    type V = PackageKey;

    open spec fn view(&self) -> PackageKey {
        PackageKey { name: self.name@, version: self.version@, source: self.source@ }
    }
}

impl HasKey for CargoPackageCoordinate {
    open spec fn key(self) -> PackageKey {
        self@
    }
}

impl Keyed for CargoPackageCoordinate {
    fn key_texts(&self) -> (r: (&str, &str, &str)) {
        (self.name.as_str(), self.version.as_str(), self.source.as_str())
    }
}

/// The models of a list of packages.
pub open spec fn coordinate_views(list: Seq<CargoPackageCoordinate>) -> Seq<PackageKey> {
    list.map_values(|c: CargoPackageCoordinate| c@)
}

/// What a project reaches among its locked packages.
#[derive(Debug)]
pub struct CargoReachabilitySnapshot {
    pub roots: Vec<String>,
    pub reachable_packages: Vec<CargoPackageCoordinate>,
    pub ambiguous_edges: Vec<String>,
}

/// Whether a snapshot is that of a list of packages: the project's own packages and those that are
/// reached, each as often as it is locked, and the doubtful dependencies, each once; all sorted.
pub open spec fn is_snapshot_of(
    snapshot: CargoReachabilitySnapshot,
    nodes: Seq<NodeView>,
) -> bool {
    &&& ascending(texts(snapshot.roots@))
    &&& texts(snapshot.roots@).to_multiset() == root_names(nodes).to_multiset()
    &&& ascending_keys(snapshot.reachable_packages@)
    &&& coordinate_views(snapshot.reachable_packages@).to_multiset() == reached_packages(
        nodes,
    ).to_multiset()
    &&& strictly_ascending(texts(snapshot.ambiguous_edges@))
    &&& forall|t: Seq<char>|
        texts(snapshot.ambiguous_edges@).contains(t) <==> #[trigger] is_doubted(nodes, t)
}

/// What a package of the project's own is reached by: nothing.
pub proof fn lemma_root_is_reached(nodes: Seq<NodeView>, i: int)
    requires
        is_root(nodes, i),
    ensures
        is_reached(nodes, i),
{
    assert(reached_within(nodes, 0, i));
}

/// What a reached package depends on is reached.
pub proof fn lemma_dependency_is_reached(nodes: Seq<NodeView>, i: int, j: int)
    requires
        is_reached(nodes, i),
        depends_on(nodes, i, j),
    ensures
        is_reached(nodes, j),
{
    let steps = choose|steps: nat| reached_within(nodes, steps, i);
    let more: nat = steps + 1;
    assert((more - 1) as nat == steps);
    assert(reached_within(nodes, more, j));
}

/// A set of packages that holds the project's own, and with each package what it depends on, holds
/// every package that is reached.
pub proof fn lemma_closed_set_holds_reached(nodes: Seq<NodeView>, held: spec_fn(int) -> bool, i: int)
    requires
        forall|r: int| #[trigger] is_root(nodes, r) ==> held(r),
        forall|a: int, b: int| held(a) && #[trigger] depends_on(nodes, a, b) ==> held(b),
        is_reached(nodes, i),
    ensures
        held(i),
{
    let steps = choose|steps: nat| reached_within(nodes, steps, i);
    lemma_closed_set_holds_reached_within(nodes, held, steps, i);
}

proof fn lemma_closed_set_holds_reached_within(
    nodes: Seq<NodeView>,
    held: spec_fn(int) -> bool,
    steps: nat,
    i: int,
)
    requires
        forall|r: int| #[trigger] is_root(nodes, r) ==> held(r),
        forall|a: int, b: int| held(a) && #[trigger] depends_on(nodes, a, b) ==> held(b),
        reached_within(nodes, steps, i),
    ensures
        held(i),
    decreases steps,
{
    if steps > 0 {
        if reached_within(nodes, (steps - 1) as nat, i) {
            lemma_closed_set_holds_reached_within(nodes, held, (steps - 1) as nat, i);
        } else {
            let j = choose|j: int|
                #[trigger] depends_on(nodes, j, i) && reached_within(nodes, (steps - 1) as nat, j);
            lemma_closed_set_holds_reached_within(nodes, held, (steps - 1) as nat, j);
        }
    }
}

proof fn lemma_pick(n: nat, condition: spec_fn(int) -> bool)
    ensures
        forall|i: int|
            #[trigger] pick(n, condition).contains(i) <==> 0 <= i < n && condition(i),
        forall|q: int| 0 <= q < pick(n, condition).len() ==> 0 <= #[trigger] pick(n, condition)[q] < n,
    decreases n,
{
    if n > 0 {
        let before = pick((n - 1) as nat, condition);
        lemma_pick((n - 1) as nat, condition);
        crate::text::order::lemma_push_contains(before, n - 1);
        assert forall|i: int|
            #[trigger] pick(n, condition).contains(i) <==> 0 <= i < n && condition(i) by {
            assert(before.contains(i) <==> 0 <= i < n - 1 && condition(i));
        }
    }
}

/// Name and version that a dependency of a lock file names.
pub fn parse_lock_dependency(dependency: &str) -> (r: (String, Option<String>))
    ensures
        r.0@ == dependency_name(dependency@),
        text_option(r.1) == dependency_version(dependency@),
{
    let coordinate = take_before(dependency, " (");
    let words = split_filled(coordinate.as_str(), Separator::Space);
    let ghost list = dependency_words(dependency@);
    assert(texts(words@) == list);
    let name = if words.len() > 0 {
        assert(list[0] == words@[0]@);
        words[0].clone()
    } else {
        String::new()
    };
    let version = if words.len() > 1 {
        assert(list[1] == words@[1]@);
        let chars = crate::text::chars_of(words[1].as_str());
        if chars.len() > 0 && '0' <= chars[0] && chars[0] <= '9' {
            Some(words[1].clone())
        } else {
            None
        }
    } else {
        None
    };
    (name, version)
}

/// The packages that a dependency may mean, and whether one has its name.
fn find_meant(nodes: &Vec<LockGraphNode>, dependency: &str) -> (r: (Vec<usize>, bool))
    ensures
        r.0@.map_values(|i: usize| i as int) == pick(
            nodes@.len(),
            meant_by(node_views(nodes@), dependency@),
        ),
        r.1 == is_named(node_views(nodes@), dependency@),
{
    let (name, version) = parse_lock_dependency(dependency);
    let ghost views = node_views(nodes@);
    let ghost condition = meant_by(views, dependency@);
    let mut found: Vec<usize> = Vec::new();
    let mut named = false;
    let mut i: usize = 0;
    assert(found@.map_values(|i: usize| i as int) =~= pick(0, condition));
    while i < nodes.len()
        invariant
            i <= nodes@.len(),
            views == node_views(nodes@),
            condition == meant_by(views, dependency@),
            name@ == dependency_name(dependency@),
            text_option(version) == dependency_version(dependency@),
            found@.map_values(|i: usize| i as int) == pick(i as nat, condition),
            named ==> is_named(views, dependency@),
            !named ==> forall|j: int|
                0 <= j < i ==> (#[trigger] views[j]).name != dependency_name(dependency@),
        decreases nodes@.len() - i,
    {
        assert(views[i as int] == nodes@[i as int]@);
        let ghost before = found@;
        if nodes[i].name == name {
            named = true;
            let fits = match &version {
                Some(wanted) => nodes[i].version == *wanted,
                None => true,
            };
            assert(fits == condition(i as int));
            if fits {
                found.push(i);
                assert(found@.map_values(|i: usize| i as int) =~= before.map_values(
                    |i: usize| i as int,
                ).push(i as int));
            }
        } else {
            assert(!condition(i as int));
        }
        i = i + 1;
    }
    (found, named)
}

/// Adds what a package depends on to the queue, and its doubtful dependencies to the list of those.
fn expand(
    nodes: &Vec<LockGraphNode>,
    index: usize,
    queue: &mut Vec<usize>,
    doubts: &mut Vec<String>,
)
    requires
        index < nodes@.len(),
    ensures
        old(queue)@.len() <= final(queue)@.len(),
        final(queue)@.take(old(queue)@.len() as int) == old(queue)@,
        forall|q: int|
            old(queue)@.len() <= q < final(queue)@.len() ==> depends_on(
                node_views(nodes@),
                index as int,
                #[trigger] final(queue)@[q] as int,
            ),
        forall|j: int|
            #[trigger] depends_on(node_views(nodes@), index as int, j) ==> exists|q: int|
                old(queue)@.len() <= q < final(queue)@.len() && #[trigger] final(queue)@[q] == j,
        forall|t: Seq<char>|
            texts(final(doubts)@).contains(t) <==> texts(old(doubts)@).contains(t)
                || #[trigger] doubted_by(node_views(nodes@), index as int, t),
{
    broadcast use crate::text::lemma_texts_push;

    let ghost views = node_views(nodes@);
    let ghost queue_before = queue@;
    let ghost doubts_before = texts(doubts@);
    let ghost start = queue@.len() as int;
    let ghost own = views[index as int];
    assert(own == nodes@[index as int]@);
    let node = &nodes[index];
    let mut k: usize = 0;
    while k < node.dependencies.len()
        invariant
            k <= node.dependencies@.len(),
            index < nodes@.len(),
            *node == nodes@[index as int],
            views == node_views(nodes@),
            own == views[index as int],
            own == (*node)@,
            start == queue_before.len(),
            start <= queue@.len(),
            queue@.take(start) == queue_before,
            forall|q: int|
                start <= q < queue@.len() ==> depends_on(
                    views,
                    index as int,
                    #[trigger] queue@[q] as int,
                ),
            forall|d: int, j: int|
                0 <= d < k && 0 <= j < views.len() && #[trigger] may_mean(
                    own.dependencies[d],
                    views[j],
                ) ==> exists|q: int| start <= q < queue@.len() && #[trigger] queue@[q] == j,
            forall|t: Seq<char>|
                #[trigger] texts(doubts@).contains(t) <==> doubts_before.contains(t) || (exists|d: int|
                    0 <= d < k && #[trigger] doubt(views, index as int, d) == Some(t)),
        decreases node.dependencies@.len() - k,
    {
        let ghost dependency = own.dependencies[k as int];
        assert(dependency == node.dependencies@[k as int]@);
        let (found, named) = find_meant(nodes, node.dependencies[k].as_str());
        let ghost meant = pick(views.len(), meant_by(views, dependency));
        assert(found@.len() == found@.map_values(|i: usize| i as int).len());
        let ghost texts_before = texts(doubts@);
        let ghost told = doubt(views, index as int, k as int);
        if !named {
            doubts.push(
                concat4(node.name.as_str(), " -> ", node.dependencies[k].as_str(), " (missing)"),
            );
            assert(told == Some(doubts@.last()@));
        } else if found.len() != 1 {
            doubts.push(concat3(node.name.as_str(), " -> ", node.dependencies[k].as_str()));
            assert(told == Some(doubts@.last()@));
        }
        proof {
            if told is Some {
                assert(texts(doubts@) =~= texts_before.push(told->0));
                crate::text::order::lemma_push_contains(texts_before, told->0);
            }
            assert forall|t: Seq<char>|
                #[trigger] texts(doubts@).contains(t) <==> doubts_before.contains(t) || (exists|d: int|
                    0 <= d < k + 1 && #[trigger] doubt(views, index as int, d) == Some(t)) by {
                assert(texts(doubts@).contains(t) <==> texts_before.contains(t) || told == Some(t));
                if texts_before.contains(t) && !doubts_before.contains(t) {
                    let d = choose|d: int|
                        0 <= d < k && #[trigger] doubt(views, index as int, d) == Some(t);
                    assert(doubt(views, index as int, d) == Some(t));
                }
                if told == Some(t) {
                    assert(doubt(views, index as int, k as int) == Some(t));
                }
            }
            lemma_pick(views.len(), meant_by(views, dependency));
        }
        let ghost queue_now = queue@;
        let mut m: usize = 0;
        while m < found.len()
            invariant
                m <= found@.len(),
                index < nodes@.len(),
                k < node.dependencies@.len(),
                *node == nodes@[index as int],
                views == node_views(nodes@),
                views.len() == nodes@.len(),
                own == views[index as int],
                own == (*node)@,
                dependency == own.dependencies[k as int],
                meant == pick(views.len(), meant_by(views, dependency)),
                found@.map_values(|i: usize| i as int) == meant,
                forall|i: int|
                    #[trigger] meant.contains(i) <==> 0 <= i < views.len() && meant_by(
                        views,
                        dependency,
                    )(i),
                0 <= start <= queue_now.len(),
                queue@.len() == queue_now.len() + m,
                queue@.take(queue_now.len() as int) == queue_now,
                forall|q: int|
                    0 <= q < m ==> #[trigger] queue@[queue_now.len() + q] == found@[q],
                forall|q: int|
                    start <= q < queue@.len() ==> depends_on(
                        views,
                        index as int,
                        #[trigger] queue@[q] as int,
                    ),
            decreases found@.len() - m,
        {
            let ghost queue_then = queue@;
            proof {
                let target = found@[m as int] as int;
                assert(meant[m as int] == target);
                assert(meant.contains(target));
                assert(may_mean(own.dependencies[k as int], views[target]));
                assert(depends_on(views, index as int, target));
            }
            queue.push(found[m]);
            assert(queue@.take(queue_now.len() as int) =~= queue_then.take(queue_now.len() as int));
            assert forall|q: int| start <= q < queue@.len() implies depends_on(
                views,
                index as int,
                #[trigger] queue@[q] as int,
            ) by {
                if q < queue_then.len() {
                    assert(queue@[q] == queue_then[q]);
                }
            }
            m = m + 1;
        }
        proof {
            assert(queue@.take(start) =~= queue_now.take(start)) by {
                assert forall|q: int| 0 <= q < start implies queue@[q] == queue_now[q] by {
                    assert(queue@.take(queue_now.len() as int)[q] == queue_now[q]);
                }
            }
            assert forall|d: int, j: int|
                0 <= d < k + 1 && 0 <= j < views.len() && #[trigger] may_mean(
                    own.dependencies[d],
                    views[j],
                ) implies exists|q: int| start <= q < queue@.len() && #[trigger] queue@[q] == j by {
                if d < k {
                    let q = choose|q: int|
                        start <= q < queue_now.len() && #[trigger] queue_now[q] == j;
                    assert(queue@.take(queue_now.len() as int)[q] == queue_now[q]);
                    assert(queue@[q] == j);
                } else {
                    assert(meant.contains(j));
                    let p = choose|p: int| 0 <= p < meant.len() && meant[p] == j;
                    assert(found@[p] == j);
                    assert(queue@[queue_now.len() + p] == j);
                }
            }
        }
        k = k + 1;
    }
    assert forall|j: int| #[trigger] depends_on(views, index as int, j) implies exists|q: int|
        start <= q < queue@.len() && #[trigger] queue@[q] == j by {
        let d = choose|d: int|
            0 <= d < own.dependencies.len() && may_mean(#[trigger] own.dependencies[d], views[j]);
        assert(may_mean(own.dependencies[d], views[j]));
    }
    assert forall|t: Seq<char>|
        texts(doubts@).contains(t) <==> doubts_before.contains(t) || #[trigger] doubted_by(
            views,
            index as int,
            t,
        ) by {
        assert(texts(doubts@).contains(t) <==> doubts_before.contains(t) || (exists|d: int|
            0 <= d < k && #[trigger] doubt(views, index as int, d) == Some(t)));
    }
}

/// Whether a position is still to be looked at.
spec fn is_pending(queue: Seq<usize>, head: int, i: int) -> bool {
    exists|q: int| head <= q < queue.len() && #[trigger] queue[q] == i
}

/// The packages that are reached, and the doubtful dependencies of those.
#[verifier::rlimit(40)]
fn walk(nodes: &Vec<LockGraphNode>) -> (r: (Vec<bool>, Vec<String>))
    ensures
        r.0@.len() == nodes@.len(),
        forall|i: int|
            0 <= i < nodes@.len() ==> #[trigger] r.0@[i] == is_reached(node_views(nodes@), i),
        forall|t: Seq<char>|
            texts(r.1@).contains(t) <==> #[trigger] is_doubted(node_views(nodes@), t),
{
    let ghost views = node_views(nodes@);
    let mut visited: Vec<bool> = Vec::new();
    let mut queue: Vec<usize> = Vec::new();
    let mut doubts: Vec<String> = Vec::new();
    let mut i: usize = 0;
    while i < nodes.len()
        invariant
            i <= nodes@.len(),
            views == node_views(nodes@),
            visited@.len() == i,
            forall|j: int| 0 <= j < i ==> !#[trigger] visited@[j],
            forall|q: int| 0 <= q < queue@.len() ==> is_root(views, #[trigger] queue@[q] as int),
            forall|j: int| 0 <= j < i && #[trigger] is_root(views, j) ==> is_pending(queue@, 0, j),
        decreases nodes@.len() - i,
    {
        assert(views[i as int] == nodes@[i as int]@);
        visited.push(false);
        let ghost before = queue@;
        if nodes[i].source.as_str().is_empty() {
            queue.push(i);
            assert(queue@[before.len() as int] == i);
        }
        assert forall|j: int| 0 <= j < i + 1 && #[trigger] is_root(views, j) implies is_pending(
            queue@,
            0,
            j,
        ) by {
            if j < i {
                let q = choose|q: int| 0 <= q < before.len() && #[trigger] before[q] == j;
                assert(queue@[q] == j);
            }
        }
        i = i + 1;
    }
    let mut head: usize = 0;
    let ghost mut open: Set<int> = vstd::set_lib::set_int_range(0, nodes@.len() as int);
    proof {
        vstd::set_lib::lemma_int_range(0, nodes@.len() as int);
        assert forall|q: int| 0 <= q < queue@.len() implies is_reached(
            views,
            #[trigger] queue@[q] as int,
        ) by {
            lemma_root_is_reached(views, queue@[q] as int);
        }
        assert(texts(doubts@) =~= Seq::<Seq<char>>::empty());
    }
    while head < queue.len()
        invariant
            views == node_views(nodes@),
            views.len() == nodes@.len(),
            visited@.len() == nodes@.len(),
            head <= queue@.len(),
            open.finite(),
            forall|j: int|
                #[trigger] open.contains(j) <==> 0 <= j < nodes@.len() && !visited@[j],
            forall|q: int|
                0 <= q < queue@.len() ==> #[trigger] queue@[q] < nodes@.len() && is_reached(
                    views,
                    queue@[q] as int,
                ),
            forall|j: int| 0 <= j < nodes@.len() && #[trigger] visited@[j] ==> is_reached(views, j),
            forall|j: int|
                #[trigger] is_root(views, j) ==> visited@[j] || is_pending(queue@, head as int, j),
            forall|a: int, b: int|
                #[trigger] depends_on(views, a, b) && visited@[a] ==> visited@[b] || is_pending(
                    queue@,
                    head as int,
                    b,
                ),
            forall|t: Seq<char>|
                #[trigger] texts(doubts@).contains(t) <==> exists|a: int|
                    0 <= a < nodes@.len() && visited@[a] && #[trigger] doubted_by(views, a, t),
        decreases open.len(), queue@.len() - head,
    {
        let index = queue[head];
        let ghost queue_before = queue@;
        let ghost visited_before = visited@;
        let ghost head_before = head as int;
        let ghost texts_before = texts(doubts@);
        head = head + 1;
        if visited[index] {
            assert forall|j: int| is_pending(queue@, head_before, j) && !visited@[j] implies is_pending(
                queue@,
                head as int,
                j,
            ) by {
                let q = choose|q: int| head_before <= q < queue@.len() && #[trigger] queue@[q] == j;
                assert(q != head_before);
            }
            continue ;
        }
        visited.set(index, true);
        proof {
            assert(open.contains(index as int));
            open = open.remove(index as int);
        }
        expand(nodes, index, &mut queue, &mut doubts);
        assert forall|t: Seq<char>|
            texts(doubts@).contains(t) <==> texts_before.contains(t) || #[trigger] doubted_by(
                views,
                index as int,
                t,
            ) by {
            assert(doubted_by(node_views(nodes@), index as int, t) == doubted_by(views, index as int, t));
        }
        proof {
            let n = queue_before.len() as int;
            assert forall|q: int| 0 <= q < n implies #[trigger] queue@[q] == queue_before[q] by {
                assert(queue@.take(n)[q] == queue_before[q]);
            }
            assert forall|q: int| 0 <= q < queue@.len() implies #[trigger] queue@[q] < nodes@.len()
                && is_reached(views, queue@[q] as int) by {
                if q >= n {
                    lemma_dependency_is_reached(views, index as int, queue@[q] as int);
                } else {
                    assert(queue@[q] == queue_before[q]);
                }
            }
            assert forall|j: int| is_pending(queue_before, head_before, j) && !visited@[j] implies is_pending(
            queue@, head as int, j) by {
                let q = choose|q: int|
                    head_before <= q < queue_before.len() && #[trigger] queue_before[q] == j;
                assert(q != head_before);
                assert(queue@[q] == j);
            }
            assert forall|j: int| #[trigger] is_root(views, j) implies visited@[j] || is_pending(
                queue@,
                head as int,
                j,
            ) by {
                assert(visited_before[j] || is_pending(queue_before, head_before, j));
            }
            assert forall|a: int, b: int|
                #[trigger] depends_on(views, a, b) && visited@[a] implies visited@[b] || is_pending(
                queue@,
                head as int,
                b,
            ) by {
                if a == index {
                    let q = choose|q: int| n <= q < queue@.len() && #[trigger] queue@[q] == b;
                    assert(queue@[q] == b);
                } else {
                    assert(visited_before[a]);
                    assert(visited_before[b] || is_pending(queue_before, head_before, b));
                }
            }
            assert forall|t: Seq<char>|
                #[trigger] texts(doubts@).contains(t) <==> exists|a: int|
                    0 <= a < nodes@.len() && visited@[a] && #[trigger] doubted_by(views, a, t) by {
                let now = doubted_by(views, index as int, t);
                assert(texts(doubts@).contains(t) == (texts_before.contains(t) || now));
                if texts_before.contains(t) {
                    let a = choose|a: int|
                        0 <= a < nodes@.len() && visited_before[a] && #[trigger] doubted_by(views, a, t);
                    assert(visited@[a] && doubted_by(views, a, t));
                }
                if exists|a: int|
                    0 <= a < nodes@.len() && visited@[a] && #[trigger] doubted_by(views, a, t) {
                    let a = choose|a: int|
                        0 <= a < nodes@.len() && visited@[a] && #[trigger] doubted_by(views, a, t);
                    if a != index {
                        assert(visited_before[a]);
                    }
                }
            }
        }
    }
    proof {
        let held = |j: int| 0 <= j < nodes@.len() && visited@[j];
        assert forall|r: int| #[trigger] is_root(views, r) implies held(r) by {
            assert(!is_pending(queue@, head as int, r));
        }
        assert forall|a: int, b: int| held(a) && #[trigger] depends_on(views, a, b) implies held(
            b,
        ) by {
            assert(!is_pending(queue@, head as int, b));
        }
        assert forall|j: int| 0 <= j < nodes@.len() implies #[trigger] visited@[j] == is_reached(
            views,
            j,
        ) by {
            if is_reached(views, j) {
                lemma_closed_set_holds_reached(views, held, j);
            }
        }
        assert forall|t: Seq<char>| texts(doubts@).contains(t) <==> #[trigger] is_doubted(
            views,
            t,
        ) by {
            if texts(doubts@).contains(t) {
                let a = choose|a: int|
                    0 <= a < nodes@.len() && visited@[a] && #[trigger] doubted_by(views, a, t);
                assert(is_reached(views, a) && doubted_by(views, a, t));
            }
            if is_doubted(views, t) {
                let a = choose|a: int|
                    0 <= a < views.len() && is_reached(views, a) && #[trigger] doubted_by(views, a, t);
                assert(visited@[a] && doubted_by(views, a, t));
            }
        }
    }
    (visited, doubts)
}

/// The text in a field, or the empty one.
pub fn text_or_empty(package: &Data, name: &str) -> (r: String)
    ensures
        r@ == or_empty(text_field(package@, name@)),
{
    match package.text_in(name) {
        Some(text) => text,
        None => String::new(),
    }
}

fn read_dependencies(package: &Data) -> (r: Vec<String>)
    ensures
        texts(r@) == dependency_entries(package@),
{
    broadcast use crate::text::lemma_texts_push;

    let mut out: Vec<String> = Vec::new();
    assert(texts(out@) =~= Seq::<Seq<char>>::empty());
    if let Some(list) = package.field("dependencies") {
        if let Some(items) = list.items() {
            let ghost views = list_view(items@);
            proof {
                lemma_list_view(items@);
            }
            let mut i: usize = 0;
            assert(views.take(0) =~= Seq::<DataView>::empty());
            while i < items.len()
                invariant
                    i <= items@.len(),
                    views.len() == items@.len(),
                    forall|j: int| 0 <= j < items@.len() ==> #[trigger] views[j] == items@[j]@,
                    texts(out@) == texts_among(views.take(i as int)),
                decreases items@.len() - i,
            {
                assert(views.take(i + 1).drop_last() =~= views.take(i as int));
                assert(views[i as int] == items@[i as int]@);
                if let Some(text) = items[i].text() {
                    out.push(text);
                }
                i = i + 1;
            }
            assert(views.take(i as int) =~= views);
        }
    }
    out
}

/// Reads the packages of a lock document.
fn read_nodes(document: &Data) -> (r: Vec<LockGraphNode>)
    ensures
        node_views(r@) == nodes_of(document@),
{
    let mut out: Vec<LockGraphNode> = Vec::new();
    if let Some(list) = document.field("package") {
        if let Some(items) = list.items() {
            let ghost views = list_view(items@);
            proof {
                lemma_list_view(items@);
            }
            let mut i: usize = 0;
            while i < items.len()
                invariant
                    i <= items@.len(),
                    views.len() == items@.len(),
                    forall|j: int| 0 <= j < items@.len() ==> #[trigger] views[j] == items@[j]@,
                    out@.len() == i,
                    forall|j: int| 0 <= j < i ==> (#[trigger] out@[j])@ == node_of(views[j]),
                decreases items@.len() - i,
            {
                let package = &items[i];
                assert(views[i as int] == items@[i as int]@);
                out.push(
                    LockGraphNode {
                        name: text_or_empty(package, "name"),
                        version: text_or_empty(package, "version"),
                        source: text_or_empty(package, "source"),
                        dependencies: read_dependencies(package),
                    },
                );
                i = i + 1;
            }
            assert(views == package_entries(document@));
        }
    }
    assert(node_views(out@) =~= nodes_of(document@));
    out
}

/// What a list of packages reaches from the project's own.
pub fn snapshot_of(nodes: &Vec<LockGraphNode>) -> (r: CargoReachabilitySnapshot)
    ensures
        is_snapshot_of(r, node_views(nodes@)),
{
    broadcast use crate::text::lemma_texts_push;

    let ghost views = node_views(nodes@);
    let (visited, doubts) = walk(nodes);
    let mut roots: Vec<String> = Vec::new();
    let mut reached: Vec<CargoPackageCoordinate> = Vec::new();
    let ghost named = |i: int| root_name(views[i]);
    let ghost placed = |i: int| coordinate(views[i]);
    let mut i: usize = 0;
    assert(texts(roots@) =~= pick(0, root_condition(views)).map_values(named));
    assert(coordinate_views(reached@) =~= pick(0, reached_condition(views)).map_values(placed));
    while i < nodes.len()
        invariant
            i <= nodes@.len(),
            views == node_views(nodes@),
            named == (|i: int| root_name(views[i])),
            placed == (|i: int| coordinate(views[i])),
            visited@.len() == nodes@.len(),
            forall|j: int| 0 <= j < nodes@.len() ==> #[trigger] visited@[j] == is_reached(views, j),
            texts(roots@) == pick(i as nat, root_condition(views)).map_values(named),
            coordinate_views(reached@) == pick(i as nat, reached_condition(views)).map_values(
                placed,
            ),
        decreases nodes@.len() - i,
    {
        assert(views[i as int] == nodes@[i as int]@);
        let node = &nodes[i];
        let own = node.source.as_str().is_empty();
        let ghost roots_before = pick(i as nat, root_condition(views));
        let ghost reached_before = pick(i as nat, reached_condition(views));
        let ghost coordinates_before = coordinate_views(reached@);
        assert(own == root_condition(views)(i as int));
        if own {
            roots.push(concat3(node.name.as_str(), " ", node.version.as_str()));
            assert(roots_before.push(i as int).map_values(named) =~= roots_before.map_values(
                named,
            ).push(named(i as int)));
        }
        assert(visited@[i as int] == reached_condition(views)(i as int));
        if visited[i] {
            let source = if own {
                "workspace".to_owned()
            } else {
                node.source.clone()
            };
            let item = CargoPackageCoordinate {
                name: node.name.clone(),
                version: node.version.clone(),
                source,
            };
            assert(item@ == placed(i as int));
            reached.push(item);
            assert(coordinate_views(reached@) =~= coordinates_before.push(placed(i as int)));
            assert(reached_before.push(i as int).map_values(placed) =~= reached_before.map_values(
                placed,
            ).push(placed(i as int)));
        }
        i = i + 1;
    }
    let ghost given = reached@;
    let roots = sort_texts(roots);
    let reachable_packages = sort(reached);
    let ambiguous_edges = sort_distinct(doubts);
    proof {
        lemma_sorted(given);
        lemma_sorted_map(given, |c: CargoPackageCoordinate| c@);
        assert forall|t: Seq<char>|
            texts(ambiguous_edges@).contains(t) <==> #[trigger] is_doubted(views, t) by {
            assert(texts(ambiguous_edges@).to_set().contains(t) <==> texts(
                doubts@,
            ).to_set().contains(t));
        }
    }
    CargoReachabilitySnapshot { roots, reachable_packages, ambiguous_edges }
}

/// Why packages have no snapshot: there are too many of them, or none is the project's own.
pub open spec fn snapshot_fault(nodes: Seq<NodeView>) -> Option<Seq<char>> {
    if nodes.len() > MAX_LOCKED_PACKAGES {
        Some("Cargo.lock 包数量超过依赖图上限"@)
    } else if !(exists|i: int| is_root(nodes, i)) {
        Some("Cargo.lock 中没有可识别的本地根包"@)
    } else {
        None
    }
}

/// Works out what the project reaches from the content of its lock file at `lock_path`; there is
/// nothing to work out where the project has no such file.
pub fn cargo_reachability_snapshot(lock_path: &str, content: Option<&str>) -> (r: Result<
    Option<CargoReachabilitySnapshot>,
    Fault,
>)
    ensures
        match content {
            None => r matches Ok(found) && found is None,
            Some(raw) => match toml_reading(raw@) {
                Err(cause) => r matches Err(e) && e@
                    == seq!["解析 Cargo.lock 失败："@ + lock_path@, cause],
                Ok(document) => match snapshot_fault(nodes_of(document)) {
                    Some(fault) => r matches Err(e) && e@ == seq![fault],
                    None => r matches Ok(Some(snapshot)) && is_snapshot_of(
                        snapshot,
                        nodes_of(document),
                    ),
                },
            },
        },
{
    let raw = match content {
        None => {
            return Ok(None);
        },
        Some(raw) => raw,
    };
    let document = match parse_toml(raw) {
        Ok(document) => document,
        Err(cause) => {
            return Err(Fault::because(concat2("解析 Cargo.lock 失败：", lock_path), cause));
        },
    };
    let nodes = read_nodes(&document);
    if nodes.len() > MAX_LOCKED_PACKAGES {
        return Err(Fault::of("Cargo.lock 包数量超过依赖图上限"));
    }
    if !has_root(&nodes) {
        return Err(Fault::of("Cargo.lock 中没有可识别的本地根包"));
    }
    Ok(Some(snapshot_of(&nodes)))
}

/// Whether one of the packages is the project's own.
fn has_root(nodes: &Vec<LockGraphNode>) -> (r: bool)
    ensures
        r == exists|i: int| is_root(node_views(nodes@), i),
{
    let ghost views = node_views(nodes@);
    let mut i: usize = 0;
    while i < nodes.len()
        invariant
            i <= nodes@.len(),
            views == node_views(nodes@),
            forall|j: int| 0 <= j < i ==> !#[trigger] is_root(views, j),
        decreases nodes@.len() - i,
    {
        assert(views[i as int] == nodes@[i as int]@);
        if nodes[i].source.as_str().is_empty() {
            assert(is_root(views, i as int));
            return true;
        }
        i = i + 1;
    }
    false
}

/// Whether a dependency is written as a name alone, or as a name and a version, before the
/// parenthesis that may hold its source.
pub open spec fn names_package(dependency: Seq<char>, name: Seq<char>, version: Option<Seq<char>>) -> bool {
    let words = filled(pieces(before_first(dependency, " ("@), Separator::Space));
    &&& words.len() > 0
    &&& words[0] == name
    &&& match version {
        Some(text) => words.len() > 1 && words[1] == text && text.len() > 0 && '0' <= text[0]
            <= '9',
        None => words.len() == 1 || words[1].len() == 0 || !('0' <= words[1][0] <= '9'),
    }
}

/// A dependency that names a version means only packages with just that name and that version.
pub proof fn lemma_version_is_meant(
    dependency: Seq<char>,
    name: Seq<char>,
    version: Seq<char>,
    node: NodeView,
)
    requires
        names_package(dependency, name, Some(version)),
    ensures
        may_mean(dependency, node) <==> node.name == name && node.version == version,
{
}

/// A dependency that names no version means every package with its name.
pub proof fn lemma_name_is_meant(dependency: Seq<char>, name: Seq<char>, node: NodeView)
    requires
        names_package(dependency, name, None),
    ensures
        may_mean(dependency, node) <==> node.name == name,
{
}

/// Whether some dependency of a package that is reached names another by its name, and by its
/// version where it names one.
pub open spec fn is_asked_for(nodes: Seq<NodeView>, i: int) -> bool {
    exists|j: int, k: int|
        0 <= j < nodes.len() && is_reached(nodes, j) && 0 <= k < nodes[j].dependencies.len()
            && names_node(#[trigger] nodes[j].dependencies[k], nodes[i])
}

/// Whether a dependency names a package: by its name, and by its version where it names one. One
/// without any word names a package without a name.
pub open spec fn names_node(dependency: Seq<char>, node: NodeView) -> bool {
    ||| names_package(dependency, node.name, Some(node.version))
    ||| names_package(dependency, node.name, None)
    ||| filled(pieces(before_first(dependency, " ("@), Separator::Space)).len() == 0
        && node.name.len() == 0
}

proof fn lemma_named_is_meant(dependency: Seq<char>, node: NodeView)
    ensures
        names_node(dependency, node) == may_mean(dependency, node),
{
    if node.name.len() == 0 {
        assert(node.name =~= Seq::<char>::empty());
    }
}

/// A package that is reached is one of the project's own, or a dependency of a reached package names
/// it: so a locked package whose version no such dependency names, and that none names without a
/// version, is not reached unless it is one of the project's own.
pub proof fn lemma_reached_is_asked_for(nodes: Seq<NodeView>, i: int)
    requires
        is_reached(nodes, i),
    ensures
        0 <= i < nodes.len(),
        nodes[i].source.len() == 0 || is_asked_for(nodes, i),
{
    let steps = choose|steps: nat| reached_within(nodes, steps, i);
    lemma_reached_within_is_asked_for(nodes, steps, i);
}

proof fn lemma_reached_within_is_asked_for(nodes: Seq<NodeView>, steps: nat, i: int)
    requires
        reached_within(nodes, steps, i),
    ensures
        0 <= i < nodes.len(),
        nodes[i].source.len() == 0 || is_asked_for(nodes, i),
    decreases steps,
{
    if steps > 0 {
        if reached_within(nodes, (steps - 1) as nat, i) {
            lemma_reached_within_is_asked_for(nodes, (steps - 1) as nat, i);
        } else {
            let j = choose|j: int|
                #[trigger] depends_on(nodes, j, i) && reached_within(nodes, (steps - 1) as nat, j);
            let k = choose|k: int|
                0 <= k < nodes[j].dependencies.len() && may_mean(
                    #[trigger] nodes[j].dependencies[k],
                    nodes[i],
                );
            assert(is_reached(nodes, j));
            lemma_named_is_meant(nodes[j].dependencies[k], nodes[i]);
        }
    }
}

/// What a reached package names is reached.
pub proof fn lemma_named_is_reached(nodes: Seq<NodeView>, j: int, k: int, i: int)
    requires
        0 <= j < nodes.len(),
        0 <= i < nodes.len(),
        0 <= k < nodes[j].dependencies.len(),
        is_reached(nodes, j),
        names_node(nodes[j].dependencies[k], nodes[i]),
    ensures
        is_reached(nodes, i),
{
    lemma_named_is_meant(nodes[j].dependencies[k], nodes[i]);
    assert(may_mean(nodes[j].dependencies[k], nodes[i]));
    assert(depends_on(nodes, j, i));
    lemma_dependency_is_reached(nodes, j, i);
}

proof fn lemma_pick_counts(n: nat, condition: spec_fn(int) -> bool, i: int)
    requires
        0 <= i < n,
        condition(i),
        forall|j: int| 0 <= j < n && #[trigger] condition(j) ==> j == i,
    ensures
        pick(n, condition) == seq![i],
    decreases n,
{
    let before = pick((n - 1) as nat, condition);
    if n - 1 == i {
        lemma_pick((n - 1) as nat, condition);
        if before.len() > 0 {
            assert(before.contains(before[0]));
            assert(condition(before[0]));
        }
        assert(pick(n, condition) =~= seq![i]);
    } else {
        assert(!condition(n - 1));
        lemma_pick_counts((n - 1) as nat, condition, i);
    }
}

/// A dependency that names exactly one locked package is never reported as doubtful.
pub proof fn lemma_exact_dependency_is_not_doubted(nodes: Seq<NodeView>, j: int, k: int, i: int)
    requires
        0 <= j < nodes.len(),
        0 <= k < nodes[j].dependencies.len(),
        0 <= i < nodes.len(),
        names_node(nodes[j].dependencies[k], nodes[i]),
        forall|other: int|
            0 <= other < nodes.len() && names_node(
                nodes[j].dependencies[k],
                #[trigger] nodes[other],
            ) ==> other == i,
    ensures
        doubt(nodes, j, k) is None,
{
    let dependency = nodes[j].dependencies[k];
    let condition = meant_by(nodes, dependency);
    lemma_named_is_meant(dependency, nodes[i]);
    assert(condition(i));
    assert forall|other: int| 0 <= other < nodes.len() && #[trigger] condition(other) implies other
        == i by {
        lemma_named_is_meant(dependency, nodes[other]);
    }
    lemma_pick_counts(nodes.len(), condition, i);
}

/// A dependency that no locked package has the name of is reported as missing; one that several, or
/// none of those with its name, fit is reported as it is written.
pub proof fn lemma_doubtful_dependency_is_reported(nodes: Seq<NodeView>, j: int, k: int)
    requires
        0 <= j < nodes.len(),
        0 <= k < nodes[j].dependencies.len(),
    ensures
        ({
            let dependency = nodes[j].dependencies[k];
            let named = |i: int| names_node(dependency, nodes[i]);
            &&& (forall|i: int|
                0 <= i < nodes.len() ==> (#[trigger] nodes[i]).name != dependency_name(dependency))
                ==> doubt(nodes, j, k) == Some(
                nodes[j].name + " -> "@ + dependency + " (missing)"@,
            )
            &&& (exists|i: int, other: int|
                0 <= i < nodes.len() && 0 <= other < nodes.len() && i != other && #[trigger] named(
                    i,
                ) && #[trigger] named(other)) ==> doubt(nodes, j, k) == Some(
                nodes[j].name + " -> "@ + dependency,
            )
            &&& (exists|i: int|
                0 <= i < nodes.len() && (#[trigger] nodes[i]).name == dependency_name(dependency))
                && (forall|i: int| 0 <= i < nodes.len() ==> !#[trigger] named(i)) ==> doubt(
                nodes,
                j,
                k,
            ) == Some(nodes[j].name + " -> "@ + dependency)
        }),
{
    let dependency = nodes[j].dependencies[k];
    let named = |i: int| names_node(dependency, nodes[i]);
    let condition = meant_by(nodes, dependency);
    lemma_pick(nodes.len(), condition);
    let picked = pick(nodes.len(), condition);
    assert forall|i: int| named(i) == #[trigger] condition(i) by {
        lemma_named_is_meant(dependency, nodes[i]);
    }
    if exists|i: int, other: int|
        0 <= i < nodes.len() && 0 <= other < nodes.len() && i != other && #[trigger] named(i)
            && #[trigger] named(other) {
        let (i, other) = choose|i: int, other: int|
            0 <= i < nodes.len() && 0 <= other < nodes.len() && i != other && #[trigger] named(i)
                && #[trigger] named(other);
        assert(condition(i));
        assert(condition(other));
        assert(picked.contains(i));
        assert(picked.contains(other));
        assert(nodes[i].name == dependency_name(dependency));
        if picked.len() == 1 {
            let a = choose|a: int| 0 <= a < picked.len() && picked[a] == i;
            let b = choose|b: int| 0 <= b < picked.len() && picked[b] == other;
            assert(a == b);
        }
    }
    if forall|i: int| 0 <= i < nodes.len() ==> !#[trigger] named(i) {
        if picked.len() > 0 {
            assert(picked.contains(picked[0]));
            assert(condition(picked[0]));
            assert(named(picked[0]));
        }
    }
}

/// A snapshot holds a package only where it is reached, and holds every one that is; its list of
/// doubtful dependencies holds just those of reached packages.
pub proof fn lemma_snapshot_holds_what_is_reached(
    snapshot: CargoReachabilitySnapshot,
    nodes: Seq<NodeView>,
    package: PackageKey,
)
    requires
        is_snapshot_of(snapshot, nodes),
    ensures
        coordinate_views(snapshot.reachable_packages@).contains(package) <==> exists|i: int|
            0 <= i < nodes.len() && #[trigger] is_reached(nodes, i) && package.name
                == nodes[i].name && package.version == nodes[i].version && package.source == (
            if nodes[i].source.len() == 0 {
                "workspace"@
            } else {
                nodes[i].source
            }),
{
    let condition = reached_condition(nodes);
    let picked = pick(nodes.len(), condition);
    let found = reached_packages(nodes);
    lemma_pick(nodes.len(), condition);
    crate::text::order::lemma_same_multiset_same_set(
        coordinate_views(snapshot.reachable_packages@),
        found,
    );
    assert(coordinate_views(snapshot.reachable_packages@).to_set().contains(package)
        == found.to_set().contains(package));
    if found.contains(package) {
        let q = choose|q: int| 0 <= q < found.len() && found[q] == package;
        assert(picked.contains(picked[q]));
        assert(is_reached(nodes, picked[q]));
    }
    if exists|i: int|
        0 <= i < nodes.len() && #[trigger] is_reached(nodes, i) && package.name == nodes[i].name
            && package.version == nodes[i].version && package.source == (if nodes[i].source.len()
            == 0 {
            "workspace"@
        } else {
            nodes[i].source
        }) {
        let i = choose|i: int|
            0 <= i < nodes.len() && #[trigger] is_reached(nodes, i) && package.name
                == nodes[i].name && package.version == nodes[i].version && package.source == (
            if nodes[i].source.len() == 0 {
                "workspace"@
            } else {
                nodes[i].source
            });
        assert(picked.contains(i));
        let q = choose|q: int| 0 <= q < picked.len() && picked[q] == i;
        assert(found[q] == package);
    }
}

} // verus!
