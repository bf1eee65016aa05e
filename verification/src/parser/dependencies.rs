//! The dependencies of the units of a workspace and the order in which
//! the units can run.

use vstd::prelude::*;
use crate::config::ModelConfig;
use crate::graph::{
    edge_relation, graph_add_edge, graph_add_node, graph_edges, graph_new, graph_node_count,
    graph_toposort, has_cycle, is_walk, lemma_ordered_relation_has_no_cycle, on_cycle, respects,
    topological_order,
};
use crate::names::{
    is_sorted, lemma_sorted_list_exists, lemma_sorted_no_duplicates, sorted, sorted_names, NameSet,
};
use crate::parser::sql::{
    extract_tables, optional_text, parse_error_message, parse_sql, parsed, ParseError,
    ParseErrorModel,
};
use crate::statement::{statement_tables, statements_model, StatementModel};
use crate::text::{join, lowercase, text_eq, texts, to_lowercase};

verus! {

/// What is known of one unit: the tables it reads, where it comes from
/// and how it is configured.
#[derive(Debug)]
pub struct Dependency {
    /// Dependencies of this model (table names).
    pub deps: NameSet,
    /// File path of the model.
    pub filename: String,
    /// Model configuration from SQL comments.
    pub config: Option<ModelConfig>,
}

/// The model of a unit: the set of the tables it reads, the text of its
/// file path and its configuration.
pub ghost struct UnitModel {
    pub deps: Set<Seq<char>>,
    pub filename: Seq<char>,
    pub config: Option<ModelConfig>,
}

impl View for Dependency {
    type V = UnitModel;

    open spec fn view(&self) -> UnitModel {
        UnitModel { deps: self.deps@, filename: self.filename@, config: self.config }
    }
}

/// The units of a workspace by name, in the order in which they were
/// first recorded.
#[derive(Debug)]
pub struct DependencyMap {
    names: Vec<String>,
    units: Vec<Dependency>,
}

impl View for DependencyMap {
    type V = Map<Seq<char>, UnitModel>;

    closed spec fn view(&self) -> Map<Seq<char>, UnitModel> {
        Map::new(
            |name: Seq<char>| self.names().contains(name),
            |name: Seq<char>| self.units@[self.names().index_of(name)]@,
        )
    }
}

/// The unit `target` reads the unit `source`: both are known, and
/// `source` is among the dependencies of `target`. A name that no unit
/// bears is related to nothing.
pub open spec fn depends_on(units: Map<Seq<char>, UnitModel>) -> spec_fn(
    Seq<char>,
    Seq<char>,
) -> bool {
    |source: Seq<char>, target: Seq<char>|
        units.contains_key(source) && units.contains_key(target) && units[target].deps.contains(
            source,
        )
}

/// Some unit depends on itself, directly or through others.
pub open spec fn has_dependency_cycle(units: Map<Seq<char>, UnitModel>) -> bool {
    has_cycle(depends_on(units))
}

/// An execution order holds every unit once, each after the units it
/// reads.
pub open spec fn is_execution_order(
    units: Map<Seq<char>, UnitModel>,
    order: Seq<Seq<char>>,
) -> bool {
    &&& order.no_duplicates()
    &&& order.to_set() == units.dom()
    &&& respects(depends_on(units), order)
}

/// The unit depends on itself, directly or through others.
pub open spec fn on_dependency_cycle(units: Map<Seq<char>, UnitModel>, unit: Seq<char>) -> bool {
    on_cycle(depends_on(units), unit)
}

/// The dependency graph is not acyclic.
#[derive(Debug)]
pub struct CycleError {
    /// A unit that lies on a cycle.
    pub unit: String,
}

impl CycleError {
    pub fn to_string(&self) -> (r: String)
        ensures
            r@ == "Cycle detected in dependency graph at "@ + self.unit@,
    {
        join("Cycle detected in dependency graph at ", self.unit.as_str())
    }
}

impl DependencyMap {
    /// The names of the units, in the order in which they were first
    /// recorded.
    pub closed spec fn names(&self) -> Seq<Seq<char>> {
        Seq::new(self.names@.len(), |i: int| self.names@[i]@)
    }

    /// The unit at a position of that order.
    pub closed spec fn unit(&self, index: int) -> Dependency {
        self.units@[index]
    }

    /// Every name has one unit, no name occurs twice, and every
    /// dependency set is well formed.
    pub closed spec fn wf(&self) -> bool {
        &&& self.names@.len() == self.units@.len()
        &&& self.names().no_duplicates()
        &&& forall|i: int| 0 <= i < self.units@.len() ==> (#[trigger] self.units@[i]).deps.wf()
    }

    /// What the names, the units and the view of a well-formed map have
    /// to do with each other.
    pub proof fn lemma_view(&self)
        requires
            self.wf(),
        ensures
            self.names().no_duplicates(),
            self@.dom() == self.names().to_set(),
            self@.dom().finite(),
            self@.dom().len() == self.names().len(),
            forall|i: int|
                0 <= i < self.names().len() ==> self@.contains_key(#[trigger] self.names()[i])
                    && self@[self.names()[i]] == self.unit(i)@ && self.unit(i).deps.wf(),
            forall|name: Seq<char>| #[trigger]
                self@.contains_key(name) ==> self.names().contains(name),
    {
        self.names().unique_seq_to_set();
        assert(self@.dom() =~= self.names().to_set());
        assert forall|i: int| 0 <= i < self.names().len() implies self@.contains_key(
            #[trigger] self.names()[i],
        ) && self@[self.names()[i]] == self.unit(i)@ && self.unit(i).deps.wf() by {
            assert(self.names().contains(self.names()[i]));
        }
    }

    /// An empty map.
    pub fn new() -> (r: DependencyMap)
        ensures
            r.wf(),
            r@ == Map::<Seq<char>, UnitModel>::empty(),
            r.names() == Seq::<Seq<char>>::empty(),
    {
        let r = DependencyMap { names: Vec::new(), units: Vec::new() };
        assert(r.names() =~= Seq::<Seq<char>>::empty());
        assert(r@ =~= Map::<Seq<char>, UnitModel>::empty());
        r
    }

    /// The number of units.
    pub fn len(&self) -> (r: usize)
        requires
            self.wf(),
        ensures
            r == self@.dom().len(),
            r == self.names().len(),
    {
        proof {
            self.lemma_view();
        }
        self.names.len()
    }

    pub fn is_empty(&self) -> (r: bool)
        requires
            self.wf(),
        ensures
            r == (self@.dom().len() == 0),
    {
        self.len() == 0
    }

    /// The position of a name in the order of the units.
    pub fn position(&self, name: &str) -> (r: Option<usize>)
        ensures
            match r {
                Some(i) => i < self.names().len() && self.names()[i as int] == name@,
                None => !self.names().contains(name@),
            },
    {
        let mut i: usize = 0;
        while i < self.names.len()
            invariant
                i <= self.names@.len(),
                forall|j: int| 0 <= j < i ==> self.names()[j] != name@,
            decreases self.names@.len() - i,
        {
            if text_eq(self.names[i].as_str(), name) {
                return Some(i);
            }
            i += 1;
        }
        None
    }

    pub fn contains_key(&self, name: &str) -> (r: bool)
        ensures
            r == self@.contains_key(name@),
    {
        match self.position(name) {
            Some(i) => {
                assert(self.names().contains(name@));
                true
            },
            None => false,
        }
    }

    /// The unit of a name.
    pub fn get(&self, name: &str) -> (r: Option<&Dependency>)
        requires
            self.wf(),
        ensures
            match r {
                Some(unit) => self@.contains_key(name@) && unit@ == self@[name@] && unit.deps.wf(),
                None => !self@.contains_key(name@),
            },
    {
        match self.position(name) {
            Some(i) => {
                proof {
                    self.lemma_view();
                }
                Some(&self.units[i])
            },
            None => None,
        }
    }

    /// The name at a position of the order of the units.
    pub fn name_at(&self, index: usize) -> (r: &String)
        requires
            index < self.names().len(),
        ensures
            r@ == self.names()[index as int],
    {
        &self.names[index]
    }

    /// The unit at a position of the order of the units.
    pub fn unit_at(&self, index: usize) -> (r: &Dependency)
        requires
            self.wf(),
            index < self.names().len(),
        ensures
            *r == self.unit(index as int),
            r@ == self@[self.names()[index as int]],
            r.deps.wf(),
    {
        proof {
            self.lemma_view();
        }
        &self.units[index]
    }

    /// Records a unit under a name. A unit recorded earlier under the
    /// same name is replaced and keeps its place in the order. Returns
    /// whether one was replaced.
    pub fn insert(&mut self, name: String, unit: Dependency) -> (replaced: bool)
        requires
            old(self).wf(),
            unit.deps.wf(),
        ensures
            final(self).wf(),
            final(self)@ == old(self)@.insert(name@, unit@),
            replaced == old(self)@.contains_key(name@),
            final(self).names() == if replaced {
                old(self).names()
            } else {
                old(self).names().push(name@)
            },
    {
        let ghost before = *self;
        proof {
            before.lemma_view();
        }
        match self.position(name.as_str()) {
            Some(i) => {
                assert(before.names().contains(name@));
                self.units.set(i, unit);
                assert(self.names() =~= before.names());
                assert(self@ =~= before@.insert(name@, unit@)) by {
                    assert forall|key: Seq<char>| #[trigger] self@.contains_key(key) implies self@[key]
                        == before@.insert(name@, unit@)[key] by {
                        let j = self.names().index_of(key);
                        assert(self.names()[j] == key);
                    }
                }
                true
            },
            None => {
                self.names.push(name);
                self.units.push(unit);
                assert(self.names() =~= before.names().push(name@));
                assert(self@ =~= before@.insert(name@, unit@)) by {
                    assert forall|key: Seq<char>| #[trigger]
                        before@.insert(name@, unit@).contains_key(key) implies self@.contains_key(key)
                        && self@[key] == before@.insert(name@, unit@)[key] by {
                        if key == name@ {
                            assert(self.names()[before.names().len() as int] == key);
                        } else {
                            let j = before.names().index_of(key);
                            assert(self.names()[j] == key);
                        }
                        let k = self.names().index_of(key);
                        assert(self.names()[k] == key);
                    }
                    assert forall|key: Seq<char>| #[trigger] self@.contains_key(key) implies before@.insert(
                        name@,
                        unit@,
                    ).contains_key(key) by {
                        let k = self.names().index_of(key);
                        if k < before.names().len() {
                            assert(before.names()[k] == key);
                        }
                    }
                }
                false
            },
        }
    }

    /// The names of the units, in their order.
    pub fn keys(&self) -> (r: Vec<String>)
        ensures
            texts(r@) == self.names(),
    {
        let mut out: Vec<String> = Vec::new();
        let mut i: usize = 0;
        while i < self.names.len()
            invariant
                i <= self.names@.len(),
                out@.len() == i,
                forall|j: int| 0 <= j < i ==> out@[j]@ == self.names()[j],
            decreases self.names@.len() - i,
        {
            out.push(self.names[i].clone());
            i += 1;
        }
        assert(texts(out@) =~= self.names());
        out
    }
}

/// A dependency that is no unit is no edge of the graph, whatever unit
/// names it.
pub proof fn lemma_unknown_dependency_is_no_edge(
    units: Map<Seq<char>, UnitModel>,
    source: Seq<char>,
    target: Seq<char>,
)
    requires
        !units.contains_key(source),
    ensures
        !depends_on(units)(source, target),
{
}

/// Dependencies that are no units constrain nothing: two workspaces with
/// the same units, each of which reads the same units in both, have the
/// same execution orders, and a cycle in one is a cycle in the other.
pub proof fn lemma_unknown_dependencies_constrain_nothing(
    units: Map<Seq<char>, UnitModel>,
    other: Map<Seq<char>, UnitModel>,
    order: Seq<Seq<char>>,
)
    requires
        units.dom() == other.dom(),
        forall|name: Seq<char>| #[trigger]
            units.contains_key(name) ==> units[name].deps.intersect(units.dom())
                == other[name].deps.intersect(units.dom()),
    ensures
        is_execution_order(units, order) <==> is_execution_order(other, order),
        has_dependency_cycle(units) <==> has_dependency_cycle(other),
{
    assert forall|source: Seq<char>, target: Seq<char>| #[trigger]
        depends_on(units)(source, target) == depends_on(other)(source, target) by {
        if units.contains_key(source) && units.contains_key(target) {
            assert(other.contains_key(source) && other.contains_key(target));
            assert(units[target].deps.intersect(units.dom()).contains(source)
                == units[target].deps.contains(source));
            assert(other[target].deps.intersect(units.dom()).contains(source)
                == other[target].deps.contains(source));
        } else {
            assert(!(other.contains_key(source) && other.contains_key(target)));
        }
    }
    assert(depends_on(units) =~= depends_on(other));
}

/// Units that have an execution order do not depend on each other in a
/// cycle.
pub proof fn lemma_execution_order_means_no_cycle(
    units: Map<Seq<char>, UnitModel>,
    order: Seq<Seq<char>>,
)
    requires
        is_execution_order(units, order),
    ensures
        !has_dependency_cycle(units),
{
    assert forall|a: Seq<char>, b: Seq<char>| #[trigger] depends_on(units)(a, b) implies order.contains(
        a,
    ) && order.contains(b) by {
        assert(order.to_set().contains(a) && order.to_set().contains(b));
    }
    lemma_ordered_relation_has_no_cycle(depends_on(units), order);
}

/// The edges of the dependency graph into the unit at `target` of a
/// list of the units, from the first `seen` units of the list: one from
/// the position of each that the unit reads.
pub open spec fn edges_into(
    units: Map<Seq<char>, UnitModel>,
    order: Seq<Seq<char>>,
    target: int,
    seen: nat,
) -> Seq<(int, int)>
    decreases seen,
{
    if 0 < seen <= order.len() {
        let before = edges_into(units, order, target, (seen - 1) as nat);
        if units[order[target]].deps.contains(order[seen - 1]) {
            before.push((seen - 1, target))
        } else {
            before
        }
    } else {
        Seq::empty()
    }
}

/// The edges of the dependency graph into the first `done` units of a
/// list of the units, in the order of the list.
pub open spec fn edges_upto(units: Map<Seq<char>, UnitModel>, order: Seq<Seq<char>>, done: nat) -> Seq<
    (int, int),
>
    decreases done,
{
    if 0 < done <= order.len() {
        edges_upto(units, order, (done - 1) as nat) + edges_into(
            units,
            order,
            done - 1,
            order.len(),
        )
    } else {
        Seq::empty()
    }
}

/// The execution order that units are given, if they have one. The
/// units are the nodes of a graph in the lexical order of their names,
/// and the edges into each unit are added in that order too. The order
/// is that of the topological sort of this graph, so it depends on the
/// units and their dependencies alone, not on the order in which they
/// were recorded.
pub open spec fn planned_order(units: Map<Seq<char>, UnitModel>) -> Option<Seq<Seq<char>>> {
    let order = sorted_names(units.dom());
    match topological_order(order.len(), edges_upto(units, order, order.len())) {
        Ok(nodes) => Some(Seq::new(nodes.len(), |i: int| order[nodes[i] as int])),
        Err(_) => None,
    }
}

proof fn lemma_edges_into_agree(
    units: Map<Seq<char>, UnitModel>,
    other: Map<Seq<char>, UnitModel>,
    order: Seq<Seq<char>>,
    target: int,
    seen: nat,
)
    requires
        0 <= target < order.len(),
        units[order[target]].deps == other[order[target]].deps,
    ensures
        edges_into(units, order, target, seen) == edges_into(other, order, target, seen),
    decreases seen,
{
    if 0 < seen <= order.len() {
        lemma_edges_into_agree(units, other, order, target, (seen - 1) as nat);
    }
}

proof fn lemma_edges_upto_agree(
    units: Map<Seq<char>, UnitModel>,
    other: Map<Seq<char>, UnitModel>,
    order: Seq<Seq<char>>,
    done: nat,
)
    requires
        forall|i: int| 0 <= i < order.len() ==> units[#[trigger] order[i]].deps == other[order[i]].deps,
    ensures
        edges_upto(units, order, done) == edges_upto(other, order, done),
    decreases done,
{
    if 0 < done <= order.len() {
        lemma_edges_upto_agree(units, other, order, (done - 1) as nat);
        lemma_edges_into_agree(units, other, order, done - 1, order.len());
    }
}

/// The execution order depends on the units and their dependencies
/// alone: two workspaces with the same units, each of which has the same
/// dependencies in both, are given the same order, whatever else differs
/// and in whatever order the units were recorded.
pub proof fn lemma_same_units_same_order(
    units: Map<Seq<char>, UnitModel>,
    other: Map<Seq<char>, UnitModel>,
)
    requires
        units.dom() == other.dom(),
        units.dom().finite(),
        forall|name: Seq<char>| #[trigger]
            units.contains_key(name) ==> units[name].deps == other[name].deps,
    ensures
        planned_order(units) == planned_order(other),
{
    let order = sorted_names(units.dom());
    if exists|names: Seq<Seq<char>>| is_sorted(names) && names.to_set() == units.dom() {
        assert forall|i: int| 0 <= i < order.len() implies units[#[trigger] order[i]].deps
            == other[order[i]].deps by {
            assert(order.to_set().contains(order[i]));
        }
        lemma_edges_upto_agree(units, other, order, order.len());
    } else {
        lemma_sorted_list_exists(units.dom());
    }
}

/// A list holds every unit once.
spec fn lists_units(units: Map<Seq<char>, UnitModel>, order: Seq<Seq<char>>) -> bool {
    order.no_duplicates() && order.to_set() == units.dom()
}

/// The edges of the graph are those between the positions of the units
/// in a list: one from `x` to `y` where the unit at `y` reads the unit at
/// `x`, for every `y` below `done`, and for `y == done` and `x` below
/// `seen`.
spec fn edges_cover(
    units: Map<Seq<char>, UnitModel>,
    order: Seq<Seq<char>>,
    edges: Seq<(int, int)>,
    done: int,
    seen: int,
) -> bool {
    forall|x: int, y: int| #[trigger]
        edges.contains((x, y)) <==> 0 <= x < order.len() && 0 <= y < order.len()
            && units[order[y]].deps.contains(order[x]) && (y < done || (y == done && x < seen))
}

/// A cycle among the units is a cycle among their positions.
proof fn lemma_unit_cycle_is_graph_cycle(
    units: Map<Seq<char>, UnitModel>,
    order: Seq<Seq<char>>,
    edges: Seq<(int, int)>,
)
    requires
        lists_units(units, order),
        edges_cover(units, order, edges, order.len() as int, 0),
        has_dependency_cycle(units),
    ensures
        has_cycle(edge_relation(edges)),
{
    let walk = choose|walk: Seq<Seq<char>>| #[trigger]
        is_walk(depends_on(units), walk) && walk.first() == walk.last();
    let positions = Seq::new(walk.len(), |i: int| order.index_of(walk[i]));
    assert forall|i: int| 0 <= i < positions.len() - 1 implies edge_relation(edges)(
        #[trigger] positions[i],
        positions[i + 1],
    ) by {
        assert(depends_on(units)(walk[i], walk[i + 1]));
        let x = order.index_of(walk[i]);
        let y = order.index_of(walk[i + 1]);
        assert(order.to_set().contains(walk[i]) && order.to_set().contains(walk[i + 1]));
        assert(order.contains(walk[i]) && order.contains(walk[i + 1]));
        assert(order[x] == walk[i] && order[y] == walk[i + 1]);
        assert(edges.contains((x, y)));
    }
    assert(is_walk(edge_relation(edges), positions));
    assert(positions.first() == positions.last());
}

/// A cycle through the position of a unit is a cycle through the unit.
proof fn lemma_graph_cycle_is_unit_cycle(
    units: Map<Seq<char>, UnitModel>,
    order: Seq<Seq<char>>,
    edges: Seq<(int, int)>,
    node: int,
)
    requires
        lists_units(units, order),
        edges_cover(units, order, edges, order.len() as int, 0),
        0 <= node < order.len(),
        on_cycle(edge_relation(edges), node),
    ensures
        on_dependency_cycle(units, order[node]),
        has_dependency_cycle(units),
{
    let positions = choose|walk: Seq<int>| #[trigger]
        is_walk(edge_relation(edges), walk) && walk.first() == node && walk.last() == node;
    let walk = Seq::new(positions.len(), |i: int| order[positions[i]]);
    assert forall|i: int| 0 <= i < walk.len() - 1 implies depends_on(units)(
        #[trigger] walk[i],
        walk[i + 1],
    ) by {
        assert(edge_relation(edges)(positions[i], positions[i + 1]));
        let x = positions[i];
        let y = positions[i + 1];
        assert(edges.contains((x, y)));
        assert(order.to_set().contains(order[x]) && order.to_set().contains(order[y]));
    }
    assert(is_walk(depends_on(units), walk));
    assert(walk.first() == order[node] && walk.last() == order[node]);
}

/// A topological order of the positions of the units, read as names, is
/// an execution order of the units.
proof fn lemma_positions_order_is_execution_order(
    units: Map<Seq<char>, UnitModel>,
    order: Seq<Seq<char>>,
    edges: Seq<(int, int)>,
    nodes: Seq<usize>,
    result: Seq<Seq<char>>,
)
    requires
        lists_units(units, order),
        order.len() <= usize::MAX,
        edges_cover(units, order, edges, order.len() as int, 0),
        nodes.len() == order.len(),
        nodes.no_duplicates(),
        forall|i: int| 0 <= i < nodes.len() ==> nodes[i] < order.len(),
        forall|i: int, j: int|
            0 <= i < nodes.len() && 0 <= j < nodes.len() && edges.contains(
                (#[trigger] nodes[i] as int, #[trigger] nodes[j] as int),
            ) ==> i < j,
        result.len() == nodes.len(),
        forall|i: int| 0 <= i < result.len() ==> result[i] == order[nodes[i] as int],
    ensures
        is_execution_order(units, result),
{
    let n = order.len() as int;
    // The positions are all of `0..n`.
    let found = nodes.to_set();
    let all_ints = vstd::set_lib::set_int_range(0, n);
    vstd::set_lib::lemma_int_range(0, n);
    nodes.unique_seq_to_set();
    let found_ints = found.map(|x: usize| x as int);
    assert(found_ints.subset_of(all_ints)) by {
        assert forall|v: int| found_ints.contains(v) implies all_ints.contains(v) by {
            let x = choose|x: usize| found.contains(x) && x as int == v;
            let i = choose|i: int| 0 <= i < nodes.len() && nodes[i] == x;
        }
    }
    assert(found.finite());
    vstd::set_lib::lemma_map_size(found, found_ints, |x: usize| x as int);
    vstd::set_lib::lemma_subset_equality(found_ints, all_ints);
    assert forall|x: usize| x < n implies #[trigger] nodes.contains(x) by {
        assert(all_ints.contains(x as int));
        assert(found_ints.contains(x as int));
        let v = choose|v: usize| found.contains(v) && v as int == x as int;
        assert(v == x);
    }
    assert(result.no_duplicates()) by {
        assert forall|i: int, j: int|
            0 <= i < result.len() && 0 <= j < result.len() && i != j implies result[i]
            != result[j] by {
            assert(nodes[i] != nodes[j]);
        }
    }
    assert(result.to_set() =~= units.dom()) by {
        assert forall|name: Seq<char>| units.dom().contains(name) implies result.to_set().contains(
            name,
        ) by {
            assert(order.to_set().contains(name));
            let x = order.index_of(name);
            assert(order.contains(name));
            assert(nodes.contains(x as usize));
            let i = choose|i: int| 0 <= i < nodes.len() && nodes[i] == x as usize;
            assert(result[i] == name);
        }
        assert forall|name: Seq<char>| result.to_set().contains(name) implies units.dom().contains(
            name,
        ) by {
            let i = choose|i: int| 0 <= i < result.len() && result[i] == name;
            assert(order.to_set().contains(order[nodes[i] as int]));
        }
    }
    assert(respects(depends_on(units), result)) by {
        assert forall|i: int, j: int|
            0 <= i < result.len() && 0 <= j < result.len() && depends_on(units)(
                #[trigger] result[i],
                #[trigger] result[j],
            ) implies i < j by {
            let x = nodes[i] as int;
            let y = nodes[j] as int;
            assert(edges.contains((x, y)));
        }
    }
}

/// Get the execution order of the units by a topological sort of their
/// dependency graph: every unit once, each after the units it reads. A
/// dependency that is no unit constrains nothing. Where the units depend
/// on each other in a cycle there is no such order, and the answer is the
/// error, with a unit that lies on a cycle. Units that do not constrain
/// each other come in an order that their names and dependencies alone
/// decide: the same units get the same order, however they were
/// recorded.
pub fn get_execution_order(dependencies: &DependencyMap) -> (r: Result<Vec<String>, CycleError>)
    requires
        dependencies.wf(),
    ensures
        match r {
            Ok(order) => is_execution_order(dependencies@, texts(order@)) && planned_order(
                dependencies@,
            ) == Some(texts(order@)),
            Err(error) => on_dependency_cycle(dependencies@, error.unit@) && has_dependency_cycle(
                dependencies@,
            ) && planned_order(dependencies@) is None,
        },
        has_dependency_cycle(dependencies@) ==> r is Err,
{
    let keys = dependencies.keys();
    proof {
        dependencies.lemma_view();
    }
    let order = sorted(&keys);
    let n = order.len();
    let ghost units = dependencies@;
    let ghost listed = texts(order@);
    proof {
        lemma_sorted_no_duplicates(listed);
    }
    let mut graph = graph_new();
    let mut added: usize = 0;
    while added < n
        invariant
            added <= n,
            graph_node_count(graph) == added,
            graph_edges(graph) == Seq::<(int, int)>::empty(),
        decreases n - added,
    {
        graph_add_node(&mut graph);
        added += 1;
    }
    let mut target: usize = 0;
    while target < n
        invariant
            dependencies.wf(),
            units == dependencies@,
            listed == texts(order@),
            lists_units(units, listed),
            n == listed.len(),
            graph_node_count(graph) == n,
            target <= n,
            edges_cover(units, listed, graph_edges(graph), target as int, 0),
            graph_edges(graph) == edges_upto(units, listed, target as nat),
        decreases n - target,
    {
        assert(listed[target as int] == order@[target as int]@);
        assert(listed.to_set().contains(listed[target as int]));
        let unit = match dependencies.get(order[target].as_str()) {
            Some(unit) => unit,
            None => vstd::pervasive::unreached(),
        };
        let mut source: usize = 0;
        while source < n
            invariant
                units == dependencies@,
                listed == texts(order@),
                n == listed.len(),
                graph_node_count(graph) == n,
                target < n,
                unit@ == units[listed[target as int]],
                source <= n,
                edges_cover(units, listed, graph_edges(graph), target as int, source as int),
                graph_edges(graph) == edges_upto(units, listed, target as nat) + edges_into(
                    units,
                    listed,
                    target as int,
                    source as nat,
                ),
            decreases n - source,
        {
            let ghost edges = graph_edges(graph);
            assert(listed[source as int] == order@[source as int]@);
            if unit.deps.contains(order[source].as_str()) {
                graph_add_edge(&mut graph, source, target);
                proof {
                    let after = graph_edges(graph);
                    assert(after =~= edges_upto(units, listed, target as nat) + edges_into(
                        units,
                        listed,
                        target as int,
                        (source + 1) as nat,
                    ));
                    assert forall|x: int, y: int| #[trigger]
                        after.contains((x, y)) <==> 0 <= x < n && 0 <= y < n
                            && units[listed[y]].deps.contains(listed[x]) && (y < target || (y
                            == target && x < source + 1)) by {
                        if after.contains((x, y)) {
                            let k = choose|k: int| 0 <= k < after.len() && after[k] == (x, y);
                            if k < edges.len() {
                                assert(edges[k] == (x, y));
                                assert(edges.contains((x, y)));
                            }
                        }
                        if 0 <= x < n && 0 <= y < n && units[listed[y]].deps.contains(listed[x]) && (y
                            < target || (y == target && x < source + 1)) {
                            if y == target && x == source {
                                assert(after[edges.len() as int] == (x, y));
                            } else {
                                assert(edges.contains((x, y)));
                                let k = choose|k: int| 0 <= k < edges.len() && edges[k] == (x, y);
                                assert(after[k] == (x, y));
                            }
                        }
                    }
                }
            }
            source += 1;
        }
        proof {
            let edges = graph_edges(graph);
            assert(edges =~= edges_upto(units, listed, (target + 1) as nat));
            assert forall|x: int, y: int| #[trigger]
                edges.contains((x, y)) <==> 0 <= x < n && 0 <= y < n && units[listed[y]].deps.contains(
                    listed[x],
                ) && (y < target + 1 || (y == target + 1 && x < 0)) by {}
        }
        target += 1;
    }
    match graph_toposort(&graph) {
        Ok(nodes) => {
            let mut result: Vec<String> = Vec::new();
            let mut i: usize = 0;
            while i < nodes.len()
                invariant
                    i <= nodes@.len(),
                    result@.len() == i,
                    listed == texts(order@),
                    forall|j: int| 0 <= j < nodes@.len() ==> nodes@[j] < listed.len(),
                    forall|j: int| 0 <= j < i ==> result@[j]@ == listed[nodes@[j] as int],
                decreases nodes@.len() - i,
            {
                assert(listed[nodes@[i as int] as int] == order@[nodes@[i as int] as int]@);
                result.push(order[nodes[i]].clone());
                i += 1;
            }
            proof {
                lemma_positions_order_is_execution_order(
                    units,
                    listed,
                    graph_edges(graph),
                    nodes@,
                    texts(result@),
                );
                assert(planned_order(units)->Some_0 =~= texts(result@));
                if has_dependency_cycle(units) {
                    lemma_unit_cycle_is_graph_cycle(units, listed, graph_edges(graph));
                }
            }
            Ok(result)
        },
        Err(node) => {
            proof {
                lemma_graph_cycle_is_unit_cycle(units, listed, graph_edges(graph), node as int);
                assert(listed[node as int] == order@[node as int]@);
            }
            Err(CycleError { unit: order[node].clone() })
        },
    }
}

/// One file that the scan of a workspace found, with what was read of
/// it.
#[derive(Debug)]
pub struct SourceFile {
    /// The path of the file.
    pub path: String,
    /// The name of the file without its extension, if it has one.
    pub stem: Option<String>,
    /// The extension of the file, if it has one.
    pub extension: Option<String>,
    /// The text of the file.
    pub contents: String,
    /// The tree that the engine's own parser serialised for the text,
    /// where there is one.
    pub native_ast: Option<String>,
    /// The configuration that the comments of the text hold, if any.
    pub config: Option<ModelConfig>,
}

/// What a file is to the scan.
#[derive(Debug, Clone, Copy, PartialEq, Eq, Structural)]
pub enum UnitKind {
    /// A SQL source: a unit.
    Sql,
    /// A script-based transform: known, but not yet a unit.
    Script,
    /// Anything else.
    Other,
}

/// Why the dependencies of a workspace could not be had.
#[derive(Debug)]
pub enum DependencyError {
    /// A SQL file at this path has no name to call the unit by.
    NoFileStem(String),
    /// The SQL file at this path could not be parsed.
    Parse { path: String, error: ParseError },
}

/// The model of a dependency error.
pub ghost enum DependencyErrorModel {
    NoFileStem(Seq<char>),
    Parse { path: Seq<char>, error: ParseErrorModel },
}

impl View for DependencyError {
    type V = DependencyErrorModel;

    open spec fn view(&self) -> DependencyErrorModel {
        match self {
            DependencyError::NoFileStem(path) => DependencyErrorModel::NoFileStem(path@),
            DependencyError::Parse { path, error } => DependencyErrorModel::Parse {
                path: path@,
                error: error@,
            },
        }
    }
}

/// What the message of a dependency error says.
pub open spec fn dependency_error_message(error: DependencyError) -> Seq<char> {
    match error {
        DependencyError::NoFileStem(path) => "Failed to get file stem: "@ + path@,
        DependencyError::Parse { path, error } => "Failed to parse SQL file "@ + path@ + ": "@
            + parse_error_message(error),
    }
}

impl DependencyError {
    /// The message of the error.
    pub fn to_string(&self) -> (r: String)
        ensures
            r@ == dependency_error_message(*self),
    {
        match self {
            DependencyError::NoFileStem(path) => join("Failed to get file stem: ", path.as_str()),
            DependencyError::Parse { path, error } => {
                let mut message = join("Failed to parse SQL file ", path.as_str());
                message.append(": ");
                message.append(error.to_string().as_str());
                message
            },
        }
    }
}

/// What the extension of a file makes of it, whatever its case.
pub open spec fn kind_of_extension(extension: Option<Seq<char>>) -> UnitKind {
    match extension {
        Some(text) => if lowercase(text) == "sql"@ {
            UnitKind::Sql
        } else if lowercase(text) == "py"@ {
            UnitKind::Script
        } else {
            UnitKind::Other
        },
        None => UnitKind::Other,
    }
}

/// The text of an optional string.
pub open spec fn optional_string_text(text: Option<String>) -> Option<Seq<char>> {
    match text {
        Some(text) => Some(text@),
        None => None,
    }
}

/// The tables that the first `count` statements read.
pub open spec fn statements_tables(statements: Seq<StatementModel>, count: nat) -> Set<Seq<char>>
    decreases count,
{
    if 0 < count <= statements.len() {
        statements_tables(statements, (count - 1) as nat).union(
            statement_tables(statements[count - 1]),
        )
    } else {
        Set::empty()
    }
}

/// The dependencies of a unit: the tables that its statements read,
/// without the unit's own name.
pub open spec fn unit_dependencies(statements: Seq<StatementModel>, name: Seq<char>) -> Set<
    Seq<char>,
> {
    statements_tables(statements, statements.len()).remove(name)
}

/// The units after one more file of the scan. A SQL file becomes the
/// unit of its name, in the place of any earlier unit of that name; any
/// other file changes nothing.
pub open spec fn scan_file(
    units: Map<Seq<char>, UnitModel>,
    file: SourceFile,
    dialect: Seq<char>,
) -> Result<Map<Seq<char>, UnitModel>, DependencyErrorModel> {
    if kind_of_extension(optional_string_text(file.extension)) == UnitKind::Sql {
        match file.stem {
            None => Err(DependencyErrorModel::NoFileStem(file.path@)),
            Some(stem) => match parsed(
                file.contents@,
                dialect,
                optional_string_text(file.native_ast),
            ) {
                Err(error) => Err(DependencyErrorModel::Parse { path: file.path@, error }),
                Ok(statements) => Ok(
                    units.insert(
                        stem@,
                        UnitModel {
                            deps: unit_dependencies(statements, stem@),
                            filename: file.path@,
                            config: file.config,
                        },
                    ),
                ),
            },
        }
    } else {
        Ok(units)
    }
}

/// The units of the first `count` files of a scan, or the first error
/// among them.
pub open spec fn scanned(files: Seq<SourceFile>, dialect: Seq<char>, count: nat) -> Result<
    Map<Seq<char>, UnitModel>,
    DependencyErrorModel,
>
    decreases count,
{
    if 0 < count <= files.len() {
        match scanned(files, dialect, (count - 1) as nat) {
            Err(error) => Err(error),
            Ok(units) => scan_file(units, files[count - 1], dialect),
        }
    } else {
        Ok(Map::empty())
    }
}

/// Whether a file of a scan is a SQL file with a name.
pub open spec fn is_named_sql_file(file: SourceFile) -> bool {
    kind_of_extension(optional_string_text(file.extension)) == UnitKind::Sql && file.stem is Some
}

/// Whether the file at a position takes the name of an earlier file of
/// the scan. Its unit then stands in the place of the earlier one.
pub open spec fn takes_earlier_name(files: Seq<SourceFile>, index: int) -> bool {
    &&& 0 <= index < files.len()
    &&& is_named_sql_file(files[index])
    &&& exists|earlier: int|
        0 <= earlier < index && is_named_sql_file(#[trigger] files[earlier])
            && files[earlier].stem->Some_0@ == files[index].stem->Some_0@
}

/// The positions, among the first `count` files, of those that take the
/// name of an earlier file.
pub open spec fn name_collisions_among(files: Seq<SourceFile>, count: nat) -> Seq<usize>
    decreases count,
{
    if 0 < count <= files.len() {
        let before = name_collisions_among(files, (count - 1) as nat);
        if takes_earlier_name(files, count - 1) {
            before.push((count - 1) as usize)
        } else {
            before
        }
    } else {
        Seq::empty()
    }
}

/// The names of the units of the first `count` files of a scan, in the
/// order in which they first occur.
pub open spec fn scanned_names(files: Seq<SourceFile>, count: nat) -> Seq<Seq<char>>
    decreases count,
{
    if 0 < count <= files.len() {
        let before = scanned_names(files, (count - 1) as nat);
        let file = files[count - 1];
        if is_named_sql_file(file) && !before.contains(file.stem->Some_0@) {
            before.push(file.stem->Some_0@)
        } else {
            before
        }
    } else {
        Seq::empty()
    }
}

proof fn lemma_scanned_error_stays(files: Seq<SourceFile>, dialect: Seq<char>, count: nat, more: nat)
    requires
        count <= more <= files.len(),
        scanned(files, dialect, count) is Err,
    ensures
        scanned(files, dialect, more) == scanned(files, dialect, count),
    decreases more,
{
    if count < more {
        lemma_scanned_error_stays(files, dialect, count, (more - 1) as nat);
    }
}

/// No unit of a scan has its own name among its dependencies, and so
/// none depends on itself directly.
pub proof fn lemma_scanned_units_do_not_read_themselves(
    files: Seq<SourceFile>,
    dialect: Seq<char>,
    count: nat,
)
    requires
        scanned(files, dialect, count) is Ok,
    ensures
        forall|name: Seq<char>| #[trigger]
            scanned(files, dialect, count)->Ok_0.contains_key(name) ==> !scanned(
                files,
                dialect,
                count,
            )->Ok_0[name].deps.contains(name) && !depends_on(scanned(files, dialect, count)->Ok_0)(
                name,
                name,
            ),
    decreases count,
{
    if 0 < count <= files.len() {
        lemma_scanned_units_do_not_read_themselves(files, dialect, (count - 1) as nat);
    }
}

/// Whether the extension of a file marks it as a SQL source, as a script
/// or as neither.
pub fn unit_kind(extension: Option<&str>) -> (r: UnitKind)
    ensures
        r == kind_of_extension(optional_text(extension)),
{
    match extension {
        Some(text) => {
            let lower = to_lowercase(text);
            if text_eq(lower.as_str(), "sql") {
                UnitKind::Sql
            } else if text_eq(lower.as_str(), "py") {
                UnitKind::Script
            } else {
                UnitKind::Other
            }
        },
        None => UnitKind::Other,
    }
}

/// Whether a file of a scan is a SQL file with a name.
fn names_a_unit(file: &SourceFile) -> (r: bool)
    ensures
        r == is_named_sql_file(*file),
{
    match unit_kind(borrowed(&file.extension)) {
        UnitKind::Sql => file.stem.is_some(),
        _ => false,
    }
}

/// The positions of the files that take the name of an earlier file of
/// the scan: two files of one name are one unit, and the later file is
/// the one that counts.
pub fn name_collisions(files: &Vec<SourceFile>) -> (r: Vec<usize>)
    ensures
        r@ == name_collisions_among(files@, files@.len()),
{
    let mut found: Vec<usize> = Vec::new();
    let mut i: usize = 0;
    while i < files.len()
        invariant
            i <= files@.len(),
            found@ == name_collisions_among(files@, i as nat),
        decreases files@.len() - i,
    {
        let mut taken = false;
        if names_a_unit(&files[i]) {
            let mut j: usize = 0;
            while j < i
                invariant
                    j <= i < files@.len(),
                    is_named_sql_file(files@[i as int]),
                    taken == exists|earlier: int|
                        0 <= earlier < j && is_named_sql_file(#[trigger] files@[earlier])
                            && files@[earlier].stem->Some_0@ == files@[i as int].stem->Some_0@,
                decreases i - j,
            {
                if names_a_unit(&files[j]) {
                    let same = match (&files[j].stem, &files[i].stem) {
                        (Some(earlier), Some(later)) => text_eq(earlier.as_str(), later.as_str()),
                        _ => false,
                    };
                    if same {
                        taken = true;
                    }
                }
                j += 1;
            }
        }
        if taken {
            found.push(i);
        }
        i += 1;
    }
    found
}

/// The text of an optional string, borrowed.
fn borrowed(text: &Option<String>) -> (r: Option<&str>)
    ensures
        optional_text(r) == optional_string_text(*text),
{
    match text {
        Some(text) => Some(text.as_str()),
        None => None,
    }
}

/// Records the unit of one SQL text under `name`: its dependencies are
/// the tables that its statements read, without `name` itself. Returns
/// whether an earlier unit of that name was replaced. Where the text
/// does not parse, nothing is recorded.
pub fn process_sql_file(
    name: &str,
    path: &str,
    sql: &str,
    dialect: &str,
    native_ast: Option<&str>,
    config: Option<ModelConfig>,
    dependencies: &mut DependencyMap,
) -> (r: Result<bool, ParseError>)
    requires
        old(dependencies).wf(),
    ensures
        final(dependencies).wf(),
        match r {
            Ok(replaced) => {
                &&& parsed(sql@, dialect@, optional_text(native_ast)) is Ok
                &&& final(dependencies)@ == old(dependencies)@.insert(
                    name@,
                    UnitModel {
                        deps: unit_dependencies(
                            parsed(sql@, dialect@, optional_text(native_ast))->Ok_0,
                            name@,
                        ),
                        filename: path@,
                        config: config,
                    },
                )
                &&& !final(dependencies)@[name@].deps.contains(name@)
                &&& replaced == old(dependencies)@.contains_key(name@)
                &&& final(dependencies).names() == if replaced {
                    old(dependencies).names()
                } else {
                    old(dependencies).names().push(name@)
                }
            },
            Err(error) => {
                &&& parsed(sql@, dialect@, optional_text(native_ast))
                    == Err::<Seq<StatementModel>, ParseErrorModel>(error@)
                &&& final(dependencies)@ == old(dependencies)@
                &&& final(dependencies).names() == old(dependencies).names()
            },
        },
{
    let statements = match parse_sql(sql, dialect, native_ast) {
        Ok(statements) => statements,
        Err(error) => {
            return Err(error);
        },
    };
    let mut deps = NameSet::new();
    let mut i: usize = 0;
    while i < statements.len()
        invariant
            i <= statements@.len(),
            deps.wf(),
            deps@ == statements_tables(statements_model(statements@), i as nat),
        decreases statements@.len() - i,
    {
        let tables = extract_tables(&statements[i]);
        deps.extend(&tables);
        i += 1;
    }
    deps.remove(name);
    let unit = Dependency { deps, filename: path.to_owned(), config };
    let replaced = dependencies.insert(name.to_owned(), unit);
    Ok(replaced)
}

/// Get the dependencies of all SQL files of a scan. The files are taken
/// in the order of the scan, and the units are kept in the order in
/// which their names first occur; a file that is no SQL source is passed
/// over. The first SQL file without a name, or that does not parse, is
/// the error.
pub fn get_dependencies(files: &Vec<SourceFile>, dialect: &str) -> (r: Result<
    DependencyMap,
    DependencyError,
>)
    ensures
        match r {
            Ok(dependencies) => dependencies.wf() && scanned(files@, dialect@, files@.len())
                == Ok::<Map<Seq<char>, UnitModel>, DependencyErrorModel>(dependencies@) &&
                dependencies.names() == scanned_names(files@, files@.len()),
            Err(error) => scanned(files@, dialect@, files@.len())
                == Err::<Map<Seq<char>, UnitModel>, DependencyErrorModel>(error@),
        },
{
    let mut dependencies = DependencyMap::new();
    let mut i: usize = 0;
    while i < files.len()
        invariant
            i <= files@.len(),
            dependencies.wf(),
            scanned(files@, dialect@, i as nat)
                == Ok::<Map<Seq<char>, UnitModel>, DependencyErrorModel>(
                dependencies@,
            ),
            dependencies.names() == scanned_names(files@, i as nat),
        decreases files@.len() - i,
    {
        let file = &files[i];
        proof {
            dependencies.lemma_view();
        }
        match unit_kind(borrowed(&file.extension)) {
            UnitKind::Sql => {
                let stem = match &file.stem {
                    Some(stem) => stem,
                    None => {
                        proof {
                            lemma_scanned_error_stays(
                                files@,
                                dialect@,
                                (i + 1) as nat,
                                files@.len(),
                            );
                        }
                        return Err(DependencyError::NoFileStem(file.path.clone()));
                    },
                };
                let config = match &file.config {
                    Some(config) => Some(config.duplicate()),
                    None => None,
                };
                match process_sql_file(
                    stem.as_str(),
                    file.path.as_str(),
                    file.contents.as_str(),
                    dialect,
                    borrowed(&file.native_ast),
                    config,
                    &mut dependencies,
                ) {
                    Ok(_) => {},
                    Err(error) => {
                        proof {
                            lemma_scanned_error_stays(
                                files@,
                                dialect@,
                                (i + 1) as nat,
                                files@.len(),
                            );
                        }
                        return Err(DependencyError::Parse { path: file.path.clone(), error });
                    },
                }
            },
            _ => {},
        }
        i += 1;
    }
    Ok(dependencies)
}

} // verus!
