//! The graph itself: vertices with payloads and uniquely labelled edges.
use vstd::prelude::*;
use crate::hex::Hex;
use crate::text::{chars_of, same_chars};

verus! {

/// Why a change to the graph was refused.
#[derive(Clone, Copy, Debug, PartialEq, Eq, Structural)]
pub enum GraphError {
    /// The vertex is there already.
    VertexExists(u32),
    /// The vertex is not there.
    VertexAbsent(u32),
    /// The vertex has an edge with that label already.
    LabelTaken(u32),
}

/// A labelled edge, as the model sees it.
pub struct Link {
    pub from: u32,
    pub label: Seq<char>,
    pub to: u32,
}

/// What a graph holds: its vertices in the order they came, the payload of
/// each (same positions), its edges, and the lowest identifier that the
/// allocator may hand out next.
pub struct Model {
    pub ids: Seq<u32>,
    pub data: Seq<Seq<u8>>,
    pub links: Seq<Link>,
    pub next: u32,
}

impl Model {
    pub open spec fn has(self, v: u32) -> bool {
        self.ids.contains(v)
    }

    /// Where vertex `v` stands among the vertices.
    pub open spec fn position(self, v: u32) -> int {
        choose|i: int| 0 <= i < self.ids.len() && self.ids[i] == v
    }

    pub open spec fn label_used(self, v: u32, a: Seq<char>) -> bool {
        exists|j: int| 0 <= j < self.links.len() && self.links[j].from == v && self.links[j].label == a
    }

    /// The vertex that edge `a` of `v` leads to.
    pub open spec fn kid(self, v: u32, a: Seq<char>) -> Option<u32> {
        if self.label_used(v, a) {
            let j = choose|j: int|
                0 <= j < self.links.len() && self.links[j].from == v && self.links[j].label == a;
            Some(self.links[j].to)
        } else {
            None
        }
    }

    /// One more than the largest identifier in use; zero for no vertices.
    pub open spec fn above(ids: Seq<u32>) -> int
        decreases ids.len(),
    {
        if ids.len() == 0 {
            0
        } else {
            let rest = Self::above(ids.drop_last());
            if rest > ids.last() + 1 {
                rest
            } else {
                ids.last() + 1
            }
        }
    }

    /// A well-formed graph: one payload per vertex, no vertex twice, no
    /// label twice on one vertex.
    pub open spec fn wf(self) -> bool {
        &&& self.ids.len() == self.data.len()
        &&& forall|i: int, j: int|
            0 <= i < j < self.ids.len() ==> self.ids[i] != self.ids[j]
        &&& forall|i: int, j: int|
            0 <= i < j < self.links.len() ==> !(self.links[i].from == self.links[j].from
                && self.links[i].label == self.links[j].label)
    }

    pub open spec fn add(self, v: u32) -> Result<Model, GraphError> {
        if self.has(v) {
            Err(GraphError::VertexExists(v))
        } else {
            Ok(Model { ids: self.ids.push(v), data: self.data.push(seq![]), links: self.links, next: self.next })
        }
    }

    pub open spec fn bind(self, v1: u32, v2: u32, a: Seq<char>) -> Result<Model, GraphError> {
        if !self.has(v1) {
            Err(GraphError::VertexAbsent(v1))
        } else if !self.has(v2) {
            Err(GraphError::VertexAbsent(v2))
        } else if self.label_used(v1, a) {
            Err(GraphError::LabelTaken(v1))
        } else {
            Ok(Model { ids: self.ids, data: self.data, links: self.links.push(Link { from: v1, label: a, to: v2 }), next: self.next })
        }
    }

    pub open spec fn put(self, v: u32, d: Seq<u8>) -> Result<Model, GraphError> {
        if !self.has(v) {
            Err(GraphError::VertexAbsent(v))
        } else {
            Ok(Model { ids: self.ids, data: self.data.update(self.position(v), d), links: self.links, next: self.next })
        }
    }

    /// The identifier that the allocator hands out and the graph after it:
    /// the lowest one that is at least `next` and above every vertex, as long
    /// as it is below `u32::MAX`.
    pub open spec fn next_id(self) -> Option<(u32, Model)> {
        let a = Self::above(self.ids);
        let f = if a > self.next { a } else { self.next as int };
        if f < u32::MAX {
            Some((f as u32, Model { ids: self.ids, data: self.data, links: self.links, next: (f + 1) as u32 }))
        } else {
            None
        }
    }
}

struct Edge {
    from: u32,
    label: Vec<char>,
    to: u32,
}

/// A labelled directed graph whose vertices carry byte payloads.
pub struct Sodg {
    ids: Vec<u32>,
    data: Vec<Hex>,
    edges: Vec<Edge>,
    next_v: u32,
}

spec fn link_of(e: Edge) -> Link {
    Link { from: e.from, label: e.label@, to: e.to }
}

impl View for Sodg {
    type V = Model;

    closed spec fn view(&self) -> Model {
        Model {
            ids: self.ids@,
            data: self.data@.map_values(|h: Hex| h@),
            links: self.edges@.map_values(|e: Edge| link_of(e)),
            next: self.next_v,
        }
    }
}

proof fn lemma_above(ids: Seq<u32>)
    ensures
        Model::above(ids) >= 0,
        forall|i: int| 0 <= i < ids.len() ==> ids[i] < Model::above(ids),
    decreases ids.len(),
{
    if ids.len() > 0 {
        lemma_above(ids.drop_last());
        assert forall|i: int| 0 <= i < ids.len() implies ids[i] < Model::above(ids) by {
            if i < ids.len() - 1 {
                assert(ids[i] == ids.drop_last()[i]);
            }
        }
    }
}

impl Sodg {
    pub closed spec fn wf(&self) -> bool {
        self@.wf()
    }

    /// A graph with no vertices.
    pub fn empty() -> (r: Sodg)
        ensures
            r.wf(),
            r@.ids.len() == 0,
            r@.data.len() == 0,
            r@.links.len() == 0,
            r@.next == 0,
    {
        let r = Sodg { ids: Vec::new(), data: Vec::new(), edges: Vec::new(), next_v: 0 };
        assert(r@.data =~= Seq::<Seq<u8>>::empty());
        assert(r@.links =~= Seq::<Link>::empty());
        r
    }

    /// Where vertex `v` stands, if it is there.
    fn find(&self, v: u32) -> (r: Option<usize>)
        requires
            self.wf(),
        ensures
            r is None <==> !self@.has(v),
            r is Some ==> r->0 == self@.position(v) && r->0 < self@.ids.len() && self@.ids[r->0 as int] == v,
    {
        let mut i: usize = 0;
        while i < self.ids.len()
            invariant
                self.wf(),
                i <= self.ids@.len(),
                forall|j: int| 0 <= j < i ==> self.ids@[j] != v,
            decreases self.ids@.len() - i,
        {
            if self.ids[i] == v {
                let ghost p = self@.position(v);
                assert(self@.ids[i as int] == v);
                assert(0 <= p < self@.ids.len() && self@.ids[p] == v);
                assert(p == i) by {
                    if p < i {
                    } else if p > i {
                        assert(self@.ids[i as int] != self@.ids[p]);
                    }
                }
                return Some(i);
            }
            i = i + 1;
        }
        None
    }

    /// Get total number of vertices in the graph.
    pub fn len(&self) -> (r: usize)
        ensures
            r == self@.ids.len(),
    {
        self.ids.len()
    }

    /// Get all IDs of vertices, in a vector.
    pub fn ids(&self) -> (r: Vec<u32>)
        ensures
            r@ == self@.ids,
    {
        let mut r: Vec<u32> = Vec::new();
        let mut i: usize = 0;
        while i < self.ids.len()
            invariant
                i <= self.ids@.len(),
                r@ == self.ids@.take(i as int),
            decreases self.ids@.len() - i,
        {
            r.push(self.ids[i]);
            i = i + 1;
        }
        assert(r@ =~= self.ids@);
        r
    }

    /// Is it empty? Emptiness means that not a single vertex is in the graph.
    pub fn is_empty(&self) -> (r: bool)
        ensures
            r == (self@.ids.len() == 0),
    {
        self.ids.len() == 0
    }

    /// Adds vertex `v`, with an empty payload and no edges.
    pub fn add(&mut self, v: u32) -> (r: Result<(), GraphError>)
        requires
            old(self).wf(),
        ensures
            final(self).wf(),
            match old(self)@.add(v) {
                Ok(m) => r is Ok && final(self)@ == m,
                Err(e) => r == Err::<(), GraphError>(e) && final(self)@ == old(self)@,
            },
            r is Ok ==> final(self)@.ids.len() == old(self)@.ids.len() + 1,
    {
        if let Some(_) = self.find(v) {
            return Err(GraphError::VertexExists(v));
        }
        let ghost before = self@;
        self.ids.push(v);
        self.data.push(Hex::empty());
        proof {
            assert(self@.data =~= before.data.push(seq![]));
            assert(self@.ids =~= before.ids.push(v));
            assert forall|i: int, j: int| 0 <= i < j < self@.ids.len() implies self@.ids[i] != self@.ids[j] by {
                if j == self@.ids.len() - 1 {
                    assert(before.ids[i] == self@.ids[i]);
                }
            }
        }
        Ok(())
    }

    fn label_used(&self, v: u32, a: &Vec<char>) -> (r: bool)
        ensures
            r == self@.label_used(v, a@),
    {
        let mut i: usize = 0;
        while i < self.edges.len()
            invariant
                i <= self.edges@.len(),
                forall|j: int| 0 <= j < i ==> !(self@.links[j].from == v && self@.links[j].label == a@),
            decreases self.edges@.len() - i,
        {
            let e = &self.edges[i];
            if e.from == v && same_chars(&e.label, a) {
                assert(self@.links[i as int].from == v && self@.links[i as int].label == a@);
                return true;
            }
            i = i + 1;
        }
        false
    }

    /// Adds an edge labelled `a` from `v1` to `v2`.
    pub fn bind_chars(&mut self, v1: u32, v2: u32, a: Vec<char>) -> (r: Result<(), GraphError>)
        requires
            old(self).wf(),
        ensures
            final(self).wf(),
            match old(self)@.bind(v1, v2, a@) {
                Ok(m) => r is Ok && final(self)@ == m,
                Err(e) => r == Err::<(), GraphError>(e) && final(self)@ == old(self)@,
            },
    {
        if self.find(v1).is_none() {
            return Err(GraphError::VertexAbsent(v1));
        }
        if self.find(v2).is_none() {
            return Err(GraphError::VertexAbsent(v2));
        }
        if self.label_used(v1, &a) {
            return Err(GraphError::LabelTaken(v1));
        }
        let ghost before = self@;
        let ghost label = a@;
        self.edges.push(Edge { from: v1, label: a, to: v2 });
        proof {
            let l = Link { from: v1, label: label, to: v2 };
            assert(self@.links =~= before.links.push(l));
            assert forall|i: int, j: int| 0 <= i < j < self@.links.len() implies !(self@.links[i].from == self@.links[j].from
                && self@.links[i].label == self@.links[j].label) by {
                if j == self@.links.len() - 1 {
                    assert(before.links[i] == self@.links[i]);
                }
            }
            assert(self@ =~= before.bind(v1, v2, label)->Ok_0);
        }
        Ok(())
    }

    /// Adds an edge labelled `a` from `v1` to `v2`.
    pub fn bind(&mut self, v1: u32, v2: u32, a: &str) -> (r: Result<(), GraphError>)
        requires
            old(self).wf(),
        ensures
            final(self).wf(),
            match old(self)@.bind(v1, v2, a@) {
                Ok(m) => r is Ok && final(self)@ == m,
                Err(e) => r == Err::<(), GraphError>(e) && final(self)@ == old(self)@,
            },
    {
        self.bind_chars(v1, v2, chars_of(a))
    }

    /// Sets the payload of `v`.
    pub fn put(&mut self, v: u32, d: Hex) -> (r: Result<(), GraphError>)
        requires
            old(self).wf(),
        ensures
            final(self).wf(),
            match old(self)@.put(v, d@) {
                Ok(m) => r is Ok && final(self)@ == m,
                Err(e) => r == Err::<(), GraphError>(e) && final(self)@ == old(self)@,
            },
    {
        match self.find(v) {
            None => Err(GraphError::VertexAbsent(v)),
            Some(i) => {
                let ghost before = self@;
                self.data.set(i, d);
                assert(self@.data =~= before.data.update(i as int, d@));
                assert(self@ =~= before.put(v, d@)->Ok_0);
                Ok(())
            },
        }
    }

    /// A fresh identifier: one that no vertex has and that was not handed out
    /// before; `None` once the identifiers are used up.
    pub fn next_id(&mut self) -> (r: Option<u32>)
        requires
            old(self).wf(),
        ensures
            final(self).wf(),
            match old(self)@.next_id() {
                Some((v, m)) => r == Some(v) && final(self)@ == m,
                None => r is None && final(self)@ == old(self)@,
            },
            r is Some ==> !old(self)@.has(r->0) && r->0 >= old(self)@.next,
    {
        let mut top: u32 = self.next_v;
        let mut over = false;
        let mut i: usize = 0;
        let ghost ids = self.ids@;
        while i < self.ids.len()
            invariant
                i <= ids.len(),
                ids == self.ids@,
                over ==> Model::above(ids.take(i as int)) >= u32::MAX as int,
                !over ==> top == if Model::above(ids.take(i as int)) > self.next_v as int {
                    Model::above(ids.take(i as int))
                } else {
                    self.next_v as int
                },
            decreases ids.len() - i,
        {
            assert(ids.take(i + 1).drop_last() =~= ids.take(i as int));
            let v = self.ids[i];
            if v == u32::MAX {
                over = true;
            } else if !over && v + 1 > top {
                top = v + 1;
            }
            i = i + 1;
        }
        assert(ids.take(ids.len() as int) =~= ids);
        if over || top == u32::MAX {
            return None;
        }
        proof {
            lemma_above(ids);
        }
        let ghost before = self@;
        self.next_v = top + 1;
        assert(!before.has(top));
        Some(top)
    }

    /// The vertex that edge `a` of `v` leads to, if there is one.
    pub fn kid(&self, v: u32, a: &str) -> (r: Option<u32>)
        requires
            self.wf(),
        ensures
            r == self@.kid(v, a@),
    {
        let label = chars_of(a);
        let mut i: usize = 0;
        while i < self.edges.len()
            invariant
                self.wf(),
                label@ == a@,
                i <= self.edges@.len(),
                forall|j: int| 0 <= j < i ==> !(self@.links[j].from == v && self@.links[j].label == label@),
            decreases self.edges@.len() - i,
        {
            let e = &self.edges[i];
            if e.from == v && same_chars(&e.label, &label) {
                proof {
                    assert(self@.links[i as int].from == v && self@.links[i as int].label == label@);
                    let j = choose|j: int|
                        0 <= j < self@.links.len() && self@.links[j].from == v && self@.links[j].label == label@;
                    if j != i {
                        assert(j > i);
                        assert(!(self@.links[i as int].from == self@.links[j].from
                            && self@.links[i as int].label == self@.links[j].label));
                    }
                    assert(self@.links[i as int].to == e.to);
                    assert(self@.kid(v, a@) == Some(e.to));
                }
                return Some(e.to);
            }
            i = i + 1;
        }
        None
    }

    /// The payload of `v`, if `v` is there.
    pub fn data(&self, v: u32) -> (r: Option<Hex>)
        requires
            self.wf(),
        ensures
            r is Some <==> self@.has(v),
            r is Some ==> r->0@ == self@.data[self@.position(v)],
    {
        match self.find(v) {
            None => None,
            Some(i) => Some(self.data[i].duplicate()),
        }
    }
}

} // verus!
