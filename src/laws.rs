//! What holds of every deployment: variables keep their vertices, distinct
//! variables get distinct vertices, and a successful `ADD` adds one vertex.
use vstd::prelude::*;
use crate::graph::Model;
use crate::script::{command, lookup, opcode_of, resolve, run, shape_of, Opcode, Vars};

verus! {

/// The bound vertices are pairwise distinct and all below the graph's
/// allocator, so that no fresh vertex can clash with them. An empty table
/// has this property on every graph.
pub open spec fn vars_fresh(vars: Vars, g: Model) -> bool {
    &&& forall|i: int, j: int| 0 <= i < j < vars.len() ==> vars[i].1 != vars[j].1
    &&& forall|i: int| 0 <= i < vars.len() ==> vars[i].1 < g.next
}

proof fn lemma_lookup_push(vars: Vars, p: (Seq<char>, u32), name: Seq<char>)
    requires
        lookup(vars, name) is Some,
    ensures
        lookup(vars.push(p), name) == lookup(vars, name),
{
    assert(vars.push(p).drop_last() =~= vars);
}

proof fn lemma_lookup_entry(vars: Vars, name: Seq<char>)
    requires
        lookup(vars, name) is Some,
    ensures
        exists|i: int| 0 <= i < vars.len() && vars[i] == (name, lookup(vars, name)->0),
    decreases vars.len(),
{
    if vars.len() > 0 {
        let rest = vars.drop_last();
        if lookup(rest, name) is Some {
            lemma_lookup_entry(rest, name);
            let i = choose|i: int| 0 <= i < rest.len() && rest[i] == (name, lookup(rest, name)->0);
            assert(vars[i] == rest[i]);
        } else {
            assert(vars[vars.len() - 1] == (name, lookup(vars, name)->0));
        }
    }
}

proof fn lemma_resolve_keeps(s: Seq<char>, k: usize, vars: Vars, g: Model, name: Seq<char>)
    ensures
        lookup(vars, name) is Some ==> lookup(resolve(s, k, vars, g).0, name) == lookup(vars, name),
        vars_fresh(vars, g) ==> vars_fresh(resolve(s, k, vars, g).0, resolve(s, k, vars, g).1),
        resolve(s, k, vars, g).1.ids == g.ids,
{
    if s.len() > 0 && s[0] == '$' && lookup(vars, s.skip(1)) is None {
        if let Some((v, g2)) = g.next_id() {
            let p = (s.skip(1), v);
            if lookup(vars, name) is Some {
                lemma_lookup_push(vars, p, name);
            }
            if vars_fresh(vars, g) {
                let vs = vars.push(p);
                assert forall|i: int, j: int| 0 <= i < j < vs.len() implies vs[i].1 != vs[j].1 by {
                    if j == vars.len() {
                        assert(vs[i] == vars[i]);
                    }
                }
                assert forall|i: int| 0 <= i < vs.len() implies vs[i].1 < g2.next by {
                    if i < vars.len() {
                        assert(vs[i] == vars[i]);
                    }
                }
            }
        }
    }
}

proof fn lemma_command_keeps(c: Seq<char>, vars: Vars, g: Model, name: Seq<char>)
    ensures
        lookup(vars, name) is Some ==> lookup(command(c, vars, g).0, name) == lookup(vars, name),
        vars_fresh(vars, g) ==> vars_fresh(command(c, vars, g).0, command(c, vars, g).1),
{
    if let Some((op, inner)) = shape_of(c) {
        let args = crate::text::pieces(inner, ',');
        if args.len() > 0 {
            lemma_resolve_keeps(args[0], 0, vars, g, name);
            let (vars1, g1, r1) = resolve(args[0], 0, vars, g);
            if args.len() > 1 {
                lemma_resolve_keeps(args[1], 1, vars1, g1, name);
            }
        }
    }
}

/// A variable keeps its vertex: once `name` is bound, any commands that
/// follow, a whole deployment included, leave the binding as it is.
pub proof fn lemma_binding_kept(cmds: Seq<Seq<char>>, vars: Vars, g: Model, name: Seq<char>)
    requires
        lookup(vars, name) is Some,
    ensures
        lookup(run(cmds, vars, g).0, name) == lookup(vars, name),
    decreases cmds.len(),
{
    if cmds.len() > 0 {
        lemma_binding_kept(cmds.drop_last(), vars, g, name);
        let (vars1, g1, r1) = run(cmds.drop_last(), vars, g);
        lemma_command_keeps(cmds.last(), vars1, g1, name);
    }
}

/// Every reference `$name` to a bound variable resolves to its vertex, and
/// changes neither the table nor the graph.
pub proof fn lemma_reference_resolves(s: Seq<char>, k: usize, vars: Vars, g: Model)
    requires
        s.len() > 0,
        s[0] == '$',
        lookup(vars, s.skip(1)) is Some,
    ensures
        resolve(s, k, vars, g) == (vars, g, Ok::<u32, crate::script::Fault>(lookup(vars, s.skip(1))->0)),
{
}

/// Distinct variables get distinct vertices: a table whose vertices are
/// distinct and below the allocator stays so through any commands, a whole
/// deployment included.
pub proof fn lemma_vars_stay_fresh(cmds: Seq<Seq<char>>, vars: Vars, g: Model)
    requires
        vars_fresh(vars, g),
    ensures
        vars_fresh(run(cmds, vars, g).0, run(cmds, vars, g).1),
    decreases cmds.len(),
{
    if cmds.len() > 0 {
        lemma_vars_stay_fresh(cmds.drop_last(), vars, g);
        let (vars1, g1, r1) = run(cmds.drop_last(), vars, g);
        lemma_command_keeps(cmds.last(), vars1, g1, Seq::empty());
    }
}

/// In such a table two distinct names are bound to two distinct vertices.
pub proof fn lemma_distinct_names(vars: Vars, g: Model, n1: Seq<char>, n2: Seq<char>)
    requires
        vars_fresh(vars, g),
        n1 != n2,
        lookup(vars, n1) is Some,
        lookup(vars, n2) is Some,
    ensures
        lookup(vars, n1) != lookup(vars, n2),
{
    lemma_lookup_entry(vars, n1);
    lemma_lookup_entry(vars, n2);
    let i = choose|i: int| 0 <= i < vars.len() && vars[i] == (n1, lookup(vars, n1)->0);
    let j = choose|j: int| 0 <= j < vars.len() && vars[j] == (n2, lookup(vars, n2)->0);
    assert(i != j);
    if i < j {
        assert(vars[i].1 != vars[j].1);
    } else {
        assert(vars[j].1 != vars[i].1);
    }
}

/// Within a deployment, distinct variables resolve to distinct vertices:
/// starting from a table whose vertices are distinct and below the allocator
/// (an empty one, for a new script), two distinct names bound after the
/// commands have run are bound to two distinct vertices.
pub proof fn lemma_distinct_variables(
    cmds: Seq<Seq<char>>,
    vars: Vars,
    g: Model,
    n1: Seq<char>,
    n2: Seq<char>,
)
    requires
        vars_fresh(vars, g),
        n1 != n2,
        lookup(run(cmds, vars, g).0, n1) is Some,
        lookup(run(cmds, vars, g).0, n2) is Some,
    ensures
        lookup(run(cmds, vars, g).0, n1) != lookup(run(cmds, vars, g).0, n2),
{
    lemma_vars_stay_fresh(cmds, vars, g);
    let (vars1, g1, r1) = run(cmds, vars, g);
    lemma_distinct_names(vars1, g1, n1, n2);
}

/// A successful `ADD` command adds exactly one vertex to the graph.
pub proof fn lemma_add_adds_one(c: Seq<char>, vars: Vars, g: Model)
    requires
        match shape_of(c) {
            Some((op, _)) => opcode_of(op) == Some(Opcode::Add),
            None => false,
        },
        command(c, vars, g).2 is Ok,
    ensures
        command(c, vars, g).1.ids.len() == g.ids.len() + 1,
{
    if let Some((op, inner)) = shape_of(c) {
        let args = crate::text::pieces(inner, ',');
        lemma_resolve_keeps(args[0], 0, vars, g, Seq::empty());
    }
}

} // verus!
