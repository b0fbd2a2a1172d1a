//! Scripts of graph instructions, and their deployment onto a graph.
use vstd::prelude::*;
use crate::graph::{GraphError, Model, Sodg};
use crate::hex::{data_of, parse_data};
use crate::text::{
    chars_of, pieces, pieces_of, same_chars, slice_chars, uncomment, uncommented, unsigned_from,
    unsigned_of, views,
};

verus! {

/// The three instructions of the language.
#[derive(Clone, Copy, Debug, PartialEq, Eq, Structural)]
pub enum Opcode {
    Add,
    Bind,
    Put,
}

/// Why a single command failed.
#[derive(Clone, Copy, Debug, PartialEq, Eq, Structural)]
pub enum Fault {
    /// The command is not of the shape `OPCODE(args)`.
    Malformed,
    /// The opcode is none of `ADD`, `BIND`, `PUT`.
    UnknownCommand,
    /// The opcode takes another number of arguments.
    Arity,
    /// An argument that should name a vertex is empty.
    EmptyIdentifier,
    /// The argument at this position is not a vertex number.
    BadNumber(usize),
    /// A variable needs a fresh vertex and the graph has none left.
    NoFreshId,
    /// The payload of `PUT` is not hexadecimal.
    BadData,
    /// The graph refused the change.
    Graph(GraphError),
}

/// The variable table as the model sees it: names with their vertices, in
/// the order they were bound.
pub type Vars = Seq<(Seq<char>, u32)>;

/// The vertex that variable `name` is bound to, if any.
pub open spec fn lookup(vars: Vars, name: Seq<char>) -> Option<u32>
    decreases vars.len(),
{
    if vars.len() == 0 {
        None
    } else {
        match lookup(vars.drop_last(), name) {
            Some(v) => Some(v),
            None => if vars.last().0 == name {
                Some(vars.last().1)
            } else {
                None
            },
        }
    }
}

pub open spec fn is_upper(c: char) -> bool {
    'A' as u32 <= c as u32 <= 'Z' as u32
}

/// The first position at or after `i` that does not hold a capital letter.
pub open spec fn upper_run_end(c: Seq<char>, i: int) -> int
    decreases c.len() - i,
{
    if 0 <= i < c.len() && is_upper(c[i]) {
        upper_run_end(c, i + 1)
    } else {
        i
    }
}

/// The first position at or after `i` that does not hold a space.
pub open spec fn blank_run_end(c: Seq<char>, i: int) -> int
    decreases c.len() - i,
{
    if 0 <= i < c.len() && c[i] == ' ' {
        blank_run_end(c, i + 1)
    } else {
        i
    }
}

/// A command of the shape `OPCODE *(ARGS)`: capital letters, spaces, an
/// opening parenthesis, text without a closing one, and a closing one at the
/// very end. Gives the opcode and the text between the parentheses.
pub open spec fn shape_of(c: Seq<char>) -> Option<(Seq<char>, Seq<char>)> {
    let a = upper_run_end(c, 0);
    let b = blank_run_end(c, a);
    if 0 < a && b + 2 <= c.len() && c[b] == '(' && c.last() == ')' && (forall|i: int|
        b < i < c.len() - 1 ==> #[trigger] c[i] != ')') {
        Some((c.subrange(0, a), c.subrange(b + 1, c.len() - 1)))
    } else {
        None
    }
}

pub open spec fn opcode_of(op: Seq<char>) -> Option<Opcode> {
    if op == seq!['A', 'D', 'D'] {
        Some(Opcode::Add)
    } else if op == seq!['B', 'I', 'N', 'D'] {
        Some(Opcode::Bind)
    } else if op == seq!['P', 'U', 'T'] {
        Some(Opcode::Put)
    } else {
        None
    }
}

pub open spec fn arity(op: Opcode) -> nat {
    match op {
        Opcode::Add => 1,
        Opcode::Bind => 3,
        Opcode::Put => 2,
    }
}

/// The commands of a script: comments taken out, cut at `;`, each trimmed,
/// the empty ones dropped.
pub open spec fn commands(t: Seq<char>) -> Seq<Seq<char>> {
    pieces(uncomment(t), ';')
}

/// The vertex that argument `s` (at position `k`) names, with the variable
/// table and the graph after it was resolved: `$name` is the vertex bound to
/// `name`, bound on first use to a fresh one; `\u{3bd}N` and `N` are vertex `N`.
pub open spec fn resolve(s: Seq<char>, k: usize, vars: Vars, g: Model) -> (Vars, Model, Result<u32, Fault>) {
    if s.len() == 0 {
        (vars, g, Err(Fault::EmptyIdentifier))
    } else if s[0] == '$' {
        let name = s.skip(1);
        match lookup(vars, name) {
            Some(v) => (vars, g, Ok(v)),
            None => match g.next_id() {
                Some((v, g2)) => (vars.push((name, v)), g2, Ok(v)),
                None => (vars, g, Err(Fault::NoFreshId)),
            },
        }
    } else {
        let digits = if s[0] == '\u{3bd}' {
            s.skip(1)
        } else {
            s
        };
        match unsigned_of(digits) {
            Some(v) => (vars, g, Ok(v)),
            None => (vars, g, Err(Fault::BadNumber(k))),
        }
    }
}

/// What one command does with the variable table and the graph, and whether
/// it succeeds. What was done before a failure stays done.
pub open spec fn command(c: Seq<char>, vars: Vars, g: Model) -> (Vars, Model, Result<(), Fault>) {
    match shape_of(c) {
        None => (vars, g, Err(Fault::Malformed)),
        Some((op, inner)) => {
            let args = pieces(inner, ',');
            match opcode_of(op) {
                None => (vars, g, Err(Fault::UnknownCommand)),
                Some(o) => if args.len() != arity(o) {
                    (vars, g, Err(Fault::Arity))
                } else {
                    let (vars1, g1, r1) = resolve(args[0], 0, vars, g);
                    match r1 {
                        Err(f) => (vars1, g1, Err(f)),
                        Ok(x) => match o {
                            Opcode::Add => match g1.add(x) {
                                Ok(g2) => (vars1, g2, Ok(())),
                                Err(e) => (vars1, g1, Err(Fault::Graph(e))),
                            },
                            Opcode::Put => match data_of(args[1]) {
                                None => (vars1, g1, Err(Fault::BadData)),
                                Some(d) => match g1.put(x, d) {
                                    Ok(g2) => (vars1, g2, Ok(())),
                                    Err(e) => (vars1, g1, Err(Fault::Graph(e))),
                                },
                            },
                            Opcode::Bind => {
                                let (vars2, g2, r2) = resolve(args[1], 1, vars1, g1);
                                match r2 {
                                    Err(f) => (vars2, g2, Err(f)),
                                    Ok(y) => match g2.bind(x, y, args[2]) {
                                        Ok(g3) => (vars2, g3, Ok(())),
                                        Err(e) => (vars2, g2, Err(Fault::Graph(e))),
                                    },
                                }
                            },
                        },
                    }
                },
            }
        },
    }
}

/// Running commands in order until one fails: the variable table and graph
/// after them, and either how many ran or where and why the run stopped.
pub open spec fn run(cmds: Seq<Seq<char>>, vars: Vars, g: Model) -> (Vars, Model, Result<nat, (nat, Fault)>)
    decreases cmds.len(),
{
    if cmds.len() == 0 {
        (vars, g, Ok(0))
    } else {
        let (vars1, g1, r1) = run(cmds.drop_last(), vars, g);
        match r1 {
            Err(e) => (vars1, g1, Err(e)),
            Ok(n) => {
                let (vars2, g2, r2) = command(cmds.last(), vars1, g1);
                match r2 {
                    Ok(_) => (vars2, g2, Ok(n + 1)),
                    Err(f) => (vars2, g2, Err((n, f))),
                }
            },
        }
    }
}

/// Why a deployment stopped: the position of the failed command among the
/// commands of the script, counted from zero, its text, and what went wrong.
#[derive(Debug)]
pub struct DeployError {
    pub position: usize,
    pub command: Vec<char>,
    pub fault: Fault,
}

struct Binding {
    name: Vec<char>,
    id: u32,
}

spec fn binding_view(b: Binding) -> (Seq<char>, u32) {
    (b.name@, b.id)
}

/// A wrapper of a plain text with graph-modifying instructions, such as
/// `ADD(0); ADD($x); BIND(0, $x, foo); PUT($x, d0-bf);`. Variables such as
/// `$x` are bound to fresh vertices when the script is deployed, and stay
/// bound for later deployments of the same script.
pub struct Script {
    txt: Vec<char>,
    vars: Vec<Binding>,
}

impl Script {
    /// The text of the script.
    pub closed spec fn text(&self) -> Seq<char> {
        self.txt@
    }

    /// The variables bound so far.
    pub closed spec fn vars(&self) -> Vars {
        self.vars@.map_values(|b: Binding| binding_view(b))
    }

    /// Make a new one from a string with instructions.
    pub fn from_str(s: &str) -> (r: Script)
        ensures
            r.text() == s@,
            r.vars() == Seq::<(Seq<char>, u32)>::empty(),
    {
        let r = Script { txt: chars_of(s), vars: Vec::new() };
        assert(r.vars() =~= Seq::<(Seq<char>, u32)>::empty());
        r
    }

    /// Make a new one from a [`String`] with instructions.
    pub fn from_string(s: String) -> (r: Script)
        ensures
            r.text() == s@,
            r.vars() == Seq::<(Seq<char>, u32)>::empty(),
    {
        Script::from_str(s.as_str())
    }

    /// The vertex bound to `name`, if any.
    fn find_var(&self, name: &Vec<char>) -> (r: Option<u32>)
        ensures
            r == lookup(self.vars(), name@),
    {
        let ghost vs = self.vars();
        let mut i: usize = 0;
        while i < self.vars.len()
            invariant
                i <= self.vars@.len(),
                vs == self.vars(),
                lookup(vs.take(i as int), name@) is None,
            decreases self.vars@.len() - i,
        {
            assert(vs.take(i + 1).drop_last() =~= vs.take(i as int));
            if same_chars(&self.vars[i].name, name) {
                proof {
                    lemma_lookup_prefix(vs, i + 1, name@);
                }
                return Some(self.vars[i].id);
            }
            i = i + 1;
        }
        assert(vs.take(i as int) =~= vs);
        None
    }

    /// Resolves argument `s`, at position `k` among the arguments.
    fn parse(&mut self, s: &Vec<char>, k: usize, g: &mut Sodg) -> (r: Result<u32, Fault>)
        requires
            old(g).wf(),
        ensures
            final(g).wf(),
            final(self).text() == old(self).text(),
            (final(self).vars(), final(g)@, r) == resolve(s@, k, old(self).vars(), old(g)@),
    {
        if s.len() == 0 {
            return Err(Fault::EmptyIdentifier);
        }
        if s[0] == '$' {
            let name = slice_chars(s, 1, s.len());
            assert(name@ =~= s@.skip(1));
            match self.find_var(&name) {
                Some(v) => Ok(v),
                None => match g.next_id() {
                    Some(v) => {
                        let ghost before = self.vars();
                        self.vars.push(Binding { name, id: v });
                        assert(self.vars() =~= before.push((s@.skip(1), v)));
                        Ok(v)
                    },
                    None => Err(Fault::NoFreshId),
                },
            }
        } else {
            let from: usize = if s[0] == '\u{3bd}' {
                1
            } else {
                0
            };
            assert(s@.skip(0) =~= s@);
            match unsigned_from(s, from) {
                Some(v) => Ok(v),
                None => Err(Fault::BadNumber(k)),
            }
        }
    }
}

pub(crate) fn upper(c: char) -> (r: bool)
    ensures
        r == is_upper(c),
{
    let u = c as u32;
    65 <= u && u <= 90
}

/// Splits a command of the shape `OPCODE(ARGS)` into its opcode and the
/// text between the parentheses.
pub(crate) fn shape(c: &Vec<char>) -> (r: Option<(Vec<char>, Vec<char>)>)
    ensures
        match shape_of(c@) {
            None => r is None,
            Some((o, i)) => match r {
                Some((ro, ri)) => ro@ == o && ri@ == i,
                None => false,
            },
        },
{
    let n = c.len();
    let mut a: usize = 0;
    while a < n && upper(c[a])
        invariant
            a <= n == c@.len(),
            upper_run_end(c@, 0) == upper_run_end(c@, a as int),
        decreases n - a,
    {
        a = a + 1;
    }
    let mut b: usize = a;
    while b < n && c[b] == ' '
        invariant
            a <= b <= n == c@.len(),
            blank_run_end(c@, a as int) == blank_run_end(c@, b as int),
        decreases n - b,
    {
        b = b + 1;
    }
    assert(upper_run_end(c@, a as int) == a);
    assert(blank_run_end(c@, b as int) == b);
    if a == 0 || n < 2 || b > n - 2 || c[b] != '(' || c[n - 1] != ')' {
        return None;
    }
    let mut i: usize = b + 1;
    while i < n - 1
        invariant
            b < i <= n - 1,
            n == c@.len(),
            0 < a,
            a == upper_run_end(c@, 0),
            b == blank_run_end(c@, a as int),
            c@[b as int] == '(',
            c@.last() == ')',
            forall|j: int| b < j < i ==> #[trigger] c@[j] != ')',
        decreases n - 1 - i,
    {
        if c[i] == ')' {
            assert(c@[i as int] == ')');
            return None;
        }
        i = i + 1;
    }
    Some((slice_chars(c, 0, a), slice_chars(c, b + 1, n - 1)))
}

fn opcode(op: &Vec<char>) -> (r: Option<Opcode>)
    ensures
        r == opcode_of(op@),
{
    let n = op.len();
    if n == 3 && op[0] == 'A' && op[1] == 'D' && op[2] == 'D' {
        assert(op@ =~= seq!['A', 'D', 'D']);
        Some(Opcode::Add)
    } else if n == 4 && op[0] == 'B' && op[1] == 'I' && op[2] == 'N' && op[3] == 'D' {
        assert(op@ =~= seq!['B', 'I', 'N', 'D']);
        Some(Opcode::Bind)
    } else if n == 3 && op[0] == 'P' && op[1] == 'U' && op[2] == 'T' {
        assert(op@ =~= seq!['P', 'U', 'T']);
        Some(Opcode::Put)
    } else {
        assert(op@ != seq!['A', 'D', 'D'] ==> op@.len() != 3 || op@[0] != 'A' || op@[1] != 'D'
            || op@[2] != 'D');
        assert(op@ != seq!['P', 'U', 'T'] ==> op@.len() != 3 || op@[0] != 'P' || op@[1] != 'U'
            || op@[2] != 'T');
        assert(op@ != seq!['B', 'I', 'N', 'D'] ==> op@.len() != 4 || op@[0] != 'B' || op@[1]
            != 'I' || op@[2] != 'N' || op@[3] != 'D');
        None
    }
}

impl Script {
    /// What deploying this script to a graph `g` comes to.
    pub open spec fn outcome(&self, g: Model) -> (Vars, Model, Result<nat, (nat, Fault)>) {
        run(commands(self.text()), self.vars(), g)
    }

    /// The commands of the script.
    fn commands(&self) -> (r: Vec<Vec<char>>)
        ensures
            views(r@) == commands(self.text()),
    {
        pieces_of(&uncommented(&self.txt), ';')
    }

    /// Deploys one command.
    fn deploy_one(&mut self, cmd: &Vec<char>, g: &mut Sodg) -> (r: Result<(), Fault>)
        requires
            old(g).wf(),
        ensures
            final(g).wf(),
            final(self).text() == old(self).text(),
            (final(self).vars(), final(g)@, r) == command(cmd@, old(self).vars(), old(g)@),
    {
        let (op, inner) = match shape(cmd) {
            None => return Err(Fault::Malformed),
            Some(p) => p,
        };
        let args = pieces_of(&inner, ',');
        let ghost a = pieces(inner@, ',');
        let o = match opcode(&op) {
            None => return Err(Fault::UnknownCommand),
            Some(o) => o,
        };
        let want: usize = match o {
            Opcode::Add => 1,
            Opcode::Bind => 3,
            Opcode::Put => 2,
        };
        if args.len() != want {
            return Err(Fault::Arity);
        }
        assert(args@[0]@ == a[0]);
        let x = self.parse(&args[0], 0, g)?;
        match o {
            Opcode::Add => match g.add(x) {
                Ok(()) => Ok(()),
                Err(e) => Err(Fault::Graph(e)),
            },
            Opcode::Put => {
                assert(args@[1]@ == a[1]);
                match parse_data(&args[1]) {
                    None => Err(Fault::BadData),
                    Some(d) => match g.put(x, d) {
                        Ok(()) => Ok(()),
                        Err(e) => Err(Fault::Graph(e)),
                    },
                }
            },
            Opcode::Bind => {
                assert(args@[1]@ == a[1]);
                assert(args@[2]@ == a[2]);
                let y = self.parse(&args[1], 1, g)?;
                let label = slice_chars(&args[2], 0, args[2].len());
                assert(label@ =~= a[2]);
                match g.bind_chars(x, y, label) {
                    Ok(()) => Ok(()),
                    Err(e) => Err(Fault::Graph(e)),
                }
            },
        }
    }

    /// Deploy the entire script to the graph: the commands run in order until
    /// one fails. Gives the number of commands, or the failed one.
    pub fn deploy_to(&mut self, g: &mut Sodg) -> (r: Result<usize, DeployError>)
        requires
            old(g).wf(),
        ensures
            final(g).wf(),
            final(self).text() == old(self).text(),
            final(self).vars() == old(self).outcome(old(g)@).0,
            final(g)@ == old(self).outcome(old(g)@).1,
            match old(self).outcome(old(g)@).2 {
                Ok(n) => r == Ok::<usize, DeployError>(n as usize),
                Err((k, f)) => r is Err && r->Err_0.position == k && r->Err_0.fault == f
                    && r->Err_0.command@ == commands(old(self).text())[k as int],
            },
            r is Ok ==> r->Ok_0 == commands(old(self).text()).len(),
    {
        let cmds = self.commands();
        let ghost cs = commands(self.text());
        let ghost vars0 = self.vars();
        let ghost g0 = g@;
        let ghost txt0 = self.text();
        assert(views(cmds@) == cs);
        assert(cs.take(0) =~= Seq::<Seq<char>>::empty());
        let mut pos: usize = 0;
        while pos < cmds.len()
            invariant
                pos <= cmds@.len() == cs.len(),
                views(cmds@) == cs,
                cs == commands(txt0),
                self.text() == txt0,
                txt0 == old(self).text(),
                vars0 == old(self).vars(),
                g0 == old(g)@,
                g.wf(),
                run(cs.take(pos as int), vars0, g0) == (self.vars(), g@, Ok::<nat, (nat, Fault)>(pos as nat)),
            decreases cmds@.len() - pos,
        {
            assert(cs.take(pos + 1).drop_last() =~= cs.take(pos as int));
            assert(cmds@[pos as int]@ == cs[pos as int]);
            match self.deploy_one(&cmds[pos], g) {
                Ok(()) => {},
                Err(f) => {
                    proof {
                        lemma_run_stops(cs, pos + 1, vars0, g0);
                    }
                    let command = slice_chars(&cmds[pos], 0, cmds[pos].len());
                    assert(command@ =~= cs[pos as int]);
                    return Err(DeployError { position: pos, command, fault: f });
                },
            }
            pos = pos + 1;
        }
        assert(cs.take(pos as int) =~= cs);
        Ok(pos)
    }
}

/// Once a run has stopped, the commands after the failed one change nothing.
proof fn lemma_run_stops(cs: Seq<Seq<char>>, j: int, vars: Vars, g: Model)
    requires
        0 <= j <= cs.len(),
        run(cs.take(j), vars, g).2 is Err,
    ensures
        run(cs, vars, g) == run(cs.take(j), vars, g),
    decreases cs.len() - j,
{
    if j < cs.len() {
        assert(cs.take(j + 1).drop_last() =~= cs.take(j));
        lemma_run_stops(cs, j + 1, vars, g);
    } else {
        assert(cs.take(j) =~= cs);
    }
}

proof fn lemma_lookup_prefix(vs: Vars, j: int, name: Seq<char>)
    requires
        0 < j <= vs.len(),
        lookup(vs.take(j), name) is Some,
    ensures
        lookup(vs, name) == lookup(vs.take(j), name),
    decreases vs.len() - j,
{
    if j < vs.len() {
        assert(vs.take(j + 1).drop_last() =~= vs.take(j));
        lemma_lookup_prefix(vs, j + 1, name);
    } else {
        assert(vs.take(j) =~= vs);
    }
}

} // verus!
