//! Human-readable text for the failures of a deployment.
use vstd::prelude::*;
use crate::graph::GraphError;
use crate::script::{shape, shape_of, upper, upper_run_end, DeployError, Fault};
use crate::text::{chars_of, pieces, pieces_of, slice_chars, views};

verus! {

pub open spec fn digit_char(d: nat) -> char {
    ((d + 48) as u8) as char
}

/// The decimal digits of `n`, without leading zeros.
pub open spec fn decimal(n: nat) -> Seq<char>
    decreases n,
{
    if n < 10 {
        seq![digit_char(n)]
    } else {
        decimal(n / 10).push(digit_char(n % 10))
    }
}

/// The capital letters that open command `c`.
pub open spec fn opcode_text(c: Seq<char>) -> Seq<char> {
    c.subrange(0, upper_run_end(c, 0))
}

/// The arguments of command `c`, none if it is not of the command shape.
pub open spec fn args_of(c: Seq<char>) -> Seq<Seq<char>> {
    match shape_of(c) {
        Some((_, inner)) => pieces(inner, ','),
        None => seq![],
    }
}

/// Argument `k` of command `c`, empty if there is none.
pub open spec fn arg_text(c: Seq<char>, k: int) -> Seq<char> {
    if 0 <= k < args_of(c).len() {
        args_of(c)[k]
    } else {
        seq![]
    }
}

/// The arguments that a refused change is reported with: all three for a
/// `BIND`, the first one otherwise.
pub open spec fn call_text(c: Seq<char>) -> Seq<char> {
    if opcode_text(c) == seq!['B', 'I', 'N', 'D'] {
        arg_text(c, 0) + ", "@ + arg_text(c, 1) + ", "@ + arg_text(c, 2)
    } else {
        arg_text(c, 0)
    }
}

pub open spec fn graph_text(e: GraphError) -> Seq<char> {
    match e {
        GraphError::VertexExists(v) => "Vertex \u{3bd}"@ + decimal(v as nat) + " already exists"@,
        GraphError::VertexAbsent(v) => "Can't find \u{3bd}"@ + decimal(v as nat),
        GraphError::LabelTaken(v) => "The label is taken at \u{3bd}"@ + decimal(v as nat),
    }
}

pub open spec fn fault_text(c: Seq<char>, f: Fault) -> Seq<char> {
    match f {
        Fault::Malformed => "Can't parse '"@ + c + "'"@,
        Fault::UnknownCommand => "Unknown command: "@ + opcode_text(c),
        Fault::Arity => "Wrong number of arguments for "@ + opcode_text(c),
        Fault::EmptyIdentifier => "Empty identifier"@,
        Fault::BadNumber(k) => "Parsing of '"@ + arg_text(c, k as int) + "' failed"@,
        Fault::NoFreshId => "No fresh vertex identifier is left"@,
        Fault::BadData => "Can't parse data '"@ + arg_text(c, 1) + "'"@,
        Fault::Graph(e) => "Failed to "@ + opcode_text(c) + "("@ + call_text(c) + "): "@ + graph_text(e),
    }
}

/// The whole report: where the deployment stopped, on which command, and why.
pub open spec fn message_text(k: nat, c: Seq<char>, f: Fault) -> Seq<char> {
    "Failure at the command no."@ + decimal(k) + ": '"@ + c + "': "@ + fault_text(c, f)
}

/// Relies on `String`'s `FromIterator<&char>`: the string holds the
/// characters in their order.
#[verifier::external_body]
fn string_of(v: &Vec<char>) -> (r: String)
    ensures
        r@ == v@,
{
    v.iter().collect()
}

fn push_all(out: &mut Vec<char>, s: &Vec<char>)
    ensures
        final(out)@ == old(out)@ + s@,
{
    let ghost start = out@;
    let mut i: usize = 0;
    while i < s.len()
        invariant
            i <= s@.len(),
            out@ == start + s@.take(i as int),
        decreases s@.len() - i,
    {
        assert(start + s@.take(i + 1) =~= (start + s@.take(i as int)).push(s@[i as int]));
        out.push(s[i]);
        i = i + 1;
    }
    assert(s@.take(s@.len() as int) =~= s@);
}

fn push_str(out: &mut Vec<char>, s: &str)
    ensures
        final(out)@ == old(out)@ + s@,
{
    push_all(out, &chars_of(s));
}

fn push_decimal(out: &mut Vec<char>, n: u64)
    ensures
        final(out)@ == old(out)@ + decimal(n as nat),
    decreases n,
{
    let ghost start = out@;
    if n >= 10 {
        push_decimal(out, n / 10);
    }
    let d = (n % 10) as u8;
    out.push((d + 48) as char);
    proof {
        if n >= 10 {
            assert(start + decimal(n as nat) =~= (start + decimal((n / 10) as nat)).push(
                digit_char((n % 10) as nat),
            ));
        } else {
            assert(start + decimal(n as nat) =~= start.push(digit_char(n as nat)));
        }
    }
}

fn opcode_part(c: &Vec<char>) -> (r: Vec<char>)
    ensures
        r@ == opcode_text(c@),
{
    let n = c.len();
    let mut a: usize = 0;
    while a < n && upper(c[a])
        invariant
            a <= n == c@.len(),
            upper_run_end(c@, 0) == upper_run_end(c@, a as int),
        decreases n - a,
    {
        a = a + 1;
    }
    slice_chars(c, 0, a)
}

fn args_part(c: &Vec<char>) -> (r: Vec<Vec<char>>)
    ensures
        views(r@) == args_of(c@),
{
    match shape(c) {
        Some((_, inner)) => pieces_of(&inner, ','),
        None => {
            let r: Vec<Vec<char>> = Vec::new();
            assert(views(r@) =~= seq![]);
            r
        },
    }
}

fn push_arg(out: &mut Vec<char>, args: &Vec<Vec<char>>, k: usize, Ghost(c): Ghost<Seq<char>>)
    requires
        views(args@) == args_of(c),
    ensures
        final(out)@ == old(out)@ + arg_text(c, k as int),
{
    if k < args.len() {
        assert(args@[k as int]@ == args_of(c)[k as int]);
        push_all(out, &args[k]);
    } else {
        assert(old(out)@ + arg_text(c, k as int) =~= old(out)@);
    }
}

fn graph_part(out: &mut Vec<char>, e: GraphError)
    ensures
        final(out)@ == old(out)@ + graph_text(e),
{
    let ghost start = out@;
    match e {
        GraphError::VertexExists(v) => {
            push_str(out, "Vertex \u{3bd}");
            push_decimal(out, v as u64);
            push_str(out, " already exists");
        },
        GraphError::VertexAbsent(v) => {
            push_str(out, "Can't find \u{3bd}");
            push_decimal(out, v as u64);
        },
        GraphError::LabelTaken(v) => {
            push_str(out, "The label is taken at \u{3bd}");
            push_decimal(out, v as u64);
        },
    }
    assert(out@ =~= start + graph_text(e));
}

fn fault_part(c: &Vec<char>, f: Fault) -> (r: Vec<char>)
    ensures
        r@ == fault_text(c@, f),
{
    let mut out: Vec<char> = Vec::new();
    let args = args_part(c);
    match f {
        Fault::Malformed => {
            push_str(&mut out, "Can't parse '");
            push_all(&mut out, c);
            push_str(&mut out, "'");
        },
        Fault::UnknownCommand => {
            push_str(&mut out, "Unknown command: ");
            push_all(&mut out, &opcode_part(c));
        },
        Fault::Arity => {
            push_str(&mut out, "Wrong number of arguments for ");
            push_all(&mut out, &opcode_part(c));
        },
        Fault::EmptyIdentifier => {
            push_str(&mut out, "Empty identifier");
        },
        Fault::BadNumber(k) => {
            push_str(&mut out, "Parsing of '");
            push_arg(&mut out, &args, k, Ghost(c@));
            push_str(&mut out, "' failed");
        },
        Fault::NoFreshId => {
            push_str(&mut out, "No fresh vertex identifier is left");
        },
        Fault::BadData => {
            push_str(&mut out, "Can't parse data '");
            push_arg(&mut out, &args, 1, Ghost(c@));
            push_str(&mut out, "'");
        },
        Fault::Graph(e) => {
            let op = opcode_part(c);
            push_str(&mut out, "Failed to ");
            push_all(&mut out, &op);
            push_str(&mut out, "(");
            let ghost before = out@;
            let bind = op.len() == 4 && op[0] == 'B' && op[1] == 'I' && op[2] == 'N' && op[3] == 'D';
            assert(bind == (op@ == seq!['B', 'I', 'N', 'D'])) by {
                if op@ == seq!['B', 'I', 'N', 'D'] {
                    assert(op@[0] == 'B' && op@[1] == 'I' && op@[2] == 'N' && op@[3] == 'D');
                }
                if bind {
                    assert(op@ =~= seq!['B', 'I', 'N', 'D']);
                }
            }
            push_arg(&mut out, &args, 0, Ghost(c@));
            if bind {
                push_str(&mut out, ", ");
                push_arg(&mut out, &args, 1, Ghost(c@));
                push_str(&mut out, ", ");
                push_arg(&mut out, &args, 2, Ghost(c@));
            }
            assert(out@ =~= before + call_text(c@));
            push_str(&mut out, "): ");
            graph_part(&mut out, e);
        },
    }
    assert(out@ =~= fault_text(c@, f));
    out
}

impl DeployError {
    /// The report of this failure, as text.
    pub fn message(&self) -> (r: String)
        ensures
            r@ == message_text(self.position as nat, self.command@, self.fault),
    {
        let mut out: Vec<char> = Vec::new();
        push_str(&mut out, "Failure at the command no.");
        push_decimal(&mut out, self.position as u64);
        push_str(&mut out, ": '");
        push_all(&mut out, &self.command);
        push_str(&mut out, "': ");
        push_all(&mut out, &fault_part(&self.command, self.fault));
        assert(out@ =~= message_text(self.position as nat, self.command@, self.fault));
        string_of(&out)
    }
}

} // verus!
