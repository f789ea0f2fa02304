//! The command that the launcher hands over to the editor executable.

use vstd::prelude::*;

verus! {

/// What the launcher was asked to run: the executable and the arguments to forward.
pub struct Args {
    pub program: String,
    pub args: Vec<String>,
}

/// The text of each argument, in order.
pub open spec fn texts(v: Seq<String>) -> Seq<Seq<char>> {
    v.map_values(|s: String| s@)
}

/// The executable's name, and the full argument vector for it: that name first,
/// then every forwarded argument in its original order.
pub fn build_command_args(args: Args) -> (r: (String, Vec<String>))
    ensures
        r.0@ == args.program@,
        r.1@ == seq![args.program].add(args.args@),
        texts(r.1@) == seq![args.program@].add(texts(args.args@)),
{
    let Args { program, args: rest } = args;
    let mut command_args: Vec<String> = Vec::new();
    command_args.push(program.clone());
    let mut rest = rest;
    command_args.append(&mut rest);
    proof {
        assert(texts(command_args@) =~= seq![program@].add(texts(args.args@)));
    }
    (program, command_args)
}

} // verus!
