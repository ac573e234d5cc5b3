//! Lua glue for native functions: each exported function gets a Lua wrapper
//! in the module table `M` that forwards its arguments to the native one.

use vstd::prelude::*;

verus! {

broadcast use vstd::seq::group_seq_axioms;

/// A native function to expose to Lua: its name and its parameters' names.
#[derive(Debug, Clone, PartialEq, Eq)]
pub struct LuaDef {
    pub name: String,
    pub args: Vec<String>,
}

/// The names, separated by a comma and a space.
pub open spec fn join_args(args: Seq<Seq<char>>) -> Seq<char>
    decreases args.len(),
{
    if args.len() == 0 {
        Seq::empty()
    } else if args.len() == 1 {
        args[0]
    } else {
        join_args(args.drop_last()) + ", "@ + args.last()
    }
}

/// The Lua definition of `M.name` that calls the native `name` with the same
/// arguments, followed by a blank line.
pub open spec fn lua_wrapper_code(name: Seq<char>, args: Seq<Seq<char>>) -> Seq<char> {
    "function M."@ + name + "("@ + join_args(args) + ")\n\treturn "@ + name + "("@ + join_args(
        args,
    ) + ")\nend\n\n"@
}

impl LuaDef {
    pub open spec fn arg_names(&self) -> Seq<Seq<char>> {
        self.args@.map_values(|a: String| a@)
    }

    /// The Lua wrapper of this function.
    pub fn to_lua_code(&self) -> (r: String)
        ensures
            r@ == lua_wrapper_code(self.name@, self.arg_names()),
    {
        let ghost names = self.arg_names();
        let mut joined = String::new();
        let mut i: usize = 0;
        while i < self.args.len()
            invariant
                i <= self.args@.len(),
                names == self.arg_names(),
                joined@ == join_args(names.take(i as int)),
            decreases self.args@.len() - i,
        {
            if i > 0 {
                joined = joined.concat(", ");
            }
            joined = joined.concat(self.args[i].as_str());
            proof {
                assert(names.take(i + 1).drop_last() =~= names.take(i as int));
                if i == 0 {
                    assert(joined@ =~= names.take(1)[0]);
                }
            }
            i = i + 1;
        }
        proof {
            assert(names.take(self.args@.len() as int) =~= names);
        }
        String::from_str("function M.").concat(self.name.as_str()).concat("(").concat(
            joined.as_str(),
        ).concat(")\n\treturn ").concat(self.name.as_str()).concat("(").concat(
            joined.as_str(),
        ).concat(")\nend\n\n")
    }
}

/// The Lua wrappers of the given functions, in order.
pub fn lua_functions(defs: &Vec<LuaDef>) -> (r: Vec<String>)
    ensures
        r@.len() == defs@.len(),
        forall|k: int|
            0 <= k < defs@.len() ==> #[trigger] r@[k]@ == lua_wrapper_code(
                defs@[k].name@,
                defs@[k].arg_names(),
            ),
{
    let mut out: Vec<String> = Vec::new();
    let mut i: usize = 0;
    while i < defs.len()
        invariant
            i <= defs@.len(),
            out@.len() == i,
            forall|k: int|
                0 <= k < i ==> #[trigger] out@[k]@ == lua_wrapper_code(
                    defs@[k].name@,
                    defs@[k].arg_names(),
                ),
        decreases defs@.len() - i,
    {
        out.push(defs[i].to_lua_code());
        i = i + 1;
    }
    out
}

} // verus!
