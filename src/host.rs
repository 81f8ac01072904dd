use crate::node::{Builtin, Node};
use vstd::prelude::*;

verus! {

/// Native operations supplied by the program that embeds the interpreter,
/// each known by a number; a name is bound to one with
/// `Environment::add_native`. Nothing is assumed of what they return.
pub trait NativeHost {
    /// Runs the operation numbered `id` on already evaluated arguments.
    fn call(&mut self, id: u32, arguments: &[Node]) -> Result<Node, String>;

    /// Runs the arithmetic operation `op` (`+`, `-`, `*`, `/`, `abs` or `pow`)
    /// on arguments of which at least one is a float.
    fn arithmetic(&mut self, op: Builtin, arguments: &[Node]) -> Result<Node, String>;
}

/// A host with no operations of its own.
pub struct NoHost;

impl NativeHost for NoHost {
    fn call(&mut self, id: u32, arguments: &[Node]) -> Result<Node, String> {
        Err(String::from_str("No such native operation"))
    }

    fn arithmetic(&mut self, op: Builtin, arguments: &[Node]) -> Result<Node, String> {
        Err(String::from_str("Floating-point arithmetic is not available"))
    }
}

} // verus!
