pub mod ts_op;

pub use ts_op::{TsOp, TsOpModel};

use vstd::prelude::*;

verus! {

/// The node costs that size computations charge.
#[derive(Clone, Copy, Debug, PartialEq, Eq)]
pub struct Weights {
    /// Cost of a symbol or variable leaf.
    pub sym_var_cost: u32,
    /// Cost of an application node.
    pub app_cost: u32,
    /// Cost of a binder node.
    pub lam_cost: u32,
}

}
