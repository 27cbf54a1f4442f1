//! The order in which middleware is called.

use vstd::prelude::*;

verus! {

/// What a chain of middleware calls next.
#[derive(Debug, Clone, Copy, PartialEq, Eq, Structural)]
pub enum ChainStep {
    /// The middleware at this position.
    Middleware(usize),
    /// What the chain is wrapped around.
    Terminal,
}

/// What a chain calls after `called` of its `len` middlewares were called: the
/// next one in the order in which they were added, and the terminal after the last.
pub fn chain_step(called: usize, len: usize) -> (step: ChainStep)
    ensures
        step == if called < len {
            ChainStep::Middleware(called)
        } else {
            ChainStep::Terminal
        },
{
    if called < len {
        ChainStep::Middleware(called)
    } else {
        ChainStep::Terminal
    }
}

/// The order in which layers are called that were wrapped around a client one
/// after the other: the last one wrapped is the outermost.
pub open spec fn call_order(wraps: Seq<usize>) -> Seq<usize> {
    wraps.reverse()
}

/// The order in which `len` middlewares are wrapped around a client so that the
/// first one added becomes the outermost layer.
pub fn wrap_order(len: usize) -> (order: Vec<usize>)
    ensures
        order@.len() == len,
        call_order(order@) == Seq::new(len as nat, |i: int| i as usize),
{
    let mut order: Vec<usize> = Vec::new();
    let mut i: usize = len;
    while i > 0
        invariant
            i <= len,
            order@ == Seq::new((len - i) as nat, |k: int| (len - 1 - k) as usize),
        decreases i,
    {
        i -= 1;
        order.push(i);
        assert(order@ =~= Seq::new((len - i) as nat, |k: int| (len - 1 - k) as usize));
    }
    assert(call_order(order@) =~= Seq::new(len as nat, |i: int| i as usize));
    order
}

/// Layers are called from the outside in: the last one wrapped first, the first one last.
pub proof fn law_outermost_is_called_first(wraps: Seq<usize>)
    ensures
        call_order(wraps).len() == wraps.len(),
        forall|i: int| 0 <= i < wraps.len() ==> #[trigger] call_order(wraps)[i] == wraps[wraps.len() - 1 - i],
{
}

} // verus!
