//! The decision steps of the client invocation pipeline. The
//! surrounding runtime performs the awaits (registry lookup, load
//! balance, socket send) and hands their outcomes to these functions:
//! endpoint selection over the current snapshot, trace-header
//! injection, and the write-once completion of the context.

use vstd::prelude::*;

use crate::context::FusenContext;
use crate::error::{err_view, ErrView, FusenError};
use crate::register::{Resource, ResourceInfo};

verus! {

/// The terminal link of the filter chain: it hands the context to the
/// built-in pipeline unchanged.
pub struct DefaultAspect {}

/// Selects one endpoint from the snapshot: the balancer's pick, taken
/// modulo the number of live resources. An empty snapshot fails with
/// `Info("no provider")`.
pub fn select_resource<'a>(info: &'a ResourceInfo, pick: usize) -> (r: Result<
    &'a Resource,
    FusenError,
>)
    ensures
        info.resources@.len() == 0 ==> (r matches Err(e) && err_view(e) == ErrView::Info(
            "no provider"@,
        )),
        info.resources@.len() > 0 ==> (r matches Ok(res) && *res == info.resources@[(
        pick as int % info.resources@.len() as int)]),
{
    let n = info.resources.len();
    if n == 0 {
        Err(FusenError::Info("no provider".to_owned()))
    } else {
        Ok(&info.resources[pick % n])
    }
}

/// Appends the trace propagation headers the tracer produced for this
/// invocation; everything else in the context stands as it was.
pub fn inject_trace_headers(ctx: &mut FusenContext, headers: Vec<(String, String)>)
    ensures
        final(ctx).request.headers.entries@ == old(ctx).request.headers.entries@ + headers@,
        final(ctx).request.args == old(ctx).request.args,
        final(ctx).context_info == old(ctx).context_info,
        final(ctx).meta_data == old(ctx).meta_data,
        final(ctx).response == old(ctx).response,
{
    let mut rest = headers;
    let ghost all = rest@;
    let ghost mut done: int = 0;
    proof {
        assert(all.skip(0) =~= all);
        assert(all.take(0) =~= Seq::<(String, String)>::empty());
        assert(ctx.request.headers.entries@ =~= ctx.request.headers.entries@ + all.take(0));
    }
    while rest.len() > 0
        invariant
            0 <= done <= all.len(),
            rest@ == all.skip(done),
            ctx.request.headers.entries@ == old(ctx).request.headers.entries@ + all.take(done),
            ctx.request.args == old(ctx).request.args,
            ctx.context_info == old(ctx).context_info,
            ctx.meta_data == old(ctx).meta_data,
            ctx.response == old(ctx).response,
        decreases rest@.len(),
    {
        let pair = rest.remove(0);
        ctx.request.headers.entries.push(pair);
        proof {
            assert(all.skip(done)[0] == all[done]);
            assert(all.skip(done).remove(0) =~= all.skip(done + 1));
            assert(all.take(done).push(all[done]) =~= all.take(done + 1));
            done = done + 1;
        }
    }
    proof {
        assert(all.take(done) =~= all);
        assert(ctx.request.headers.entries@ =~= old(ctx).request.headers.entries@ + all);
    }
}

} // verus!
