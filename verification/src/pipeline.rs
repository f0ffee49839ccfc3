//! The pipeline executor: an ordered list of stages is run over one
//! (request, response, context) triple. Each stage owns the triple while it
//! runs and either hands a (possibly changed) triple onward or ends the
//! chain; after a termination no further stage runs.

use vstd::prelude::*;
use crate::http::{Request, Response};

verus! {

/// What one stage does with the triple it owns: hand a (possibly changed)
/// triple to the next stage, or end the chain with no further value.
pub enum Outcome<Ctx> {
    Continue(Request, Response, Ctx),
    Terminate,
}

/// One unit of the pipeline. A stage is described by `transition`, the
/// relation between the triple it received and the outcomes it may produce;
/// a stage that consults the outside world (a clock, a filesystem) may
/// relate one input to several outcomes. A stage that keeps the default
/// relation promises nothing about what it does.
pub trait Middleware<Ctx> {
    open spec fn transition(&self, req: Request, res: Response, ctx: Ctx, out: Outcome<Ctx>) -> bool {
        true
    }

    fn handle(&self, req: Request, res: Response, ctx: Ctx) -> (out: Outcome<Ctx>)
        ensures
            self.transition(req, res, ctx, out),
    ;
}

/// The executor's whole behaviour: `result` is a possible end of running
/// `stages` in order from the given triple. Each stage's step is one of its
/// transitions; the first termination ends the run with no value, and a run
/// that exhausts the stages ends with the final triple. An empty list
/// returns its input unchanged.
pub open spec fn runs<Ctx, M: Middleware<Ctx>>(
    stages: Seq<M>,
    req: Request,
    res: Response,
    ctx: Ctx,
    result: Option<(Request, Response, Ctx)>,
) -> bool
    decreases stages.len(),
{
    if stages.len() == 0 {
        result == Some((req, res, ctx))
    } else {
        exists|out: Outcome<Ctx>|
            #[trigger] stages[0].transition(req, res, ctx, out) && match out {
                Outcome::Continue(r, s, c) => runs(stages.skip(1), r, s, c, result),
                Outcome::Terminate => result is None,
            }
    }
}

/// Run the stages in order over one triple, stopping at the first stage
/// that terminates; strictly sequential, no stage retried.
pub fn process_middleware<Ctx, M: Middleware<Ctx>>(
    stages: &Vec<M>,
    req: Request,
    res: Response,
    ctx: Ctx,
) -> (result: Option<(Request, Response, Ctx)>)
    ensures
        runs(stages@, req, res, ctx, result),
{
    let ghost g_req = req;
    let ghost g_res = res;
    let ghost g_ctx = ctx;
    let mut cur_req = req;
    let mut cur_res = res;
    let mut cur_ctx = ctx;
    let n = stages.len();
    let mut i: usize = 0;
    proof {
        assert(stages@.skip(0) =~= stages@);
    }
    #[verifier::loop_isolation(false)]
    while i < n
        invariant
            i <= n,
            n == stages@.len(),
            forall|result: Option<(Request, Response, Ctx)>|
                #![trigger runs(stages@.skip(i as int), cur_req, cur_res, cur_ctx, result)]
                runs(stages@.skip(i as int), cur_req, cur_res, cur_ctx, result)
                    ==> runs(stages@, g_req, g_res, g_ctx, result),
        decreases n - i,
    {
        let ghost p_req = cur_req;
        let ghost p_res = cur_res;
        let ghost p_ctx = cur_ctx;
        let out = stages[i].handle(cur_req, cur_res, cur_ctx);
        match out {
            Outcome::Continue(r, s, c) => {
                proof {
                    let sfx = stages@.skip(i as int);
                    assert(sfx[0] == stages@[i as int]);
                    assert(sfx.skip(1) =~= stages@.skip(i as int + 1));
                    assert forall|result: Option<(Request, Response, Ctx)>|
                        runs(stages@.skip(i as int + 1), r, s, c, result)
                            implies runs(stages@, g_req, g_res, g_ctx, result) by {
                        assert(sfx[0].transition(p_req, p_res, p_ctx, Outcome::Continue(r, s, c)));
                        assert(runs(sfx.skip(1), r, s, c, result));
                        assert(runs(sfx, p_req, p_res, p_ctx, result));
                    }
                }
                cur_req = r;
                cur_res = s;
                cur_ctx = c;
                i += 1;
            },
            Outcome::Terminate => {
                proof {
                    let sfx = stages@.skip(i as int);
                    assert(sfx[0] == stages@[i as int]);
                    assert(sfx[0].transition(p_req, p_res, p_ctx, Outcome::<Ctx>::Terminate));
                    assert(runs(sfx, p_req, p_res, p_ctx, None::<(Request, Response, Ctx)>));
                    assert(runs(stages@, g_req, g_res, g_ctx, None::<(Request, Response, Ctx)>));
                }
                return None;
            },
        }
    }
    proof {
        assert(stages@.skip(n as int) =~= Seq::<M>::empty());
        assert(runs(
            stages@.skip(n as int),
            cur_req,
            cur_res,
            cur_ctx,
            Some((cur_req, cur_res, cur_ctx)),
        ));
        assert(runs(stages@, g_req, g_res, g_ctx, Some((cur_req, cur_res, cur_ctx))));
    }
    Some((cur_req, cur_res, cur_ctx))
}

/// Short-circuit law: if some stage of the chain terminates on every triple
/// it could receive, no run of the chain ends with a final triple — the
/// stages after it are never reached and the overall result is empty.
pub proof fn lemma_pipeline_short_circuit<Ctx, M: Middleware<Ctx>>(
    stages: Seq<M>,
    k: int,
    req: Request,
    res: Response,
    ctx: Ctx,
    result: Option<(Request, Response, Ctx)>,
)
    requires
        0 <= k < stages.len(),
        forall|rq: Request, rs: Response, c: Ctx, out: Outcome<Ctx>|
            #[trigger] stages[k].transition(rq, rs, c, out) ==> out is Terminate,
        runs(stages, req, res, ctx, result),
    ensures
        result is None,
    decreases k,
{
    let out = choose|out: Outcome<Ctx>|
        #[trigger] stages[0].transition(req, res, ctx, out) && match out {
            Outcome::Continue(r, s, c) => runs(stages.skip(1), r, s, c, result),
            Outcome::Terminate => result is None,
        };
    if k == 0 {
        assert(out is Terminate);
    } else {
        match out {
            Outcome::Continue(r, s, c) => {
                assert(stages.skip(1)[k - 1] == stages[k]);
                lemma_pipeline_short_circuit(stages.skip(1), k - 1, r, s, c, result);
            },
            Outcome::Terminate => {},
        }
    }
}

/// Full-traversal law: over a two-stage chain whose stages always continue,
/// mapping the context through `f0` and `f1` respectively, every run ends
/// with a final triple whose context is the input context with both stages'
/// changes applied in chain order.
pub proof fn lemma_pipeline_full_traversal<Ctx, M: Middleware<Ctx>>(
    stages: Seq<M>,
    f0: spec_fn(Ctx) -> Ctx,
    f1: spec_fn(Ctx) -> Ctx,
    req: Request,
    res: Response,
    ctx: Ctx,
    result: Option<(Request, Response, Ctx)>,
)
    requires
        stages.len() == 2,
        forall|rq: Request, rs: Response, c: Ctx, out: Outcome<Ctx>|
            #[trigger] stages[0].transition(rq, rs, c, out)
                ==> (out matches Outcome::Continue(r2, s2, c2) && c2 == f0(c)),
        forall|rq: Request, rs: Response, c: Ctx, out: Outcome<Ctx>|
            #[trigger] stages[1].transition(rq, rs, c, out)
                ==> (out matches Outcome::Continue(r2, s2, c2) && c2 == f1(c)),
        runs(stages, req, res, ctx, result),
    ensures
        result matches Some(t) && t.2 == f1(f0(ctx)),
{
    let out0 = choose|out: Outcome<Ctx>|
        #[trigger] stages[0].transition(req, res, ctx, out) && match out {
            Outcome::Continue(r, s, c) => runs(stages.skip(1), r, s, c, result),
            Outcome::Terminate => result is None,
        };
    match out0 {
        Outcome::Continue(r1, s1, c1) => {
            assert(c1 == f0(ctx));
            let tail = stages.skip(1);
            assert(tail[0] == stages[1]);
            let out1 = choose|out: Outcome<Ctx>|
                #[trigger] tail[0].transition(r1, s1, c1, out) && match out {
                    Outcome::Continue(r, s, c) => runs(tail.skip(1), r, s, c, result),
                    Outcome::Terminate => result is None,
                };
            match out1 {
                Outcome::Continue(r2, s2, c2) => {
                    assert(c2 == f1(c1));
                    assert(tail.skip(1).len() == 0);
                    assert(result == Some((r2, s2, c2)));
                },
                Outcome::Terminate => {
                    assert(false);
                },
            }
        },
        Outcome::Terminate => {
            assert(false);
        },
    }
}

} // verus!
