//! A recording backend for deterministic tests.
use vstd::prelude::*;

use super::{BackendError, BackendHandle, NotificationBackend, PresentationRequest, PresentationRequestView};

verus! {

/// Records every request it is handed, and every one it rendered; the
/// outcomes it was made with are used up one per request, in order.
#[derive(Debug, Default)]
pub struct NullBackend {
    calls: Vec<PresentationRequest>,
    rendered: Vec<PresentationRequest>,
    outcomes: Vec<Result<(), BackendError>>,
    closed: Vec<BackendHandle>,
}

pub open spec fn spec_requests(s: Seq<PresentationRequest>) -> Seq<PresentationRequestView> {
    s.map_values(|r: PresentationRequest| r@)
}

fn copy_requests(s: &Vec<PresentationRequest>) -> (r: Vec<PresentationRequest>)
    ensures
        spec_requests(r@) == spec_requests(s@),
{
    let mut out: Vec<PresentationRequest> = Vec::new();
    let mut i: usize = 0;
    while i < s.len()
        invariant
            i <= s@.len(),
            spec_requests(out@) == spec_requests(s@.subrange(0, i as int)),
        decreases s.len() - i,
    {
        let ghost before = out@;
        out.push(s[i].copy());
        assert(spec_requests(out@) =~= spec_requests(before).push(s@[i as int]@));
        assert(s@.subrange(0, i + 1) =~= s@.subrange(0, i as int).push(s@[i as int]));
        assert(spec_requests(s@.subrange(0, i + 1)) =~= spec_requests(s@.subrange(0, i as int)).push(s@[i as int]@));
        i += 1;
    }
    assert(s@.subrange(0, s@.len() as int) =~= s@);
    out
}

impl NullBackend {
    pub closed spec fn spec_calls(&self) -> Seq<PresentationRequestView> {
        spec_requests(self.calls@)
    }

    pub closed spec fn spec_rendered(&self) -> Seq<PresentationRequestView> {
        spec_requests(self.rendered@)
    }

    pub closed spec fn spec_outcomes(&self) -> Seq<Result<(), BackendError>> {
        self.outcomes@
    }

    pub closed spec fn spec_closed(&self) -> Seq<BackendHandle> {
        self.closed@
    }

    /// A backend that answers its next requests with these outcomes, then succeeds.
    pub fn with_outcomes(outcomes: Vec<Result<(), BackendError>>) -> (r: NullBackend)
        ensures
            r.spec_outcomes() == outcomes@,
            r.spec_calls().len() == 0,
            r.spec_rendered().len() == 0,
            r.spec_closed().len() == 0,
    {
        let r = NullBackend { calls: Vec::new(), rendered: Vec::new(), outcomes, closed: Vec::new() };
        assert(spec_requests(r.calls@) =~= Seq::<PresentationRequestView>::empty());
        assert(spec_requests(r.rendered@) =~= Seq::<PresentationRequestView>::empty());
        r
    }

    /// Every request handed to this backend, in order.
    pub fn calls(&self) -> (r: Vec<PresentationRequest>)
        ensures
            spec_requests(r@) == self.spec_calls(),
    {
        copy_requests(&self.calls)
    }

    /// Every request this backend rendered, in order.
    pub fn rendered(&self) -> (r: Vec<PresentationRequest>)
        ensures
            spec_requests(r@) == self.spec_rendered(),
    {
        copy_requests(&self.rendered)
    }

    /// Every handle closed, in order.
    pub fn closed(&self) -> (r: Vec<BackendHandle>)
        ensures
            r@ == self.spec_closed(),
    {
        self.closed.clone()
    }
}

impl NotificationBackend for NullBackend {
    fn name(&self) -> (r: &'static str)
        ensures
            r@ == "null"@,
    {
        "null"
    }

    /// Record the request; answer with the next outcome, and render the
    /// request only when that outcome is a success. A rendered request's
    /// handle counts the rendered requests, saturating at the largest `u32`.
    fn present(&mut self, request: PresentationRequest) -> (r: Result<BackendHandle, BackendError>)
        ensures
            final(self).spec_calls() == old(self).spec_calls().push(request@),
            final(self).spec_closed() == old(self).spec_closed(),
            final(self).spec_outcomes() == (if old(self).spec_outcomes().len() > 0 {
                old(self).spec_outcomes().drop_first()
            } else {
                old(self).spec_outcomes()
            }),
            (old(self).spec_outcomes().len() > 0 && old(self).spec_outcomes()[0] is Err) ==> (
                r == Err::<BackendHandle, BackendError>(old(self).spec_outcomes()[0]->Err_0)
                && final(self).spec_rendered() == old(self).spec_rendered()),
            !(old(self).spec_outcomes().len() > 0 && old(self).spec_outcomes()[0] is Err) ==> (
                final(self).spec_rendered() == old(self).spec_rendered().push(request@)
                && r == Ok::<BackendHandle, BackendError>(BackendHandle(
                    if final(self).spec_rendered().len() <= u32::MAX { final(self).spec_rendered().len() as u32 } else { u32::MAX },
                ))),
    {
        let ghost calls_before = self.calls@;
        self.calls.push(request.copy());
        assert(spec_requests(self.calls@) =~= spec_requests(calls_before).push(request@));
        if self.outcomes.len() > 0 {
            let outcome = self.outcomes.remove(0);
            assert(self.outcomes@ =~= old(self).outcomes@.drop_first());
            if let Err(e) = outcome {
                return Err(e);
            }
        }
        let ghost rendered_before = self.rendered@;
        self.rendered.push(request);
        assert(spec_requests(self.rendered@) =~= spec_requests(rendered_before).push(request@));
        let n = self.rendered.len();
        let handle: u32 = if n <= 4294967295 { n as u32 } else { 4294967295 };
        Ok(BackendHandle(handle))
    }

    /// Record the handle as closed.
    fn close(&mut self, handle: BackendHandle) -> (r: Result<(), BackendError>)
        ensures
            r is Ok,
            final(self).spec_closed() == old(self).spec_closed().push(handle),
            final(self).spec_calls() == old(self).spec_calls(),
            final(self).spec_rendered() == old(self).spec_rendered(),
            final(self).spec_outcomes() == old(self).spec_outcomes(),
    {
        self.closed.push(handle);
        Ok(())
    }
}

} // verus!
