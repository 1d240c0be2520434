//! How an HTTP mock answers a request: the first behavior that accepts the
//! request's interaction answers it, else the first stub that accepts the
//! request, else a 404; the interaction is recorded either way, with the
//! behavior that answered it.

use vstd::prelude::*;
use crate::behavior::{MockBehavior, Response};
use crate::http::{body_view, not_found_response, HttpRequest, HttpResponse};
use crate::http_stub::{HttpStub, RequestMatch};
use crate::json::{quoted_json, JsonView};
use crate::mock_recorder::{MockRecorder, RecordedView};
use crate::recorder::{eq_ignore_ascii_case, Interaction, InteractionMatcher, InteractionView, RequestView};

verus! {

/// The interaction that records a request under `id`: its path, method and
/// headers, every header by its text.
pub open spec fn request_interaction(id: Seq<char>, request: HttpRequest) -> InteractionView {
    InteractionView {
        id,
        request: RequestView {
            path: Some(request.path@),
            method: Some(request.method@),
            headers: Some((request.headers@, Seq::<Seq<char>>::empty())),
        },
    }
}

/// The behavior's matcher can answer `b` for the interaction.
pub open spec fn behavior_answers<M: Fn(&Interaction) -> bool, R: Fn(&Interaction) -> Response>(
    behavior: MockBehavior<M, R>,
    i: Interaction,
    b: bool,
) -> bool {
    call_ensures(behavior.matcher_fn(), (&i,), b)
}

/// The stub can answer `b` for the request: its own function can, or the
/// request's path (and method, regardless of ASCII case) are the stub's.
pub open spec fn stub_answers<S: Fn(&HttpRequest) -> bool, G: Fn(&HttpRequest) -> HttpResponse>(
    stub: HttpStub<S, G>,
    request: HttpRequest,
    b: bool,
) -> bool {
    match stub.request_matcher {
        RequestMatch::Custom(m) => call_ensures(m, (&request,), b),
        RequestMatch::Path(p) => b == (request.path@ == p@),
        RequestMatch::PathAndMethod(p, m) => b == (request.path@ == p@ && eq_ignore_ascii_case(request.method@, m@)),
    }
}

/// The HTTP response of the same status, headers and data as a mock
/// response.
pub open spec fn same_response(r: HttpResponse, resp: Response) -> bool {
    r.status == resp.status && r.headers@ == resp.headers@ && body_view(r.body) == body_view(resp.data)
}

/// The 404 a mock gives when nothing accepts a request.
pub open spec fn unmatched_response(r: HttpResponse) -> bool {
    &&& r.status == 404
    &&& r.headers@ == Map::<Seq<char>, Seq<char>>::empty()
    &&& body_view(r.body) == Some(
        JsonView::Object(
            Map::<Seq<char>, Seq<char>>::empty().insert("error"@, quoted_json("Not found"@)).insert(
                "message"@,
                quoted_json("No matching behavior or stub found"@),
            ),
        ),
    )
}

/// `after` is `before` with the behavior at `k` having answered once more.
pub open spec fn answered_once_more<M, R>(
    before: Seq<MockBehavior<M, R>>,
    after: Seq<MockBehavior<M, R>>,
    k: int,
) -> bool where M: Fn(&Interaction) -> bool, R: Fn(&Interaction) -> Response {
    &&& after.len() == before.len()
    &&& forall|j: int| 0 <= j < before.len() && j != k ==> after[j] == before[j]
    &&& after[k].invocations() == before[k].invocations() + 1
    &&& after[k].name_text() == before[k].name_text()
    &&& after[k].description_text() == before[k].description_text()
    &&& after[k].matcher_fn() == before[k].matcher_fn()
    &&& after[k].responder_fn() == before[k].responder_fn()
}

/// How a mock answered `request`, given as the interaction `i`: the
/// behaviors before and after, the recorded interactions before and after,
/// and the response.
pub open spec fn handled<M, R, S, G>(
    behaviors: Seq<MockBehavior<M, R>>,
    behaviors_after: Seq<MockBehavior<M, R>>,
    stubs: Seq<HttpStub<S, G>>,
    recorded: Seq<RecordedView>,
    recorded_after: Seq<RecordedView>,
    request: HttpRequest,
    i: Interaction,
    r: HttpResponse,
) -> bool where
    M: Fn(&Interaction) -> bool,
    R: Fn(&Interaction) -> Response,
    S: Fn(&HttpRequest) -> bool,
    G: Fn(&HttpRequest) -> HttpResponse,
 {
    ||| exists|k: int|
        #![trigger behaviors[k]]
        {
            &&& 0 <= k < behaviors.len()
            &&& forall|j: int| 0 <= j < k ==> behavior_answers(#[trigger] behaviors[j], i, false)
            &&& behavior_answers(behaviors[k], i, true)
            &&& exists|resp: Response| call_ensures(behaviors[k].responder_fn(), (&i,), resp) && same_response(r, resp)
            &&& answered_once_more(behaviors, behaviors_after, k)
            &&& recorded_after == recorded.push(
                RecordedView { interaction: i@, behavior: Some(behaviors[k].name_text()), verified: false },
            )
        }
    ||| {
        &&& forall|j: int| 0 <= j < behaviors.len() ==> behavior_answers(#[trigger] behaviors[j], i, false)
        &&& behaviors_after == behaviors
        &&& recorded_after == recorded.push(RecordedView { interaction: i@, behavior: None, verified: false })
        &&& {
            ||| exists|k: int|
                #![trigger stubs[k]]
                {
                    &&& 0 <= k < stubs.len()
                    &&& forall|j: int| 0 <= j < k ==> stub_answers(#[trigger] stubs[j], request, false)
                    &&& stub_answers(stubs[k], request, true)
                    &&& call_ensures(stubs[k].response_generator, (&request,), r)
                }
            ||| {
                &&& forall|j: int| 0 <= j < stubs.len() ==> stub_answers(#[trigger] stubs[j], request, false)
                &&& unmatched_response(r)
            }
        }
    }
}

/// Answers a request as an HTTP mock does, recording it as the interaction
/// `interaction_id`: the first behavior whose matcher accepts the
/// interaction answers (counting the answer), else the first stub that
/// accepts the request, else a 404 saying no behavior or stub matched.
pub fn handle_request<M, R, S, G, E>(
    behaviors: &mut Vec<MockBehavior<M, R>>,
    stubs: &Vec<HttpStub<S, G>>,
    recorder: &mut MockRecorder<E>,
    request: &HttpRequest,
    interaction_id: String,
) -> (r: HttpResponse) where
    M: Fn(&Interaction) -> bool,
    R: Fn(&Interaction) -> Response,
    S: Fn(&HttpRequest) -> bool,
    G: Fn(&HttpRequest) -> HttpResponse,
    E: InteractionMatcher,

    requires
        forall|j: int, i: &Interaction|
            0 <= j < old(behaviors).len() ==> #[trigger] call_requires(old(behaviors)@[j].matcher_fn(), (i,)),
        forall|j: int, i: &Interaction|
            0 <= j < old(behaviors).len() ==> #[trigger] call_requires(old(behaviors)@[j].responder_fn(), (i,)),
        forall|j: int| 0 <= j < old(behaviors).len() ==> #[trigger] old(behaviors)@[j].invocations() < usize::MAX,
        forall|j: int|
            0 <= j < stubs.len() ==> (#[trigger] stubs@[j].request_matcher matches RequestMatch::Custom(m) ==> call_requires(
                m,
                (request,),
            )),
        forall|j: int| 0 <= j < stubs.len() ==> call_requires(#[trigger] stubs@[j].response_generator, (request,)),
    ensures
        final(recorder).expectations() == old(recorder).expectations(),
        exists|i: Interaction|
            i@ == request_interaction(interaction_id@, *request) && handled(
                old(behaviors)@,
                final(behaviors)@,
                stubs@,
                old(recorder).recorded(),
                final(recorder).recorded(),
                *request,
                i,
                r,
            ),
{
    let interaction = request.to_interaction(interaction_id);
    proof {
        let h = interaction.request.headers->0;
        assert(crate::text::views(h.other@) =~= Seq::<Seq<char>>::empty());
        assert(interaction@ == request_interaction(interaction.id@, *request));
    }
    let ghost bs = behaviors@;
    let ghost rec = recorder.recorded();
    let mut k: usize = 0;
    while k < behaviors.len()
        invariant
            k <= behaviors.len(),
            behaviors@ == bs,
            forall|j: int, i: &Interaction| 0 <= j < bs.len() ==> #[trigger] call_requires(bs[j].matcher_fn(), (i,)),
            forall|j: int| 0 <= j < k ==> behavior_answers(#[trigger] bs[j], interaction, false),
        ensures
            k <= behaviors.len(),
            behaviors@ == bs,
            forall|j: int| 0 <= j < k ==> behavior_answers(#[trigger] bs[j], interaction, false),
            k < behaviors.len() ==> behavior_answers(bs[k as int], interaction, true),
        decreases behaviors.len() - k,
    {
        if behaviors[k].matches(&interaction) {
            break;
        }
        k += 1;
    }
    if k < behaviors.len() {
        let mut b = behaviors.remove(k);
        assert(b == bs[k as int]);
        let name = b.name().to_owned();
        let ghost name_view = name@;
        recorder.record_with_behavior(interaction.copy(), name);
        let resp = b.respond(&interaction);
        behaviors.insert(k, b);
        let r = HttpResponse::from_response(&resp);
        proof {
            let kk = k as int;
            assert(answered_once_more(bs, behaviors@, kk));
            assert(behavior_answers(bs[kk], interaction, true));
            assert(forall|j: int| 0 <= j < kk ==> behavior_answers(#[trigger] bs[j], interaction, false));
            assert(call_ensures(bs[kk].responder_fn(), (&interaction,), resp));
            assert(same_response(r, resp));
            assert(name_view == bs[kk].name_text());
            assert(recorder.recorded() == rec.push(
                RecordedView { interaction: interaction@, behavior: Some(bs[kk].name_text()), verified: false },
            ));
            assert(handled(bs, behaviors@, stubs@, rec, recorder.recorded(), *request, interaction, r));
        }
        return r;
    }
    let mut s: usize = 0;
    while s < stubs.len()
        invariant
            s <= stubs.len(),
            forall|j: int|
                0 <= j < stubs.len() ==> (#[trigger] stubs@[j].request_matcher matches RequestMatch::Custom(m)
                    ==> call_requires(m, (request,))),
            forall|j: int| 0 <= j < s ==> stub_answers(#[trigger] stubs@[j], *request, false),
        ensures
            s <= stubs.len(),
            forall|j: int| 0 <= j < s ==> stub_answers(#[trigger] stubs@[j], *request, false),
            s < stubs.len() ==> stub_answers(stubs@[s as int], *request, true),
        decreases stubs.len() - s,
    {
        if stubs[s].matches(request) {
            break;
        }
        s += 1;
    }
    recorder.record(interaction.copy());
    if s < stubs.len() {
        let r = stubs[s].generate_response(request);
        proof {
            assert(handled(bs, behaviors@, stubs@, rec, recorder.recorded(), *request, interaction, r));
        }
        return r;
    }
    let r = not_found_response("No matching behavior or stub found");
    proof {
        assert(handled(bs, behaviors@, stubs@, rec, recorder.recorded(), *request, interaction, r));
    }
    r
}

} // verus!
