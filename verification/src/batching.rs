//! Write-through batching of the items that reach the background task.
//!
//! The background task waits for one item, drains whatever else is already
//! queued, and splits the drained items into a batch of requests, a batch of
//! responses and a batch of abandoned requests, each in arrival order.

use vstd::prelude::*;

use crate::types::{BackgroundTask, RequestData, ResponseData};

verus! {

/// The captured requests among `tasks`, in order.
pub open spec fn requests_of(tasks: Seq<BackgroundTask>) -> Seq<RequestData>
    decreases tasks.len(),
{
    if tasks.len() == 0 {
        Seq::empty()
    } else {
        let rest = requests_of(tasks.drop_last());
        match tasks.last() {
            BackgroundTask::Request { data } => rest.push(data),
            _ => rest,
        }
    }
}

/// The captured responses (with their requests) among `tasks`, in order.
pub open spec fn responses_of(tasks: Seq<BackgroundTask>) -> Seq<(RequestData, ResponseData)>
    decreases tasks.len(),
{
    if tasks.len() == 0 {
        Seq::empty()
    } else {
        let rest = responses_of(tasks.drop_last());
        match tasks.last() {
            BackgroundTask::Response { request_data, response_data } => rest.push(
                (request_data, response_data),
            ),
            _ => rest,
        }
    }
}

/// The abandoned requests among `tasks`, in order.
pub open spec fn abandoned_of(tasks: Seq<BackgroundTask>) -> Seq<RequestData>
    decreases tasks.len(),
{
    if tasks.len() == 0 {
        Seq::empty()
    } else {
        let rest = abandoned_of(tasks.drop_last());
        match tasks.last() {
            BackgroundTask::Abandoned { data } => rest.push(data),
            _ => rest,
        }
    }
}

/// Whether an item is a captured request.
pub open spec fn is_request(task: BackgroundTask) -> bool {
    task is Request
}

/// Whether an item is a captured response.
pub open spec fn is_response(task: BackgroundTask) -> bool {
    task is Response
}

/// Whether an item is an abandoned request.
pub open spec fn is_abandoned(task: BackgroundTask) -> bool {
    task is Abandoned
}

/// Each batch holds the drained items themselves, untouched and in order: the
/// request batch is the data of the request items that a filter on kind
/// keeps, the response batch the (request, response) pairs of the response
/// items, the abandoned batch the data of the abandoned items.
pub proof fn lemma_batches_hold_items_unchanged(tasks: Seq<BackgroundTask>)
    ensures
        requests_of(tasks) == tasks.filter(|t: BackgroundTask| is_request(t)).map_values(
            |t: BackgroundTask| t->Request_data,
        ),
        responses_of(tasks) == tasks.filter(|t: BackgroundTask| is_response(t)).map_values(
            |t: BackgroundTask| (t->request_data, t->response_data),
        ),
        abandoned_of(tasks) == tasks.filter(|t: BackgroundTask| is_abandoned(t)).map_values(
            |t: BackgroundTask| t->Abandoned_data,
        ),
    decreases tasks.len(),
{
    reveal(Seq::filter);
    if tasks.len() > 0 {
        let rest = tasks.drop_last();
        lemma_batches_hold_items_unchanged(rest);
        let pr = |t: BackgroundTask| is_request(t);
        let ps = |t: BackgroundTask| is_response(t);
        let pa = |t: BackgroundTask| is_abandoned(t);
        let fr = |t: BackgroundTask| t->Request_data;
        let fs = |t: BackgroundTask| (t->request_data, t->response_data);
        let fa = |t: BackgroundTask| t->Abandoned_data;
        assert(tasks.filter(pr) == if pr(tasks.last()) {
            rest.filter(pr).push(tasks.last())
        } else {
            rest.filter(pr)
        });
        assert(tasks.filter(ps) == if ps(tasks.last()) {
            rest.filter(ps).push(tasks.last())
        } else {
            rest.filter(ps)
        });
        assert(tasks.filter(pa) == if pa(tasks.last()) {
            rest.filter(pa).push(tasks.last())
        } else {
            rest.filter(pa)
        });
        match tasks.last() {
            BackgroundTask::Request { .. } => {
                assert(tasks.filter(pr).map_values(fr) =~= rest.filter(pr).map_values(fr).push(
                    fr(tasks.last()),
                ));
            },
            BackgroundTask::Response { .. } => {
                assert(tasks.filter(ps).map_values(fs) =~= rest.filter(ps).map_values(fs).push(
                    fs(tasks.last()),
                ));
            },
            BackgroundTask::Abandoned { .. } => {
                assert(tasks.filter(pa).map_values(fa) =~= rest.filter(pa).map_values(fa).push(
                    fa(tasks.last()),
                ));
            },
        }
    } else {
        assert(requests_of(tasks) =~= tasks.filter(|t: BackgroundTask| is_request(t)).map_values(
            |t: BackgroundTask| t->Request_data,
        ));
        assert(responses_of(tasks) =~= tasks.filter(|t: BackgroundTask| is_response(t)).map_values(
            |t: BackgroundTask| (t->request_data, t->response_data),
        ));
        assert(abandoned_of(tasks) =~= tasks.filter(|t: BackgroundTask| is_abandoned(t)).map_values(
            |t: BackgroundTask| t->Abandoned_data,
        ));
    }
}

/// The items of one flush, split by kind.
pub struct TaskBatches {
    pub requests: Vec<RequestData>,
    pub responses: Vec<(RequestData, ResponseData)>,
    pub abandoned: Vec<RequestData>,
}

impl TaskBatches {
    /// The batches to hand to the handler: each batch that holds items; an
    /// empty batch is not handed over at all.
    pub fn into_dispatch(self) -> (dispatch: (
        Option<Vec<RequestData>>,
        Option<Vec<(RequestData, ResponseData)>>,
        Option<Vec<RequestData>>,
    ))
        ensures
            dispatch.0 is None <==> self.requests@.len() == 0,
            dispatch.0 matches Some(b) ==> b@ == self.requests@,
            dispatch.1 is None <==> self.responses@.len() == 0,
            dispatch.1 matches Some(b) ==> b@ == self.responses@,
            dispatch.2 is None <==> self.abandoned@.len() == 0,
            dispatch.2 matches Some(b) ==> b@ == self.abandoned@,
    {
        let requests = if self.requests.len() == 0 {
            None
        } else {
            Some(self.requests)
        };
        let responses = if self.responses.len() == 0 {
            None
        } else {
            Some(self.responses)
        };
        let abandoned = if self.abandoned.len() == 0 {
            None
        } else {
            Some(self.abandoned)
        };
        (requests, responses, abandoned)
    }
}

/// Splits drained items into a batch of requests, a batch of responses and a
/// batch of abandoned requests; each batch keeps the arrival order.
pub fn split_batches(tasks: Vec<BackgroundTask>) -> (batches: TaskBatches)
    ensures
        batches.requests@ == requests_of(tasks@),
        batches.responses@ == responses_of(tasks@),
        batches.abandoned@ == abandoned_of(tasks@),
        batches.requests@ == tasks@.filter(|t: BackgroundTask| is_request(t)).map_values(
            |t: BackgroundTask| t->Request_data,
        ),
        batches.responses@ == tasks@.filter(|t: BackgroundTask| is_response(t)).map_values(
            |t: BackgroundTask| (t->request_data, t->response_data),
        ),
        batches.abandoned@ == tasks@.filter(|t: BackgroundTask| is_abandoned(t)).map_values(
            |t: BackgroundTask| t->Abandoned_data,
        ),
{
    proof {
        lemma_batches_hold_items_unchanged(tasks@);
    }
    let ghost all = tasks@;
    let mut requests: Vec<RequestData> = Vec::new();
    let mut responses: Vec<(RequestData, ResponseData)> = Vec::new();
    let mut abandoned: Vec<RequestData> = Vec::new();
    for task in it: tasks
        invariant
            it.seq() == all,
            requests@ == requests_of(all.subrange(0, it.index() as int)),
            responses@ == responses_of(all.subrange(0, it.index() as int)),
            abandoned@ == abandoned_of(all.subrange(0, it.index() as int)),
    {
        let ghost i = it.index() as int;
        assert(all.subrange(0, i + 1).drop_last() =~= all.subrange(0, i));
        assert(all.subrange(0, i + 1).last() == all[i]);
        match task {
            BackgroundTask::Request { data } => requests.push(data),
            BackgroundTask::Response { request_data, response_data } => responses.push(
                (request_data, response_data),
            ),
            BackgroundTask::Abandoned { data } => abandoned.push(data),
        }
    }
    assert(all.subrange(0, all.len() as int) =~= all);
    TaskBatches { requests, responses, abandoned }
}

/// Splitting loses and invents nothing: the three batches together hold
/// exactly as many items as were drained.
pub proof fn lemma_split_preserves_count(tasks: Seq<BackgroundTask>)
    ensures
        requests_of(tasks).len() + responses_of(tasks).len() + abandoned_of(tasks).len()
            == tasks.len(),
    decreases tasks.len(),
{
    if tasks.len() > 0 {
        lemma_split_preserves_count(tasks.drop_last());
    }
}

/// Splitting the items of two consecutive drains gives the batches of each,
/// one after the other: batches keep arrival order across flushes.
pub proof fn lemma_split_concatenates(first: Seq<BackgroundTask>, second: Seq<BackgroundTask>)
    ensures
        requests_of(first + second) == requests_of(first) + requests_of(second),
        responses_of(first + second) == responses_of(first) + responses_of(second),
        abandoned_of(first + second) == abandoned_of(first) + abandoned_of(second),
    decreases second.len(),
{
    if second.len() == 0 {
        assert(first + second =~= first);
    } else {
        let shorter = second.drop_last();
        lemma_split_concatenates(first, shorter);
        assert((first + second).drop_last() =~= first + shorter);
        assert((first + second).last() == second.last());
        assert(requests_of(first + second) =~= requests_of(first) + requests_of(second));
        assert(responses_of(first + second) =~= responses_of(first) + responses_of(second));
        assert(abandoned_of(first + second) =~= abandoned_of(first) + abandoned_of(second));
    }
}

/// The parts joined end to end, in order.
pub open spec fn concat_all<A>(parts: Seq<Seq<A>>) -> Seq<A>
    decreases parts.len(),
{
    if parts.len() == 0 {
        Seq::empty()
    } else {
        concat_all(parts.drop_last()) + parts.last()
    }
}

/// The request batches of successive drains.
pub open spec fn request_batches(drains: Seq<Seq<BackgroundTask>>) -> Seq<Seq<RequestData>> {
    drains.map_values(|d: Seq<BackgroundTask>| requests_of(d))
}

/// The response batches of successive drains.
pub open spec fn response_batches(drains: Seq<Seq<BackgroundTask>>) -> Seq<
    Seq<(RequestData, ResponseData)>,
> {
    drains.map_values(|d: Seq<BackgroundTask>| responses_of(d))
}

/// The abandoned batches of successive drains.
pub open spec fn abandoned_batches(drains: Seq<Seq<BackgroundTask>>) -> Seq<Seq<RequestData>> {
    drains.map_values(|d: Seq<BackgroundTask>| abandoned_of(d))
}

/// Over any number of successive drains of the channel, the request batches
/// joined in order are exactly the requests in channel order; likewise the
/// response batches and the abandoned batches. Every item lands in exactly one
/// batch of its kind, and nothing else is handed over.
pub proof fn lemma_drains_keep_channel_order(drains: Seq<Seq<BackgroundTask>>)
    ensures
        concat_all(request_batches(drains)) == requests_of(concat_all(drains)),
        concat_all(response_batches(drains)) == responses_of(concat_all(drains)),
        concat_all(abandoned_batches(drains)) == abandoned_of(concat_all(drains)),
    decreases drains.len(),
{
    if drains.len() > 0 {
        let prefix = drains.drop_last();
        lemma_drains_keep_channel_order(prefix);
        lemma_split_concatenates(concat_all(prefix), drains.last());
        assert(request_batches(drains).drop_last() =~= request_batches(prefix));
        assert(response_batches(drains).drop_last() =~= response_batches(prefix));
        assert(abandoned_batches(drains).drop_last() =~= abandoned_batches(prefix));
        assert(request_batches(drains).last() == requests_of(drains.last()));
        assert(response_batches(drains).last() == responses_of(drains.last()));
        assert(abandoned_batches(drains).last() == abandoned_of(drains.last()));
    } else {
        assert(concat_all(request_batches(drains)) =~= requests_of(concat_all(drains)));
        assert(concat_all(response_batches(drains)) =~= responses_of(concat_all(drains)));
        assert(concat_all(abandoned_batches(drains)) =~= abandoned_of(concat_all(drains)));
    }
}

} // verus!
