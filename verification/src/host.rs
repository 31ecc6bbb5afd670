use vstd::prelude::*;
use ringbuf::Producer;

use crate::plugin_instance_pool::{UniquePluginInstanceID, UniqueProcessorID};

verus! {

/// How many requests the first request queue holds: three for each of a
/// thousand plugin instances.
pub const INITIAL_PLUGIN_INSTANCE_QUEUE_COUNT: usize = 1000 * 3;

/// Information about the host.
pub struct HostInfo {
    /// The name of this host (this is mandatory), e.g. "Meadowlark".
    pub name: &'static str,
    /// The version of this host (this is mandatory), e.g. "1.4.2".
    pub version: &'static str,
    /// The vendor of this host (this is optional), e.g. "RustyDAW Org".
    pub vendor: Option<&'static str>,
    /// The url to the product page for this host (this is optional).
    pub url: Option<&'static str>,
}

impl HostInfo {
    /// The version number of the engine that this host is using.
    pub fn rusty_daw_engine_version() -> (r: &'static str)
        ensures
            r@ == "0.1.0"@,
    {
        "0.1.0"
    }
}

/// What a processor asks of the host.
#[derive(Debug, Clone, Copy, PartialEq, Eq, Structural)]
pub enum HostRequestType {
    Restart,
    Process,
    Callback,
}

/// A request from the processor `process_id` of the plugin instance
/// `plugin_instance_id`.
#[derive(Debug, Clone, Copy)]
pub struct HostRequest {
    pub process_id: UniqueProcessorID,
    pub plugin_instance_id: UniquePluginInstanceID,
    pub request_type: HostRequestType,
}

/// The producer half of a `ringbuf` ring buffer.
#[verifier::external_type_specification]
#[verifier::external_body]
#[verifier::reject_recursive_types(T)]
pub struct ExProducer<T>(Producer<T>);

/// The requests handed to `push` through the producer `p` so far, oldest
/// first, whether the ring buffer took them or not.
pub uninterp spec fn requests_offered(p: Producer<HostRequest>) -> Seq<HostRequest>;

/// The requests that the ring buffer took through the producer `p` so far,
/// oldest first.
pub uninterp spec fn requests_accepted(p: Producer<HostRequest>) -> Seq<HostRequest>;

/// `ringbuf::Producer::push`: hands `req` to the ring buffer, which appends it
/// when it has room; when it is full the request is handed back in the error
/// and the buffer is left as it was. Whether it fits depends on the consumer
/// on the other thread, so nothing is said of which case occurs.
#[verifier::external_body]
fn push_request(tx: &mut Producer<HostRequest>, req: HostRequest) -> (r: Result<(), HostRequest>)
    ensures
        requests_offered(*final(tx)) == requests_offered(*old(tx)).push(req),
        r is Ok ==> requests_accepted(*final(tx)) == requests_accepted(*old(tx)).push(req),
        r matches Err(back) ==> back == req && requests_accepted(*final(tx)) == requests_accepted(*old(tx)),
{
    tx.push(req)
}

/// Used by a processor to retrieve info about the host and to request actions
/// from the host.
pub struct RtHostQueue {
    info: HostInfo,
    /// The processor and plugin instance that is being processed; set before
    /// each processor runs.
    ids: Option<(UniqueProcessorID, UniquePluginInstanceID)>,
    requests_tx: Producer<HostRequest>,
}

impl RtHostQueue {
    /// The information about the host that the queue hands out.
    pub closed spec fn host_info(&self) -> HostInfo {
        self.info
    }

    /// The ring buffer that requests are handed to.
    pub closed spec fn request_queue(&self) -> Producer<HostRequest> {
        self.requests_tx
    }

    /// The requests offered to the request queue so far, oldest first. A full
    /// queue drops a request it is offered.
    pub open spec fn offered_requests(&self) -> Seq<HostRequest> {
        requests_offered(self.request_queue())
    }

    /// The requests that the request queue took so far, oldest first.
    pub open spec fn accepted_requests(&self) -> Seq<HostRequest> {
        requests_accepted(self.request_queue())
    }

    /// The requests taken by the queue after it was offered the request of
    /// type `request_type` on behalf of `ids`: that request was appended or
    /// dropped while a processor runs; nothing changes otherwise.
    pub open spec fn accepted_after(
        before: Seq<HostRequest>,
        after: Seq<HostRequest>,
        ids: Option<(UniqueProcessorID, UniquePluginInstanceID)>,
        request_type: HostRequestType,
    ) -> bool {
        match Self::request_for(ids, request_type) {
            Some(req) => after == before.push(req) || after == before,
            None => after == before,
        }
    }

    /// The requests offered so far after asking for one of type `request_type`
    /// on behalf of `ids`: one more while a processor runs, none otherwise.
    pub open spec fn after_request(
        handed: Seq<HostRequest>,
        ids: Option<(UniqueProcessorID, UniquePluginInstanceID)>,
        request_type: HostRequestType,
    ) -> Seq<HostRequest> {
        match Self::request_for(ids, request_type) {
            Some(req) => handed.push(req),
            None => handed,
        }
    }

    /// The processor and plugin instance on whose behalf requests are made.
    pub closed spec fn current_ids(&self) -> Option<(UniqueProcessorID, UniquePluginInstanceID)> {
        self.ids
    }

    /// The request of type `request_type` for the current processor, if any.
    pub open spec fn request_for(
        ids: Option<(UniqueProcessorID, UniquePluginInstanceID)>,
        request_type: HostRequestType,
    ) -> Option<HostRequest> {
        match ids {
            Some((process_id, plugin_instance_id)) => Some(
                HostRequest { process_id, plugin_instance_id, request_type },
            ),
            None => None,
        }
    }

    /// A queue that sends its requests through `requests_tx`, with no processor running yet.
    pub fn new(info: HostInfo, requests_tx: Producer<HostRequest>) -> (r: Self)
        ensures
            r.current_ids() is None,
            r.host_info() == info,
            r.request_queue() == requests_tx,
    {
        RtHostQueue { info, ids: None, requests_tx }
    }

    /// Set the processor and plugin instance that is about to run.
    pub fn prepare_for_processor(&mut self, ids: Option<(UniqueProcessorID, UniquePluginInstanceID)>)
        ensures
            final(self).current_ids() == ids,
            final(self).host_info() == old(self).host_info(),
            final(self).request_queue() == old(self).request_queue(),
    {
        self.ids = ids;
    }

    /// Used by the scheduler to send a larger buffer if the current one is too small.
    pub fn use_new_request_buffer(&mut self, requests_tx: Producer<HostRequest>)
        ensures
            final(self).current_ids() == old(self).current_ids(),
            final(self).host_info() == old(self).host_info(),
            final(self).request_queue() == requests_tx,
    {
        self.requests_tx = requests_tx;
    }

    /// Retrieve info about the host.
    pub fn info(&self) -> (r: &HostInfo)
        ensures
            *r == self.host_info(),
    {
        &self.info
    }

    /// The request of type `request_type` on behalf of the current processor,
    /// or none when no processor is running.
    pub fn pending_request(&self, request_type: HostRequestType) -> (r: Option<HostRequest>)
        ensures
            r == Self::request_for(self.current_ids(), request_type),
    {
        match self.ids {
            Some((process_id, plugin_instance_id)) => Some(
                HostRequest { process_id, plugin_instance_id, request_type },
            ),
            None => None,
        }
    }

    /// Send the request of type `request_type` for the current processor, if
    /// any; the answer is whether the queue took it.
    fn send(&mut self, request_type: HostRequestType) -> (r: Option<Result<(), HostRequest>>)
        ensures
            final(self).current_ids() == old(self).current_ids(),
            final(self).host_info() == old(self).host_info(),
            final(self).offered_requests() == Self::after_request(
                old(self).offered_requests(),
                old(self).current_ids(),
                request_type,
            ),
            r matches Some(Ok(_)) ==> final(self).accepted_requests() == old(self).accepted_requests().push(
                Self::request_for(old(self).current_ids(), request_type)->0,
            ),
            !(r matches Some(Ok(_))) ==> final(self).accepted_requests() == old(self).accepted_requests(),
            r is None <==> old(self).current_ids() is None,
            r matches Some(Err(back)) ==> Some(back) == Self::request_for(old(self).current_ids(), request_type),
    {
        match self.pending_request(request_type) {
            Some(req) => {
                Some(push_request(&mut self.requests_tx, req))
            },
            None => None,
        }
    }

    /// Request the host to deactivate and then reactivate this plugin.
    ///
    /// The request goes out only while a processor is running; when the queue
    /// is full it is dropped.
    pub fn request_restart(&mut self)
        ensures
            final(self).current_ids() == old(self).current_ids(),
            final(self).host_info() == old(self).host_info(),
            final(self).offered_requests() == Self::after_request(
                old(self).offered_requests(),
                old(self).current_ids(),
                HostRequestType::Restart,
            ),
            Self::accepted_after(
                old(self).accepted_requests(),
                final(self).accepted_requests(),
                old(self).current_ids(),
                HostRequestType::Restart,
            ),
    {
        let _ = self.send(HostRequestType::Restart);
    }

    /// Request the host to activate and start processing the plugin.
    ///
    /// The request goes out only while a processor is running; when the queue
    /// is full it is dropped.
    pub fn request_process(&mut self)
        ensures
            final(self).current_ids() == old(self).current_ids(),
            final(self).host_info() == old(self).host_info(),
            final(self).offered_requests() == Self::after_request(
                old(self).offered_requests(),
                old(self).current_ids(),
                HostRequestType::Process,
            ),
            Self::accepted_after(
                old(self).accepted_requests(),
                final(self).accepted_requests(),
                old(self).current_ids(),
                HostRequestType::Process,
            ),
    {
        let _ = self.send(HostRequestType::Process);
    }

    /// Request the host to schedule a call to the plugin's main-thread callback.
    ///
    /// The request goes out only while a processor is running; when the queue
    /// is full it is dropped.
    pub fn request_callback(&mut self)
        ensures
            final(self).current_ids() == old(self).current_ids(),
            final(self).host_info() == old(self).host_info(),
            final(self).offered_requests() == Self::after_request(
                old(self).offered_requests(),
                old(self).current_ids(),
                HostRequestType::Callback,
            ),
            Self::accepted_after(
                old(self).accepted_requests(),
                final(self).accepted_requests(),
                old(self).current_ids(),
                HostRequestType::Callback,
            ),
    {
        let _ = self.send(HostRequestType::Callback);
    }
}

} // verus!
