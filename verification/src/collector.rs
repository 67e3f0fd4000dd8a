//! The collector's decisions: how it answers the bridge, when it starts
//! monitoring, which scans it runs, and how it batches monitoring samples.
use vstd::prelude::*;
use crate::json::{Json, json_text_value, parse_json};
use crate::text::{concat2, concat3, contains, contains_seq, copy_str, join, joined, str_equal, string_views};

verus! {

/// What the collector does with a message on `bridge.response`.
#[derive(Clone, Copy, PartialEq, Eq, Structural, Debug)]
pub enum BridgeResponseAction {
    /// The agent is registered: send a rescan.
    SendRescan,
    /// The bridge holds a token: collect and send the agent's data.
    SendAgentData,
    /// Nothing to do.
    Ignore,
    /// The message is not JSON: report it.
    ReportInvalid,
}

/// The member `key` is the string `text`.
pub open spec fn has_text(j: Json, key: Seq<char>, text: Seq<char>) -> bool {
    j.field_text(key) == Some(text)
}

/// The collector's answer to `bridge.response`: a rescan when the agent is
/// already registered; otherwise, for a JSON message whose `status` is `ok`
/// or whose `message` says the token exists, the agent's data.
pub open spec fn bridge_response_decision(agent_registered: bool, message: Option<Json>) -> BridgeResponseAction {
    if agent_registered {
        BridgeResponseAction::SendRescan
    } else {
        match message {
            None => BridgeResponseAction::ReportInvalid,
            Some(j) => if has_text(j, "status"@, "ok"@) || has_text(
                j,
                "message"@,
                "Token is already exists"@,
            ) {
                BridgeResponseAction::SendAgentData
            } else {
                BridgeResponseAction::Ignore
            },
        }
    }
}

pub open spec fn opt_json(o: Option<&Json>) -> Option<Json> {
    match o {
        Some(j) => Some(*j),
        None => None,
    }
}

fn text_is(j: &Json, key: &str, text: &str) -> (r: bool)
    ensures
        r == has_text(*j, key@, text@),
{
    match j.get_str(key) {
        Some(t) => str_equal(t, text),
        None => false,
    }
}

/// Decides what to do with a message on `bridge.response`; `message` is the
/// parsed payload, `None` when it is not JSON.
pub fn bridge_response_action(agent_registered: bool, message: Option<&Json>) -> (r: BridgeResponseAction)
    ensures
        r == bridge_response_decision(agent_registered, opt_json(message)),
{
    if agent_registered {
        return BridgeResponseAction::SendRescan;
    }
    match message {
        None => BridgeResponseAction::ReportInvalid,
        Some(j) => {
            if text_is(j, "status", "ok") || text_is(j, "message", "Token is already exists") {
                BridgeResponseAction::SendAgentData
            } else {
                BridgeResponseAction::Ignore
            }
        },
    }
}

/// Decides what to do with the payload of a message on `bridge.response`:
/// the payload is parsed as JSON only when the agent is not registered.
pub fn bridge_response_for_payload(agent_registered: bool, payload: &str) -> (r: BridgeResponseAction)
    ensures
        r == bridge_response_decision(agent_registered, json_text_value(payload@)),
{
    if agent_registered {
        return BridgeResponseAction::SendRescan;
    }
    let message = parse_json(payload);
    match &message {
        Some(j) => bridge_response_action(false, Some(j)),
        None => bridge_response_action(false, None),
    }
}

/// Whether a reply on `agent.response` starts monitoring: the device was
/// created, or a reinstallation was recognised.
pub fn agent_response_starts_monitoring(payload: &str) -> (r: bool)
    ensures
        r == (contains_seq(payload@, "Device created successfully"@) || contains_seq(
            payload@,
            "Reinstallation detected - returned previous device data"@,
        )),
{
    contains(payload, "Device created successfully") || contains(
        payload,
        "Reinstallation detected - returned previous device data",
    )
}

/// Whether a reply on `rescanagent.response` starts monitoring: the device
/// was updated.
pub fn rescan_response_starts_monitoring(payload: &str) -> (r: bool)
    ensures
        r == contains_seq(payload@, "Device updated successfully"@),
{
    contains(payload, "Device updated successfully")
}

/// Which scan a request asks for.
#[derive(Clone, Copy, PartialEq, Eq, Structural, Debug)]
pub enum ScanKind {
    /// `disk` or `partition`.
    Disk,
    /// `nic`.
    Nic,
    /// Any other action.
    Unknown,
}

/// A scan request: its action, the uuid it concerns (empty when absent),
/// and the scan it selects.
pub struct ScanRequest<'a> {
    pub action: &'a str,
    pub uuid: &'a str,
    pub kind: ScanKind,
}

/// The scan that an action selects.
pub open spec fn scan_kind_for(action: Seq<char>) -> ScanKind {
    if action == "disk"@ || action == "partition"@ {
        ScanKind::Disk
    } else if action == "nic"@ {
        ScanKind::Nic
    } else {
        ScanKind::Unknown
    }
}

/// A request for a disk or a partition runs the disk scan, one for a
/// network interface runs the interface scan, and any other action runs no
/// scan.
pub proof fn lemma_scan_kind_by_action(action: Seq<char>)
    ensures
        action == "disk"@ ==> scan_kind_for(action) == ScanKind::Disk,
        action == "partition"@ ==> scan_kind_for(action) == ScanKind::Disk,
        action == "nic"@ ==> scan_kind_for(action) == ScanKind::Nic,
        scan_kind_for(action) == ScanKind::Disk ==> (action == "disk"@ || action == "partition"@),
        scan_kind_for(action) == ScanKind::Nic ==> action == "nic"@,
{
    reveal_strlit("disk");
    reveal_strlit("partition");
    reveal_strlit("nic");
    assert("nic"@.len() != "disk"@.len() && "nic"@.len() != "partition"@.len());
}

/// Reads a request on `scan.>`; `None` when it has no string `action`.
pub fn scan_request<'a>(json: &'a Json) -> (r: Option<ScanRequest<'a>>)
    ensures
        match json.field_text("action"@) {
            None => r is None,
            Some(a) => r matches Some(q) && q.action@ == a && q.kind == scan_kind_for(a) && q.uuid@
                == (match json.field_text("uuid"@) {
                Some(u) => u,
                None => Seq::<char>::empty(),
            }),
        },
{
    let action = json.get_str("action")?;
    let uuid: &'a str = match json.get_str("uuid") {
        Some(u) => u,
        None => {
            proof {
                reveal_strlit("");
            }
            ""
        },
    };
    let kind = if str_equal(action, "disk") || str_equal(action, "partition") {
        ScanKind::Disk
    } else if str_equal(action, "nic") {
        ScanKind::Nic
    } else {
        ScanKind::Unknown
    };
    Some(ScanRequest { action, uuid, kind })
}

/// A scan request read from a payload: its action, the uuid it concerns
/// (empty when absent), and the scan it selects.
pub struct ScanOrder {
    pub action: String,
    pub uuid: String,
    pub kind: ScanKind,
}

/// The uuid a scan request names, empty when it names none.
pub open spec fn request_uuid(json: Json) -> Seq<char> {
    match json.field_text("uuid"@) {
        Some(u) => u,
        None => Seq::<char>::empty(),
    }
}

/// Reads the payload of a message on `scan.>`; `None` when it is not JSON
/// or has no string `action`.
pub fn scan_order(payload: &str) -> (r: Option<ScanOrder>)
    ensures
        match json_text_value(payload@) {
            None => r is None,
            Some(json) => match json.field_text("action"@) {
                None => r is None,
                Some(a) => r matches Some(q) && q.action@ == a && q.kind == scan_kind_for(a)
                    && q.uuid@ == request_uuid(json),
            },
        },
{
    let json = parse_json(payload)?;
    let request = scan_request(&json)?;
    Some(ScanOrder { action: copy_str(request.action), uuid: copy_str(request.uuid), kind: request.kind })
}

/// A scan result to publish.
pub struct ScanResponse {
    pub subject: String,
    pub message: Json,
}

/// The result of a scan to publish: on `send.scan.<action>`, an object with the action, the result and the uuid.
pub fn send_scan_response(action: &str, uuid: &str, result: Json) -> (r: ScanResponse)
    ensures
        r.subject@ == "send.scan."@ + action@,
        r.message matches Json::Obj(e) && e@.len() == 3 && e@[0].0@ == "action"@ && e@[0].1.text()
            == Some(action@) && e@[1].0@ == "result"@ && e@[1].1 == result && e@[2].0@ == "uuid"@
            && e@[2].1.text() == Some(uuid@),
{
    let mut e: Vec<(String, Json)> = Vec::new();
    e.push((copy_str("action"), Json::Str(copy_str(action))));
    e.push((copy_str("result"), result));
    e.push((copy_str("uuid"), Json::Str(copy_str(uuid))));
    ScanResponse { subject: concat2("send.scan.", action), message: Json::Obj(e) }
}

/// Monitoring samples waiting to be sent together.
pub struct MonitorBatch {
    queue: Vec<String>,
    batch_size: u64,
}

/// The abstract state of a [`MonitorBatch`]: the waiting samples, oldest
/// first, and the number that makes a batch.
pub struct BatchState {
    pub samples: Seq<Seq<char>>,
    pub batch_size: u64,
}

impl View for MonitorBatch {
    type V = BatchState;

    closed spec fn view(&self) -> BatchState {
        BatchState { samples: string_views(self.queue@), batch_size: self.batch_size }
    }
}

/// The payload that carries a batch: its samples joined by commas, in
/// square brackets.
pub open spec fn batch_payload(samples: Seq<Seq<char>>) -> Seq<char> {
    "["@ + joined(samples, ","@) + "]"@
}

impl MonitorBatch {
    /// An empty queue that sends every `batch_size` samples.
    pub fn new(batch_size: u64) -> (r: MonitorBatch)
        ensures
            r@.samples == Seq::<Seq<char>>::empty(),
            r@.batch_size == batch_size,
    {
        let r = MonitorBatch { queue: Vec::new(), batch_size };
        assert(string_views(r.queue@) =~= Seq::<Seq<char>>::empty());
        r
    }

    /// Queues a sample; when the queue then holds exactly a batch, the
    /// payload to publish. The queue is kept until the publication succeeds.
    pub fn push_sample(&mut self, sample: String) -> (r: Option<String>)
        ensures
            final(self)@.samples == old(self)@.samples.push(sample@),
            final(self)@.batch_size == old(self)@.batch_size,
            match r {
                Some(p) => final(self)@.samples.len() == final(self)@.batch_size && p@
                    == batch_payload(final(self)@.samples),
                None => final(self)@.samples.len() != final(self)@.batch_size,
            },
    {
        let ghost before = self.queue@;
        self.queue.push(sample);
        assert(string_views(self.queue@) =~= string_views(before).push(sample@));
        if self.queue.len() as u64 == self.batch_size {
            let body = join(&self.queue, ",");
            Some(concat3("[", body.as_str(), "]"))
        } else {
            None
        }
    }

    /// Forgets the queued samples once their batch has been published.
    pub fn publish_succeeded(&mut self)
        ensures
            final(self)@.samples == Seq::<Seq<char>>::empty(),
            final(self)@.batch_size == old(self)@.batch_size,
    {
        self.queue.clear();
        assert(string_views(self.queue@) =~= Seq::<Seq<char>>::empty());
    }

    /// The number of queued samples.
    pub fn len(&self) -> (r: usize)
        ensures
            r == self@.samples.len(),
    {
        self.queue.len()
    }
}

} // verus!
