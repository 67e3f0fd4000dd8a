//! The bridge's decisions: reading the access token the central server
//! grants, answering the collector, routing the server's replies to
//! monitoring data, and checking the devices the server asks about.
use vstd::prelude::*;
use crate::json::{Json, json_text_value, parse_json};
use crate::master_key::opt_text;
use crate::store_plan::items_or_none;
use crate::text::{concat2, concat3, copy_str, str_equal, trim_end_matches, without_suffixes};

verus! {

/// An access token as the central server grants it.
pub struct TokenGrant {
    pub access_token: String,
    pub expires_in: i64,
}

/// The `access_token` of a grant: its string, empty when absent.
pub open spec fn grant_token(json: Json) -> Seq<char> {
    match json.field_text("access_token"@) {
        Some(t) => t,
        None => Seq::<char>::empty(),
    }
}

/// The lifetime of a grant in seconds: its `expires_in` integer, 0 when
/// absent or out of range.
pub open spec fn grant_expires(json: Json) -> i64 {
    match json.field("expires_in"@) {
        Some(v) => match v.integer() {
            Some(n) => n,
            None => 0,
        },
        None => 0,
    }
}

/// Reads a token grant: the `access_token` string (empty when absent) and
/// the `expires_in` integer in seconds (0 when absent).
pub fn token_grant(json: &Json) -> (r: TokenGrant)
    ensures
        r.access_token@ == grant_token(*json),
        r.expires_in == grant_expires(*json),
{
    let access_token = match json.get_str("access_token") {
        Some(t) => copy_str(t),
        None => String::new(),
    };
    let expires_in = match json.get("expires_in") {
        Some(v) => match v.as_i64() {
            Some(n) => n,
            None => 0,
        },
        None => 0,
    };
    TokenGrant { access_token, expires_in }
}

/// The calendar time `secs` seconds after 1970-01-01 00:00:00, written as
/// `%Y-%m-%d %H:%M:%S`, or `None` outside the calendar's range.
pub uninterp spec fn timestamp_text(secs: i64) -> Option<Seq<char>>;

/// `chrono::DateTime::from_timestamp` followed by `naive_utc().format(..)`:
/// the result is named `timestamp_text`.
#[verifier::external_body]
fn format_timestamp(secs: i64) -> (r: Option<String>)
    ensures
        r matches Some(t) ==> timestamp_text(secs) == Some(t@),
        r is None ==> timestamp_text(secs) is None,
{
    match chrono::DateTime::from_timestamp(secs, 0) {
        Some(t) => Some(t.naive_utc().format("%Y-%m-%d %H:%M:%S").to_string()),
        None => None,
    }
}

/// The largest number of seconds a `chrono` duration holds.
pub const MAX_DURATION_SECS: i64 = 9223372036854775i64;

/// When a token granted at `now` (local wall-clock seconds) for `expires_in`
/// seconds expires; `None` for a lifetime beyond what a duration holds or an
/// expiry outside the calendar.
pub open spec fn expiration_text(now: i64, expires_in: i64) -> Option<Seq<char>> {
    if expires_in > MAX_DURATION_SECS || expires_in < -MAX_DURATION_SECS {
        None
    } else if now + expires_in > i64::MAX || now + expires_in < i64::MIN {
        None
    } else {
        timestamp_text((now + expires_in) as i64)
    }
}

/// The expiration time that is stored with a token.
pub fn token_expiration(now: i64, expires_in: i64) -> (r: Option<String>)
    ensures
        match r {
            Some(t) => expiration_text(now, expires_in) == Some(t@),
            None => expiration_text(now, expires_in) is None,
        },
{
    if expires_in > MAX_DURATION_SECS || expires_in < -MAX_DURATION_SECS {
        return None;
    }
    match now.checked_add(expires_in) {
        Some(secs) => format_timestamp(secs),
        None => None,
    }
}

/// The answer that a new token was stored: `status` is `ok` and `token`
/// is the central server's reply.
pub open spec fn token_saved_message(m: Json, token: Seq<char>) -> bool {
    m matches Json::Obj(e) && e@.len() == 2 && e@[0].0@ == "status"@ && e@[0].1.text() == Some(
        "ok"@,
    ) && e@[1].0@ == "token"@ && e@[1].1.text() == Some(token)
}

/// The answer that a token is already stored.
pub open spec fn token_exists_message(m: Json) -> bool {
    m matches Json::Obj(e) && e@.len() == 1 && e@[0].0@ == "message"@ && e@[0].1.text() == Some(
        "Token is already exists"@,
    )
}

/// The answer on `bridge.response` once a new token is stored.
pub fn token_saved_response(token: &str) -> (r: Json)
    ensures
        token_saved_message(r, token@),
{
    let mut e: Vec<(String, Json)> = Vec::new();
    e.push((copy_str("status"), Json::Str(copy_str("ok"))));
    e.push((copy_str("token"), Json::Str(copy_str(token))));
    Json::Obj(e)
}

/// The answer on `bridge.response` when a token is already stored.
pub fn token_exists_response() -> (r: Json)
    ensures
        token_exists_message(r),
{
    let mut e: Vec<(String, Json)> = Vec::new();
    e.push((copy_str("message"), Json::Str(copy_str("Token is already exists"))));
    Json::Obj(e)
}

/// Where a reply of the monitoring server goes.
pub enum MonitorRoute {
    /// Check a disk the server asks about.
    VerifyDisk,
    /// Check a network interface the server asks about.
    VerifyNic,
    /// Forward the reply to the collector on this subject.
    Publish(String),
    /// The reply has no string `action`: nothing to do.
    Ignore,
}

/// The route of a monitoring server reply, by its `action`.
pub open spec fn monitor_route_is(r: MonitorRoute, reply: Json) -> bool {
    match reply.field_text("action"@) {
        None => r is Ignore,
        Some(a) => if a == "verify_disk_existence"@ {
            r is VerifyDisk
        } else if a == "verify_nic_existence"@ {
            r is VerifyNic
        } else {
            r matches MonitorRoute::Publish(s) && s@ == "scan."@ + a
        },
    }
}

/// Routes a reply of the monitoring server.
pub fn monitor_response_route(reply: &Json) -> (r: MonitorRoute)
    ensures
        monitor_route_is(r, *reply),
{
    match reply.get_str("action") {
        None => MonitorRoute::Ignore,
        Some(a) => {
            if str_equal(a, "verify_disk_existence") {
                MonitorRoute::VerifyDisk
            } else if str_equal(a, "verify_nic_existence") {
                MonitorRoute::VerifyNic
            } else {
                MonitorRoute::Publish(concat2("scan.", a))
            }
        },
    }
}

/// The sample of a monitoring batch that device checks compare against: the
/// fifth, when the batch has one.
pub fn verification_sample(batch: &Vec<Json>) -> (r: Option<&Json>)
    ensures
        batch@.len() > 4 ==> r == Some(&batch@[4]),
        batch@.len() <= 4 ==> r is None,
{
    if batch.len() > 4 {
        Some(&batch[4])
    } else {
        None
    }
}

/// The uuids that the sample lists under `monitoring_key`, each read from
/// the member `uuid_key` of an entry; entries without one are skipped.
pub open spec fn listed_uuids(items: Seq<Json>, uuid_key: Seq<char>) -> Seq<Seq<char>>
    decreases items.len(),
{
    if items.len() == 0 {
        Seq::empty()
    } else {
        match items[0].field_text(uuid_key) {
            Some(u) => seq![u] + listed_uuids(items.drop_first(), uuid_key),
            None => listed_uuids(items.drop_first(), uuid_key),
        }
    }
}

/// Whether the device check passes: both name the same device (or neither
/// names one), and the reply's uuid is among those the sample lists.
pub open spec fn verification_passes(
    monitoring_key: Seq<char>,
    uuid_key: Seq<char>,
    sample: Json,
    reply: Json,
) -> bool {
    let listed = match sample.field_items(monitoring_key) {
        Some(items) => listed_uuids(items, uuid_key),
        None => Seq::empty(),
    };
    &&& sample.field_text("device_uuid"@) == reply.field_text("device_uuid"@)
    &&& reply.field_text(uuid_key) matches Some(u) && listed.contains(u)
}

/// A text, or `unknown` when there is none.
pub open spec fn text_or_unknown(t: Option<Seq<char>>) -> Seq<char> {
    match t {
        Some(s) => s,
        None => "unknown"@,
    }
}

fn listed_contains(items: &Vec<Json>, uuid_key: &str, target: &str) -> (r: bool)
    ensures
        r == listed_uuids(items@, uuid_key@).contains(target@),
{
    let mut i: usize = 0;
    assert(items@.skip(0) =~= items@);
    while i < items.len()
        invariant
            i <= items@.len(),
            listed_uuids(items@, uuid_key@).contains(target@) == listed_uuids(
                items@.skip(i as int),
                uuid_key@,
            ).contains(target@),
        decreases items@.len() - i,
    {
        let ghost t = items@.skip(i as int);
        assert(t.drop_first() =~= items@.skip(i + 1));
        assert(t[0] == items@[i as int]);
        match items[i].get_str(uuid_key) {
            Some(u) => {
                let ghost rest = listed_uuids(items@.skip(i + 1), uuid_key@);
                assert(listed_uuids(t, uuid_key@) == seq![u@] + rest);
                if str_equal(u, target) {
                    assert((seq![u@] + rest)[0] == target@);
                    return true;
                }
                assert(rest.contains(target@) == (seq![u@] + rest).contains(target@)) by {
                    if (seq![u@] + rest).contains(target@) {
                        let k = choose|k: int| 0 <= k < (seq![u@] + rest).len() && (seq![u@]
                            + rest)[k] == target@;
                        assert(rest[k - 1] == target@);
                    }
                    if rest.contains(target@) {
                        let k = choose|k: int| 0 <= k < rest.len() && rest[k] == target@;
                        assert((seq![u@] + rest)[k + 1] == target@);
                    }
                }
            },
            None => {},
        }
        i = i + 1;
    }
    false
}

fn opt_str_equal(a: Option<&str>, b: Option<&str>) -> (r: bool)
    ensures
        r == (opt_text(a) == opt_text(b)),
{
    match (a, b) {
        (Some(x), Some(y)) => str_equal(x, y),
        (None, None) => true,
        _ => false,
    }
}

/// The answer to a device check: the checked action, the reply's uuid and
/// device uuid (`unknown` when absent), and whether the check passed.
pub open spec fn verification_answer(
    r: Json,
    monitoring_key: Seq<char>,
    uuid_key: Seq<char>,
    orig: Json,
    resp: Json,
) -> bool {
    r matches Json::Obj(e) && e@.len() == 4 && e@[0].0@ == "action"@ && e@[0].1.text() == Some(
        "verify_"@ + without_suffixes(uuid_key, "_uuid"@) + "_existence"@,
    ) && e@[1].0@ == uuid_key && e@[1].1.text() == Some(text_or_unknown(resp.field_text(uuid_key)))
        && e@[2].0@ == "device_uuid"@ && e@[2].1.text() == Some(
        text_or_unknown(resp.field_text("device_uuid"@)),
    ) && e@[3].0@ == "exists"@ && e@[3].1 == Json::Bool(
        verification_passes(monitoring_key, uuid_key, orig, resp),
    )
}

/// The answer to a device check, sent to the monitoring server: the checked
/// action, the reply's uuid and device uuid (`unknown` when absent), and
/// whether the check passed.
pub fn handle_verification(monitoring_key: &str, uuid_key: &str, orig_json: &Json, resp_json: &Json) -> (r: Json)
    ensures
        verification_answer(r, monitoring_key@, uuid_key@, *orig_json, *resp_json),
{
    let orig_device = orig_json.get_str("device_uuid");
    let resp_device = resp_json.get_str("device_uuid");
    let resp_uuid = resp_json.get_str(uuid_key);
    let uuid_match = match resp_uuid {
        Some(u) => match orig_json.get_array(monitoring_key) {
            Some(items) => listed_contains(items, uuid_key, u),
            None => false,
        },
        None => false,
    };
    let passed = opt_str_equal(orig_device, resp_device) && uuid_match;
    proof {
        reveal_strlit("_uuid");
    }
    let stem = trim_end_matches(uuid_key, "_uuid");
    let action = concat3("verify_", stem, "_existence");
    let mut e: Vec<(String, Json)> = Vec::new();
    e.push((copy_str("action"), Json::Str(action)));
    e.push(
        (
            copy_str(uuid_key),
            Json::Str(
                match resp_uuid {
                    Some(u) => copy_str(u),
                    None => copy_str("unknown"),
                },
            ),
        ),
    );
    e.push(
        (
            copy_str("device_uuid"),
            Json::Str(
                match resp_device {
                    Some(u) => copy_str(u),
                    None => copy_str("unknown"),
                },
            ),
        ),
    );
    e.push((copy_str("exists"), Json::Bool(passed)));
    Json::Obj(e)
}

/// What the bridge forwards to the central server from a scan result.
pub struct ScanForward<'a> {
    pub action: &'a str,
    pub uuid: &'a str,
    pub result: &'a Json,
}

/// Reads a scan result on `send.scan.>`: its string `action` and `uuid` and
/// its `result`; `None` when one is missing.
pub fn scan_forward<'a>(json: &'a Json) -> (r: Option<ScanForward<'a>>)
    ensures
        match (json.field_text("action"@), json.field_text("uuid"@), json.field("result"@)) {
            (Some(a), Some(u), Some(res)) => r matches Some(f) && f.action@ == a && f.uuid@ == u
                && *f.result == res,
            _ => r is None,
        },
{
    let action = json.get_str("action");
    let uuid = json.get_str("uuid");
    let result = json.get("result");
    match (action, uuid, result) {
        (Some(a), Some(u), Some(res)) => Some(ScanForward { action: a, uuid: u, result: res }),
        _ => None,
    }
}

/// Why a reply of the central server yields no token.
#[derive(Clone, Copy, PartialEq, Eq, Structural, Debug)]
pub enum TokenError {
    /// The reply is not JSON.
    InvalidJson,
}

/// The view of an optional string.
pub open spec fn opt_string(o: Option<String>) -> Option<Seq<char>> {
    match o {
        Some(s) => Some(s@),
        None => None,
    }
}

/// Reads the central server's reply to a token request at `now`: the access
/// token and when it expires.
pub fn token_from_response(text: &str, now: i64) -> (r: Result<(String, Option<String>), TokenError>)
    ensures
        match json_text_value(text@) {
            None => r is Err,
            Some(j) => r matches Ok((t, e)) && t@ == grant_token(j) && opt_string(e)
                == expiration_text(now, grant_expires(j)),
        },
{
    match parse_json(text) {
        None => Err(TokenError::InvalidJson),
        Some(j) => {
            let grant = token_grant(&j);
            let expiration = token_expiration(now, grant.expires_in);
            Ok((grant.access_token, expiration))
        },
    }
}

/// What a handler that needs the access token learns, step by step.
pub enum AccessTokenEvent<'a> {
    /// The stored access token was read; `None` when there is none.
    Stored(Option<&'a str>),
    /// A new token was asked of the central server: its reply, `None` when
    /// the request failed.
    Fetched(Option<&'a str>),
    /// The new token was saved and read back; `None` when it is not found.
    Reread(Option<&'a str>),
}

/// What a handler that needs the access token does next.
pub enum AccessTokenAction {
    /// Send with this token.
    Use(String),
    /// Ask the central server for a new token.
    Fetch,
    /// Save this token with its expiration, then read the stored token back.
    Save { access_token: String, expiration: Option<String> },
    /// The central server's reply is not JSON: stop with an error.
    Fail,
}

/// The text of an optional token, empty when there is none.
pub open spec fn token_or_empty(t: Option<&str>) -> Seq<char> {
    match t {
        Some(s) => s@,
        None => Seq::<char>::empty(),
    }
}

/// The next step of a handler that needs the access token: use the stored
/// token; without one, fetch a new one, save it with its expiry and read it
/// back; a failed request or a token not found again gives the empty token.
pub open spec fn access_token_step_is(r: AccessTokenAction, event: AccessTokenEvent, now: i64) -> bool {
    match event {
        AccessTokenEvent::Stored(Some(t)) => r matches AccessTokenAction::Use(u) && u@ == t@,
        AccessTokenEvent::Stored(None) => r is Fetch,
        AccessTokenEvent::Fetched(None) => r matches AccessTokenAction::Use(u) && u@
            == Seq::<char>::empty(),
        AccessTokenEvent::Fetched(Some(text)) => match json_text_value(text@) {
            None => r is Fail,
            Some(j) => r matches AccessTokenAction::Save { access_token, expiration }
                && access_token@ == grant_token(j) && opt_string(expiration) == expiration_text(
                now,
                grant_expires(j),
            ),
        },
        AccessTokenEvent::Reread(t) => r matches AccessTokenAction::Use(u) && u@ == token_or_empty(
            t,
        ),
    }
}

fn owned_or_empty(t: Option<&str>) -> (r: String)
    ensures
        r@ == token_or_empty(t),
{
    match t {
        Some(s) => copy_str(s),
        None => String::new(),
    }
}

/// Decides the next step of a handler that needs the access token, at
/// `now` (local wall-clock seconds).
pub fn access_token_step(event: AccessTokenEvent, now: i64) -> (r: AccessTokenAction)
    ensures
        access_token_step_is(r, event, now),
{
    match event {
        AccessTokenEvent::Stored(Some(t)) => AccessTokenAction::Use(copy_str(t)),
        AccessTokenEvent::Stored(None) => AccessTokenAction::Fetch,
        AccessTokenEvent::Fetched(None) => AccessTokenAction::Use(String::new()),
        AccessTokenEvent::Fetched(Some(text)) => match token_from_response(text, now) {
            Err(_) => AccessTokenAction::Fail,
            Ok((access_token, expiration)) => AccessTokenAction::Save { access_token, expiration },
        },
        AccessTokenEvent::Reread(t) => AccessTokenAction::Use(owned_or_empty(t)),
    }
}

/// What the master key handler learns, step by step.
pub enum MasterKeyEvent<'a> {
    /// A master key arrived on `master.key`.
    KeyReceived,
    /// The key was forwarded to the central server; whether an access token
    /// is stored.
    KeyForwarded { token_stored: bool },
    /// A new token was asked of the central server: its reply, `None` when
    /// the request failed.
    TokenFetched(Option<&'a str>),
}

/// What the master key handler does next.
pub enum MasterKeyAction {
    /// Forward the key to the central server; a failure is only reported.
    ForwardKey,
    /// Answer on `bridge.response` with this message.
    Reply(Json),
    /// Ask the central server for a new token.
    FetchToken,
    /// Save this token with its expiration, then answer with this message.
    SaveAndReply { access_token: String, expiration: Option<String>, reply: Json },
    /// Nothing more for this key.
    Done,
    /// The central server's reply is not JSON: stop with an error.
    Fail,
}

/// The next step of the master key handler: forward the key first; with a
/// stored token, answer that it exists; without one, fetch a token, and from
/// its reply save the access token with its expiry and answer with the
/// reply; a failed request ends the key's handling, a reply that is not
/// JSON ends the handler.
pub open spec fn master_key_step_is(r: MasterKeyAction, event: MasterKeyEvent, now: i64) -> bool {
    match event {
        MasterKeyEvent::KeyReceived => r is ForwardKey,
        MasterKeyEvent::KeyForwarded { token_stored } => if token_stored {
            r matches MasterKeyAction::Reply(m) && token_exists_message(m)
        } else {
            r is FetchToken
        },
        MasterKeyEvent::TokenFetched(None) => r is Done,
        MasterKeyEvent::TokenFetched(Some(text)) => match json_text_value(text@) {
            None => r is Fail,
            Some(j) => r matches MasterKeyAction::SaveAndReply { access_token, expiration, reply }
                && access_token@ == grant_token(j) && opt_string(expiration) == expiration_text(
                now,
                grant_expires(j),
            ) && token_saved_message(reply, text@),
        },
    }
}

/// Decides the next step of the master key handler, at `now` (local
/// wall-clock seconds).
pub fn master_key_step(event: MasterKeyEvent, now: i64) -> (r: MasterKeyAction)
    ensures
        master_key_step_is(r, event, now),
{
    match event {
        MasterKeyEvent::KeyReceived => MasterKeyAction::ForwardKey,
        MasterKeyEvent::KeyForwarded { token_stored } => if token_stored {
            MasterKeyAction::Reply(token_exists_response())
        } else {
            MasterKeyAction::FetchToken
        },
        MasterKeyEvent::TokenFetched(None) => MasterKeyAction::Done,
        MasterKeyEvent::TokenFetched(Some(text)) => match token_from_response(text, now) {
            Err(_) => MasterKeyAction::Fail,
            Ok((access_token, expiration)) => MasterKeyAction::SaveAndReply {
                access_token,
                expiration,
                reply: token_saved_response(text),
            },
        },
    }
}

/// The fifth sample of a monitoring batch, when the batch is an array that
/// has one; anything but an array counts as an empty batch.
pub open spec fn batch_sample(batch: Option<Json>) -> Option<Json> {
    match batch {
        Some(Json::Arr(items)) => if items@.len() > 4 {
            Some(items@[4])
        } else {
            None
        },
        _ => None,
    }
}

/// The sample that device checks compare against, read from the payload of
/// a message on `monitor.data`; without one the batch is not sent on.
pub fn monitor_batch_sample(batch_text: &str) -> (r: Option<Json>)
    ensures
        r == batch_sample(json_text_value(batch_text@)),
{
    match parse_json(batch_text) {
        Some(Json::Arr(mut items)) => if items.len() > 4 {
            Some(items.swap_remove(4))
        } else {
            None
        },
        _ => None,
    }
}

/// What the bridge does with the monitoring server's reply to a batch.
pub enum MonitorReplyAction {
    /// The batch has no fifth sample: it is not sent, and nothing follows.
    NoSample,
    /// The reply is not JSON or has no string `action`: nothing to do.
    Ignore,
    /// Send this answer to a device check to the monitoring server.
    SendVerification(Json),
    /// Forward the reply to the collector on this subject.
    Forward(String, Json),
}

impl MonitorReplyAction {
    /// The reply is forwarded unchanged on `scan.<action>`.
    pub open spec fn forwards(self, action: Seq<char>, reply: Json) -> bool {
        self matches MonitorReplyAction::Forward(subject, m) && subject@ == "scan."@ + action && m
            == reply
    }
}

/// The bridge's answer to a monitoring server reply: a device check against
/// the batch's fifth sample for `verify_disk_existence` and
/// `verify_nic_existence`, otherwise the reply forwarded on
/// `scan.<action>`.
pub open spec fn monitor_reply_is(r: MonitorReplyAction, batch: Option<Json>, reply: Option<Json>) -> bool {
    match batch_sample(batch) {
        None => r is NoSample,
        Some(sample) => match reply {
            None => r is Ignore,
            Some(j) => match j.field_text("action"@) {
                None => r is Ignore,
                Some(a) => if a == "verify_disk_existence"@ {
                    r matches MonitorReplyAction::SendVerification(v) && verification_answer(
                        v,
                        "disk_monitoring"@,
                        "disk_uuid"@,
                        sample,
                        j,
                    )
                } else if a == "verify_nic_existence"@ {
                    r matches MonitorReplyAction::SendVerification(v) && verification_answer(
                        v,
                        "nic_monitoring"@,
                        "nic_uuid"@,
                        sample,
                        j,
                    )
                } else {
                    r matches MonitorReplyAction::Forward(s, m) && s@ == "scan."@ + a && m == j
                },
            },
        },
    }
}

/// A uuid is listed when some entry carries it under `uuid_key`.
proof fn lemma_listed_uuids(items: Seq<Json>, uuid_key: Seq<char>, u: Seq<char>)
    ensures
        listed_uuids(items, uuid_key).contains(u) <==> exists|k: int|
            0 <= k < items.len() && (#[trigger] items[k]).field_text(uuid_key) == Some(u),
    decreases items.len(),
{
    if items.len() > 0 {
        let rest = items.drop_first();
        lemma_listed_uuids(rest, uuid_key, u);
        let l = listed_uuids(items, uuid_key);
        let lr = listed_uuids(rest, uuid_key);
        if l.contains(u) {
            let m = choose|m: int| 0 <= m < l.len() && l[m] == u;
            match items[0].field_text(uuid_key) {
                Some(t) => {
                    if m == 0 {
                        assert(items[0].field_text(uuid_key) == Some(u));
                    } else {
                        assert(lr[m - 1] == u);
                        let k = choose|k: int| 0 <= k < rest.len() && (#[trigger] rest[k]).field_text(uuid_key) == Some(u);
                        assert(items[k + 1] == rest[k]);
                    }
                },
                None => {
                    assert(lr.contains(u));
                    let k = choose|k: int| 0 <= k < rest.len() && (#[trigger] rest[k]).field_text(uuid_key) == Some(u);
                    assert(items[k + 1] == rest[k]);
                },
            }
        }
        if exists|k: int| 0 <= k < items.len() && (#[trigger] items[k]).field_text(uuid_key) == Some(u) {
            let k = choose|k: int| 0 <= k < items.len() && (#[trigger] items[k]).field_text(uuid_key) == Some(u);
            match items[0].field_text(uuid_key) {
                Some(t) => {
                    if k == 0 {
                        assert(l[0] == u);
                    } else {
                        assert(rest[k - 1] == items[k]);
                        let m = choose|m: int| 0 <= m < lr.len() && lr[m] == u;
                        assert(l[m + 1] == u);
                    }
                },
                None => {
                    assert(rest[k - 1] == items[k]);
                },
            }
        }
    }
}

/// Whether a sample lists `u` under `uuid_key` in its `monitoring_key` list.
pub open spec fn sample_lists(sample: Json, monitoring_key: Seq<char>, uuid_key: Seq<char>, u: Seq<char>) -> bool {
    match sample.field_items(monitoring_key) {
        Some(items) => exists|k: int|
            0 <= k < items.len() && (#[trigger] items[k]).field_text(uuid_key) == Some(u),
        None => false,
    }
}

/// The answer to a device check of the given kind: its uuid member, its
/// device member and whether the device exists, which holds exactly when
/// the sample and the reply name the same device and the sample lists the
/// reply's uuid among the devices of that kind it monitors.
pub open spec fn check_answer(
    v: Json,
    sample: Json,
    reply: Json,
    monitoring_key: Seq<char>,
    uuid_key: Seq<char>,
) -> bool {
    v matches Json::Obj(e) && e@.len() == 4 && e@[1].0@ == uuid_key && e@[1].1.text() == Some(
        text_or_unknown(reply.field_text(uuid_key)),
    ) && e@[2].0@ == "device_uuid"@ && e@[2].1.text() == Some(
        text_or_unknown(reply.field_text("device_uuid"@)),
    ) && e@[3].0@ == "exists"@ && e@[3].1 == Json::Bool(
        sample.field_text("device_uuid"@) == reply.field_text("device_uuid"@) && (reply.field_text(
            uuid_key,
        ) matches Some(u) && sample_lists(sample, monitoring_key, uuid_key, u)),
    )
}

/// A disk check is answered against the disks that the batch's fifth
/// sample monitors, an interface check against the interfaces it monitors,
/// and any other action is forwarded on `scan.<action>` unchanged.
pub proof fn lemma_monitor_checks(r: MonitorReplyAction, batch: Option<Json>, sample: Json, reply: Json)
    requires
        batch_sample(batch) == Some(sample),
        monitor_reply_is(r, batch, Some(reply)),
    ensures
        reply.field_text("action"@) == Some("verify_disk_existence"@) ==> (
        r matches MonitorReplyAction::SendVerification(v) && check_answer(
            v,
            sample,
            reply,
            "disk_monitoring"@,
            "disk_uuid"@,
        )),
        reply.field_text("action"@) == Some("verify_nic_existence"@) ==> (
        r matches MonitorReplyAction::SendVerification(v) && check_answer(
            v,
            sample,
            reply,
            "nic_monitoring"@,
            "nic_uuid"@,
        )),
        forall|a: Seq<char>|
            reply.field_text("action"@) == Some(a) && a != "verify_disk_existence"@ && a
                != "verify_nic_existence"@ ==> (#[trigger] r.forwards(a, reply)),
{
    reveal_strlit("verify_disk_existence");
    reveal_strlit("verify_nic_existence");
    assert("verify_disk_existence"@.len() == 21);
    assert("verify_nic_existence"@.len() == 20);
    match reply.field_text("action"@) {
        Some(a) => {
            if a == "verify_disk_existence"@ || a == "verify_nic_existence"@ {
                let (mk, uk) = if a == "verify_disk_existence"@ {
                    ("disk_monitoring"@, "disk_uuid"@)
                } else {
                    ("nic_monitoring"@, "nic_uuid"@)
                };
                if let Some(u) = reply.field_text(uk) {
                    lemma_listed_uuids(items_or_none(sample.field_items(mk)), uk, u);
                }
            }
        },
        None => {},
    }
}

/// Decides what to do with the monitoring server's reply `reply_text` to
/// the batch `batch_text`.
pub fn monitor_reply_action(batch_text: &str, reply_text: &str) -> (r: MonitorReplyAction)
    ensures
        monitor_reply_is(r, json_text_value(batch_text@), json_text_value(reply_text@)),
{
    let sample = match monitor_batch_sample(batch_text) {
        Some(s) => s,
        None => {
            return MonitorReplyAction::NoSample;
        },
    };
    let reply = match parse_json(reply_text) {
        Some(j) => j,
        None => {
            return MonitorReplyAction::Ignore;
        },
    };
    match monitor_response_route(&reply) {
        MonitorRoute::VerifyDisk => MonitorReplyAction::SendVerification(
            handle_verification("disk_monitoring", "disk_uuid", &sample, &reply),
        ),
        MonitorRoute::VerifyNic => MonitorReplyAction::SendVerification(
            handle_verification("nic_monitoring", "nic_uuid", &sample, &reply),
        ),
        MonitorRoute::Publish(subject) => MonitorReplyAction::Forward(subject, reply),
        MonitorRoute::Ignore => MonitorReplyAction::Ignore,
    }
}

} // verus!
