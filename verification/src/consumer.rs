//! The change consumer: decoding stream records and applying them to the index.
//!
//! The event loop around it polls an external shard for batches of records.
//! Everything the loop decides is here: how a record's bytes become a change
//! event, how the event mutates the parameter index, which single service is
//! re-rendered, and when the loop stops. The caller performs the polling, the
//! file writes and the inter-poll sleep, and hands every outcome back in.
//!
//! A record that is not UTF-8 or not well-formed JSON aborts the current poll
//! cycle; an event whose fields are structurally absent merely fails to
//! resolve and is skipped, the intended tolerance for unrelated event shapes
//! sharing the stream.

use vstd::prelude::*;

use crate::config::{Config, Service, ServiceView, ConfigView};
use crate::error::DaemonError;
use crate::index::{ChangeEvent, ChangeEventView, apply_event, applied_first_match,
    some_param_matches};
use crate::render::{RenderStep, plan_one, step_matches};
use crate::value::Value;

verus! {

/// What UTF-8 decoding makes of a record's bytes: `None` when they are not
/// valid UTF-8, otherwise the decoded text.
pub uninterp spec fn utf8_decode_spec(bytes: Seq<u8>) -> Option<Seq<char>>;

/// What the event decoder makes of a record's text: `None` when the text is
/// not well-formed JSON; otherwise the change event read at the fixed paths
/// requestParameters.name and requestParameters.value. Structurally absent
/// fields yield an event with an empty key path, not a failure.
pub uninterp spec fn event_decode_spec(text: Seq<char>) -> Option<ChangeEventView>;

/// What a record's raw bytes decode to, end to end.
pub open spec fn record_event_spec(data: Seq<u8>) -> Option<ChangeEventView> {
    match utf8_decode_spec(data) {
        Some(text) => event_decode_spec(text),
        None => None,
    }
}

/// Relies on str::from_utf8: whether the bytes are valid UTF-8, and the text
/// they decode to, depend on the bytes alone.
#[verifier::external_body]
fn decode_utf8(data: &Vec<u8>) -> (r: Result<String, ()>)
    ensures
        r matches Ok(t) ==> utf8_decode_spec(data@) == Some(t@),
        r is Ok <==> utf8_decode_spec(data@) is Some,
{
    match core::str::from_utf8(data.as_slice()) {
        Ok(t) => Ok(t.to_string()),
        Err(_) => Err(()),
    }
}

/// Relies on serde_json::from_str and serde_json::Value's indexing: whether
/// the text parses as JSON, and the values found at requestParameters.name and
/// requestParameters.value, depend on the text alone. A missing or non-string
/// name gives an empty key path; a value that is not a JSON scalar, or a
/// number outside i64, is carried as its compact JSON text.
#[verifier::external_body]
fn extract_event(text: &str) -> (r: Result<ChangeEvent, ()>)
    ensures
        r matches Ok(ev) ==> event_decode_spec(text@) == Some(ev@),
        r is Ok <==> event_decode_spec(text@) is Some,
{
    let parsed: serde_json::Value = serde_json::from_str(text).map_err(|_| ())?;
    let key_path = parsed["requestParameters"]["name"].as_str().unwrap_or("").to_string();
    let value = match &parsed["requestParameters"]["value"] {
        serde_json::Value::Null => Value::Null,
        serde_json::Value::Bool(b) => Value::Bool(*b),
        serde_json::Value::Number(n) => {
            n.as_i64().map_or_else(|| Value::Text(n.to_string()), Value::Int)
        },
        serde_json::Value::String(s) => Value::Text(s.clone()),
        other => Value::Text(other.to_string()),
    };
    Ok(ChangeEvent { key_path, value })
}

/// Decodes one raw stream record into a change event, or says which of the two
/// decode steps rejected it.
pub fn decode_event(data: &Vec<u8>) -> (r: Result<ChangeEvent, DaemonError>)
    ensures
        r matches Ok(ev) ==> record_event_spec(data@) == Some(ev@),
        r is Ok <==> record_event_spec(data@) is Some,
        (r matches Err(e) && e is RecordUtf8Decode) <==> utf8_decode_spec(data@) is None,
        (r matches Err(e) && e is RecordJsonDecode) <==> (utf8_decode_spec(data@) is Some
            && record_event_spec(data@) is None),
{
    let text = match decode_utf8(data) {
        Ok(t) => t,
        Err(_) => {
            return Err(DaemonError::RecordUtf8Decode);
        },
    };
    match extract_event(text.as_str()) {
        Ok(ev) => Ok(ev),
        Err(_) => Err(DaemonError::RecordJsonDecode),
    }
}

/// What one applied record leaves behind when its event resolved: some service
/// `i` had the first matching parameter overwritten, and the result is either
/// the one-service render step for the updated service, or `SettingNotFound`
/// when no setting carries that service's name (the index mutation stays).
pub open spec fn applied_outcome(
    pre: Seq<ServiceView>,
    post: Seq<ServiceView>,
    cfg: ConfigView,
    ev: ChangeEventView,
    r: Result<Option<RenderStep>, DaemonError>,
) -> bool {
    exists|i: int|
        #![auto]
        applied_first_match(pre, post, ev.key_path, ev.value, i) && (match r {
            Ok(step_opt) => step_opt matches Some(step) && crate::config::has_setting_for(
                cfg,
                post[i].service_name,
            ) && step_matches(step@, seq![post[i]], cfg, 0),
            Err(e) => !crate::config::has_setting_for(cfg, post[i].service_name) && (
            e matches DaemonError::SettingNotFound { setting } && setting@
                == post[i].service_name),
        })
}

/// The change consumer's state: the static configuration and the parameter
/// index it exclusively owns and mutates.
pub struct ChangeConsumer {
    pub config: Config,
    pub services: Vec<Service>,
}

impl ChangeConsumer {
    /// Applies one raw stream record: decode, resolve, mutate, and plan the
    /// re-render scoped to only the owning service.
    ///
    /// `Ok(None)` is the pure no-op: the record decoded but matched no managed
    /// parameter (or carried no recognisable fields). `Ok(Some(step))` is the
    /// one-service render plan after the mutation. Decode errors abort the
    /// cycle with the index untouched.
    pub fn apply_record(&mut self, data: &Vec<u8>) -> (r: Result<Option<RenderStep>, DaemonError>)
        ensures
            final(self).config@ == old(self).config@,
            (r matches Err(e) && e is RecordUtf8Decode) <==> utf8_decode_spec(data@) is None,
            (r matches Err(e) && e is RecordJsonDecode) <==> (utf8_decode_spec(data@) is Some
                && record_event_spec(data@) is None),
            record_event_spec(data@) is None ==> final(self).services.deep_view() == old(
                self,
            ).services.deep_view(),
            record_event_spec(data@) matches Some(ev) ==> (if !some_param_matches(
                old(self).services.deep_view(),
                ev.key_path,
            ) {
                r matches Ok(o) && o is None && final(self).services.deep_view() == old(
                    self,
                ).services.deep_view()
            } else {
                applied_outcome(
                    old(self).services.deep_view(),
                    final(self).services.deep_view(),
                    old(self).config@,
                    ev,
                    r,
                )
            }),
    {
        let event = match decode_event(data) {
            Ok(ev) => ev,
            Err(e) => {
                return Err(e);
            },
        };
        let ghost pre = self.services.deep_view();
        match apply_event(&mut self.services, &event) {
            None => Ok(None),
            Some(i) => {
                proof {
                    let postdv = self.services.deep_view();
                    assert(applied_first_match(pre, postdv, event.key_path@, event.value@,
                        i as int));
                    let j = choose|j: int|
                        crate::index::is_first_match(pre, event.key_path@, i as int, j) && postdv
                            == crate::index::updated_at(pre, i as int, j, event.value@);
                    assert(crate::index::is_first_match(pre, event.key_path@, i as int, j));
                    assert(0 <= i < pre.len());
                    assert(postdv.len() == pre.len());
                    assert(self.services@.len() == postdv.len());
                    assert(postdv[i as int] == self.services@[i as int].deep_view());
                }
                match plan_one(&self.services[i], &self.config) {
                    Ok(step) => {
                        let r = Ok(Some(step));
                        proof {
                            let postdv = self.services.deep_view();
                            assert(seq![self.services@[i as int].deep_view()] =~= seq![
                                postdv[i as int],
                            ]);
                            assert(applied_first_match(pre, postdv, event@.key_path, event@.value,
                                i as int) && (match r {
                                Ok(step_opt) => step_opt matches Some(step2)
                                    && crate::config::has_setting_for(
                                    self.config@,
                                    postdv[i as int].service_name,
                                ) && step_matches(step2@, seq![postdv[i as int]], self.config@, 0),
                                Err(e2) => false,
                            }));
                            assert(applied_outcome(pre, postdv, self.config@, event@, r));
                        }
                        r
                    },
                    Err(e) => {
                        let r = Err::<Option<RenderStep>, DaemonError>(e);
                        proof {
                            let postdv = self.services.deep_view();
                            assert(applied_first_match(pre, postdv, event@.key_path, event@.value,
                                i as int) && (match r {
                                Ok(step_opt) => false,
                                Err(e2) => !crate::config::has_setting_for(
                                    self.config@,
                                    postdv[i as int].service_name,
                                ) && (e2 matches DaemonError::SettingNotFound { setting }
                                    && setting@ == postdv[i as int].service_name),
                            }));
                            assert(applied_outcome(pre, postdv, self.config@, event@, r));
                        }
                        r
                    },
                }
            },
        }
    }
}

/// What the loop does after one poll cycle: keep consuming from the next
/// position, or stop because the shard is closed.
#[derive(Debug, PartialEq, Eq)]
pub enum LoopDecision {
    Continue(String),
    Stop,
}

/// Decides the loop's fate from the poll's next-position token: a missing
/// token means the shard is closed, a clean stop rather than an error.
pub fn next_decision(next_token: Option<String>) -> (r: LoopDecision)
    ensures
        r is Stop <==> next_token is None,
        next_token matches Some(t) ==> (r matches LoopDecision::Continue(t2) && t2@ == t@),
{
    match next_token {
        Some(t) => LoopDecision::Continue(t),
        None => LoopDecision::Stop,
    }
}

} // verus!
