//! What the provider of the service decides beside its retries: the endpoint
//! of a credential, whose profile is looked up, the model that a request is
//! for, and what tests and tool calls come to.

use std::collections::HashSet;

use vstd::prelude::*;

use crate::ids::{hyphenated_uuid, is_random_uuid};
use crate::json::{json_parse, parse_json, Json, JsonView};
use crate::kiro::call::{is_success, Outcome};
use crate::kiro::error::CallError;
use crate::kiro::parser::decoder::frames_in;
use crate::kiro::snippet::{excerpt, readable_response_snippet_from_bytes, told_all};
use crate::text::{concat, decimal, opt_view, str_eq, u64_text, views};

verus! {

broadcast use {vstd::string::group_string_axioms, vstd::std_specs::hash::group_hash_axioms};

/// The names of the endpoints that exist.
#[derive(Debug)]
pub struct EndpointRegistry {
    names: Vec<String>,
    default_endpoint: String,
}

/// The error for an endpoint that does not exist.
pub open spec fn unknown_endpoint(name: Seq<char>) -> Seq<char> {
    "未知端点: "@ + name
}

impl EndpointRegistry {
    /// The names of the endpoints.
    pub closed spec fn names(&self) -> Seq<Seq<char>> {
        views(self.names@)
    }

    /// The endpoint of credentials that name none.
    pub closed spec fn default_name(&self) -> Seq<char> {
        self.default_endpoint@
    }

    /// The endpoint of credentials that name none exists.
    pub open spec fn wf(&self) -> bool {
        self.names().contains(self.default_name())
    }

    /// The registry of some endpoints, one of which is the default.
    pub fn new(names: Vec<String>, default_endpoint: String) -> (r: Self)
        requires
            views(names@).contains(default_endpoint@),
        ensures
            r.wf(),
            r.names() == views(names@),
            r.default_name() == default_endpoint@,
    {
        EndpointRegistry { names, default_endpoint }
    }

    /// Tests whether an endpoint exists.
    pub fn contains(&self, name: &str) -> (r: bool)
        ensures
            r == self.names().contains(name@),
    {
        let mut i: usize = 0;
        while i < self.names.len()
            invariant
                i <= self.names@.len(),
                forall|k: int| 0 <= k < i ==> #[trigger] self.names()[k] != name@,
            decreases self.names@.len() - i,
        {
            if str_eq(self.names[i].as_str(), name) {
                assert(self.names()[i as int] == name@);
                return true;
            }
            i += 1;
        }
        false
    }

    /// The endpoint of a credential, which may name one.
    pub fn endpoint_for<'a>(&'a self, named: Option<&'a str>) -> (r: Result<&'a str, String>)
        ensures
            ({
                let name = match named {
                    Some(n) => n@,
                    None => self.default_name(),
                };
                match r {
                    Ok(n) => n@ == name && self.names().contains(name),
                    Err(e) => !self.names().contains(name) && e@ == unknown_endpoint(name),
                }
            }),
            self.wf() && named is None ==> r is Ok,
    {
        let name = match named {
            Some(n) => n,
            None => self.default_endpoint.as_str(),
        };
        if self.contains(name) {
            Ok(name)
        } else {
            Err(concat("未知端点: ", name))
        }
    }

    /// The endpoints of a chain that exist, in its order.
    pub fn fallbacks(&self, chain: &Vec<String>) -> (r: Vec<String>)
        ensures
            r@ == chain@.filter(|n: String| self.names().contains(n@)),
    {
        let mut out: Vec<String> = Vec::new();
        let mut i: usize = 0;
        let ghost exists_there = |n: String| self.names().contains(n@);
        proof {
            reveal(Seq::filter);
            assert(chain@.take(0) =~= Seq::<String>::empty());
        }
        while i < chain.len()
            invariant
                i <= chain@.len(),
                exists_there == (|n: String| self.names().contains(n@)),
                out@ == chain@.take(i as int).filter(exists_there),
            decreases chain@.len() - i,
        {
            proof {
                reveal(Seq::filter);
                assert(chain@.take(i + 1).drop_last() =~= chain@.take(i as int));
            }
            if self.contains(chain[i].as_str()) {
                out.push(chain[i].clone());
            }
            i += 1;
        }
        assert(chain@.take(chain@.len() as int) =~= chain@);
        out
    }
}

/// The credentials whose profile was looked up, with a definite answer.
#[derive(Debug)]
pub struct ProfileLookups {
    attempted: HashSet<u64>,
}

/// What a profile lookup comes to: the name of the profile if one was found, or
/// the 429 that the client is to hear of.
pub open spec fn lookup_result(result: Result<Option<String>, CallError>) -> Result<
    Option<String>,
    CallError,
> {
    match result {
        Ok(found) => Ok(found),
        Err(CallError::RateLimit(e)) => Err(CallError::RateLimit(e)),
        Err(_) => Ok(None),
    }
}

impl ProfileLookups {
    pub closed spec fn view(&self) -> Set<u64> {
        self.attempted@
    }

    pub fn new() -> (r: Self)
        ensures
            r@ == Set::<u64>::empty(),
    {
        ProfileLookups { attempted: HashSet::new() }
    }

    /// The credentials to look for among those that exist: all of them once there
    /// are more than exist, as some must be gone.
    pub fn stale_candidates(&self, live: usize) -> (r: Option<Vec<u64>>)
        ensures
            match r {
                Some(ids) => self@.len() > live && ids@.to_set() == self@ && ids@.no_duplicates(),
                None => self@.len() <= live,
            },
    {
        if self.attempted.len() <= live {
            return None;
        }
        let mut ids: Vec<u64> = Vec::new();
        let it = self.attempted.iter();
        let ghost all = vstd::std_specs::iter::IteratorSpec::remaining(&it);
        for id in iter: it
            invariant
                iter.seq() == all,
                ids@ == all.take(iter.index() as int).unref(),
        {
            ids.push(*id);
            assert(all.take(iter.index() + 1) =~= all.take(iter.index() as int).push(id));
            assert(ids@ =~= all.take(iter.index() + 1).unref());
        }
        proof {
            assert(all.take(all.len() as int) =~= all);
            assert(ids@ =~= all.unref());
            assert forall|i: int, j: int| 0 <= i < j < ids@.len() implies ids@[i] != ids@[j] by {
                assert(all[i] != all[j]);
            }
        }
        Some(ids)
    }

    /// Forgets credentials that are gone.
    pub fn forget(&mut self, dead: &Vec<u64>)
        ensures
            final(self)@ == old(self)@.difference(dead@.to_set()),
    {
        let mut i: usize = 0;
        assert(self@.difference(dead@.take(0).to_set()) =~= self@);
        while i < dead.len()
            invariant
                i <= dead@.len(),
                self@ == old(self)@.difference(dead@.take(i as int).to_set()),
            decreases dead@.len() - i,
        {
            let id: u64 = dead[i];
            self.attempted.remove(&id);
            proof {
                assert(dead@.take(i + 1) =~= dead@.take(i as int).push(id));
                assert forall|x: u64| dead@.take(i + 1).contains(x) <==> (dead@.take(
                    i as int,
                ).contains(x) || x == id) by {
                    if dead@.take(i as int).contains(x) {
                        let k = dead@.take(i as int).index_of(x);
                        assert(dead@.take(i + 1)[k] == x);
                    }
                    assert(dead@.take(i + 1)[i as int] == id);
                }
                assert(self@ =~= old(self)@.difference(dead@.take(i + 1).to_set()));
            }
            i += 1;
        }
        assert(dead@.take(dead@.len() as int) =~= dead@);
    }

    /// Tests whether the profile of a credential is to be looked up: not for an
    /// API key, not where a real profile is known, and once only.
    pub fn should_resolve(&self, id: u64, is_api_key: bool, profile_known: bool) -> (r: bool)
        ensures
            r == (!is_api_key && !profile_known && !self@.contains(id)),
    {
        !is_api_key && !profile_known && !self.attempted.contains(&id)
    }

    /// Takes the outcome of a lookup. A definite one is remembered. A 429 is
    /// handed on; any other failure may be made good by a later lookup.
    pub fn resolved(&mut self, id: u64, result: Result<Option<String>, CallError>) -> (r: Result<
        Option<String>,
        CallError,
    >)
        ensures
            r == lookup_result(result),
            final(self)@ == (if result is Ok {
                old(self)@.insert(id)
            } else {
                old(self)@
            }),
    {
        match result {
            Ok(found) => {
                self.attempted.insert(id);
                Ok(found)
            },
            Err(CallError::RateLimit(e)) => Err(CallError::RateLimit(e)),
            Err(_) => Ok(None),
        }
    }
}

/// The model that a request body names.
pub open spec fn named_model(j: JsonView) -> Option<Seq<char>> {
    match j.get2("conversationState"@, "currentMessage"@) {
        Some(message) => message.get2_str("userInputMessage"@, "modelId"@),
        None => None,
    }
}

/// The model that a request body names.
pub fn model_in_request(j: &Json) -> (r: Option<String>)
    ensures
        opt_view(r) == named_model(j@),
{
    match j.get2("conversationState", "currentMessage") {
        Some(message) => match message.get2_str("userInputMessage", "modelId") {
            Some(t) => Some(t.to_owned()),
            None => None,
        },
        None => None,
    }
}

/// The model that the text of a request body names, if it is JSON.
pub fn extract_model_from_request(request_body: &str) -> (r: Option<String>)
    ensures
        opt_view(r) == (match json_parse(request_body@) {
            Ok(j) => named_model(j),
            Err(_) => None,
        }),
{
    match parse_json(request_body) {
        Ok(j) => model_in_request(&j),
        Err(_) => None,
    }
}

/// The request that a credential is tested with.
#[derive(Debug, PartialEq, Eq)]
pub struct TestRequest {
    pub conversation_id: String,
    pub agent_continuation_id: String,
    pub agent_task_type: String,
    pub chat_trigger_type: String,
    /// What the user says.
    pub content: String,
    pub model_id: String,
    pub profile_arn: Option<String>,
}

/// A test with a given conversation and model: the user says hello.
pub open spec fn is_test_request(r: TestRequest, id: Seq<char>, model: Seq<char>) -> bool {
    &&& r.conversation_id@ == id
    &&& r.agent_continuation_id@ == id
    &&& r.agent_task_type@ == "vibe"@
    &&& r.chat_trigger_type@ == "MANUAL"@
    &&& r.content@ == "hello"@
    &&& r.model_id@ == model
    &&& r.profile_arn is None
}

/// The request that a credential is tested with, in a given conversation.
pub fn credential_test_request(conversation_id: String, model: String) -> (r: TestRequest)
    ensures
        is_test_request(r, conversation_id@, model@),
{
    TestRequest {
        conversation_id: conversation_id.clone(),
        agent_continuation_id: conversation_id,
        agent_task_type: "vibe".to_owned(),
        chat_trigger_type: "MANUAL".to_owned(),
        content: "hello".to_owned(),
        model_id: model,
        profile_arn: None,
    }
}

/// The request that a credential is tested with, in a conversation of its own.
pub fn fresh_test_request(model: String) -> (r: TestRequest)
    ensures
        exists|id: Seq<char>| #[trigger] is_random_uuid(id) && is_test_request(r, id, model@),
{
    let id = hyphenated_uuid();
    let ghost drawn = id@;
    let r = credential_test_request(id, model);
    assert(is_random_uuid(drawn) && is_test_request(r, drawn, model@));
    r
}

/// What the test of a credential came to.
#[derive(Debug, PartialEq, Eq)]
pub struct CredentialTestResult {
    pub credential_id: u64,
    pub model: String,
    pub success: bool,
    pub latency_ms: u64,
    pub http_status: Option<u16>,
    pub response_snippet: Option<String>,
    pub error: Option<String>,
}

impl CredentialTestResult {
    /// The request could not be sent.
    pub fn unsent(credential_id: u64, model: String, latency_ms: u64, error: String) -> (r: Self)
        ensures
            r == (CredentialTestResult {
                credential_id,
                model,
                success: false,
                latency_ms,
                http_status: None,
                response_snippet: None,
                error: Some(error),
            }),
    {
        CredentialTestResult {
            credential_id,
            model,
            success: false,
            latency_ms,
            http_status: None,
            response_snippet: None,
            error: Some(error),
        }
    }

    /// An answer came back: a status of 2xx is a success. Of its body so many
    /// characters are shown.
    pub fn answered(
        credential_id: u64,
        model: String,
        latency_ms: u64,
        status: u16,
        body: &[u8],
        limit: usize,
    ) -> (r: Self)
        ensures
            r.credential_id == credential_id,
            r.model == model,
            r.latency_ms == latency_ms,
            r.success == is_success(status),
            r.http_status == Some(status),
            opt_view(r.response_snippet) == excerpt(
                told_all(frames_in(body@)),
                crate::encoding::lossy(body@),
                limit,
            ),
            opt_view(r.error) == (if is_success(status) {
                None
            } else {
                Some("HTTP "@ + decimal(status as nat))
            }),
    {
        let success = 200 <= status && status < 300;
        CredentialTestResult {
            credential_id,
            model,
            success,
            latency_ms,
            http_status: Some(status),
            response_snippet: readable_response_snippet_from_bytes(body, limit),
            error: if success {
                None
            } else {
                Some(concat("HTTP ", u64_text(status as u64).as_str()))
            },
        }
    }
}

/// What the answer of a tool call came to when its caller had looked at it: no
/// fault and a benign one are a success.
pub open spec fn validation_outcome(valid: bool, benign: bool) -> Outcome {
    if valid || benign {
        Outcome::Success
    } else {
        Outcome::Unknown
    }
}

/// How a tool call is traced after its caller had looked at the answer; `fault`
/// is what is wrong with it. The second part is the reason that the trace gives.
pub fn mcp_validation_outcome(fault: Option<&str>, benign: bool, body: &str) -> (r: (
    Outcome,
    Option<String>,
))
    ensures
        r.0 == validation_outcome(fault is None, benign),
        opt_view(r.1) == (if r.0 == Outcome::Success {
            None
        } else {
            Some(fault->0@ + ": "@ + body@)
        }),
{
    match fault {
        Some(e) => if benign {
            (Outcome::Success, None)
        } else {
            let mut text = concat(e, ": ");
            text.push_str(body);
            (Outcome::Unknown, Some(text))
        },
        None => (Outcome::Success, None),
    }
}

} // verus!
