//! A chat completion request, on its way to the message interface.

use vstd::prelude::*;

use crate::admin::model_mapping::{MappingView, ModelMappingManager};
use crate::anthropic::types::{MessagesRequest, RequestView};
use crate::json::Json;
use crate::openai::handlers::{apply_model_mapping, mapped_model};
use crate::openai::parse::{
    candidate_uuid, first_some, is_session_name, resolve_session_metadata, session_user, user_of,
};
use crate::openai::types::{
    chat_to_anthropic, chat_views, conversion_fault, converted, error_json, fills_ids,
    openai_error, serving_model, ChatCompletionRequest,
};
use crate::text::{opt_str_view, opt_view};

verus! {

broadcast use vstd::string::group_string_axioms;

/// The headers that may tell the session of a request.
pub struct SessionHeaders<'a> {
    /// `x-session-affinity`.
    pub session_affinity: Option<&'a str>,
    /// `x-client-request-id`.
    pub client_request_id: Option<&'a str>,
    /// `session_id`.
    pub session_id: Option<&'a str>,
}

/// A request for the message interface, and what its answer is converted by.
pub struct PreparedChat {
    pub request: MessagesRequest,
    /// The model that serves the request.
    pub model: String,
    /// The answer is a stream.
    pub stream: bool,
    /// The stream tells of the tokens that were used.
    pub include_usage: bool,
}

/// The sessions that a request may name, in the order in which they count.
pub open spec fn named_sessions(key: Option<String>, headers: SessionHeaders) -> Seq<
    Option<Seq<char>>,
> {
    seq![
        candidate_uuid(opt_view(key)),
        candidate_uuid(opt_str_view(headers.session_affinity)),
        candidate_uuid(opt_str_view(headers.client_request_id)),
        candidate_uuid(opt_str_view(headers.session_id)),
    ]
}

/// What preparing a request comes to: the request with its model mapped, for the
/// session that it names, or the error for the client.
pub open spec fn prepared(
    req: ChatCompletionRequest,
    mapping: Option<Map<Seq<char>, MappingView>>,
    sessions: Seq<Option<Seq<char>>>,
    family: Seq<char>,
    fresh: Seq<Seq<Seq<char>>>,
    r: Result<PreparedChat, Json>,
) -> bool {
    match r {
        Ok(p) => {
            &&& conversion_fault(req, fresh) is None
            &&& p.request@ == (RequestView {
                model: serving_model(mapped_model(mapping, req.model@), family),
                ..converted(req, fresh, family)
            })
            &&& user_of(p.request.metadata) == session_user(sessions)
            &&& p.request.metadata is Some <==> first_some(sessions) is Some
            &&& user_of(p.request.metadata) matches Some(user) ==> is_session_name(user)
            &&& p.model@ == p.request.model@
            &&& p.stream == req.stream
            &&& p.include_usage == (req.stream_options matches Some(o) && o.include_usage)
        },
        Err(j) => conversion_fault(req, fresh) matches Some(message) && j@ == error_json(
            message,
            "invalid_request_error"@,
        ),
    }
}

/// Prepares a request: its model is mapped, its session is looked up, and it is
/// converted.
pub fn prepare_chat(
    req: ChatCompletionRequest,
    mappings: Option<&ModelMappingManager>,
    headers: &SessionHeaders<'_>,
    family: &str,
) -> (r: Result<PreparedChat, Json>)
    requires
        mappings matches Some(m) ==> m.wf(),
    ensures
        exists|fresh: Seq<Seq<Seq<char>>>| #[trigger]
            fills_ids(chat_views(req.messages@), fresh) && prepared(
                req,
                match mappings {
                    Some(m) => Some(m@),
                    None => None,
                },
                named_sessions(req.prompt_cache_key, *headers),
                family@,
                fresh,
                r,
            ),
{
    let ghost asked = req;
    let mut req = req;
    apply_model_mapping(mappings, &mut req.model);
    let include_usage = match &req.stream_options {
        Some(o) => o.include_usage,
        None => false,
    };
    let key = match &req.prompt_cache_key {
        Some(k) => Some(k.as_str()),
        None => None,
    };
    let metadata = resolve_session_metadata(
        key,
        headers.session_affinity,
        headers.client_request_id,
        headers.session_id,
    );
    let result = chat_to_anthropic(&req, metadata, family);
    let ghost fresh = choose|fresh: Seq<Seq<Seq<char>>>| #[trigger]
        fills_ids(chat_views(req.messages@), fresh) && crate::openai::types::conversion(
            req,
            metadata,
            fresh,
            family@,
            result,
        );
    assert(fills_ids(chat_views(asked.messages@), fresh));
    match result {
        Ok(c) => {
            let request = c.anthropic;
            let model = request.model.clone();
            let stream = request.stream;
            Ok(PreparedChat { request, model, stream, include_usage })
        },
        Err(e) => Err(openai_error(e.message.as_str(), "invalid_request_error")),
    }
}

} // verus!
