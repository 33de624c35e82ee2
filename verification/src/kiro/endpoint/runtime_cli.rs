//! The endpoint that speaks as the command line client to the runtime servers.
//!
//! Its rate limits are counted apart from those of the `cli` endpoint, so each
//! is what the other falls back to: the same credential, and the same protocol.

use vstd::prelude::*;

use crate::ids::{hyphenated_uuid, is_random_uuid};
use crate::kiro::endpoint::context::{api_region, RequestContext, CLI_ENDPOINT_NAME};
use crate::text::{concat, views};

verus! {

broadcast use vstd::string::group_string_axioms;

/// The name of the endpoint.
pub const RUNTIME_CLI_ENDPOINT_NAME: &'static str = "runtime_cli";

/// The endpoint.
#[derive(Debug, Clone, Copy, PartialEq, Eq)]
pub struct RuntimeCliEndpoint;

/// The server of a region.
pub open spec fn host_of(region: Seq<char>) -> Seq<char> {
    "runtime."@ + region + ".kiro.dev"@
}

/// What both user agents start with.
pub open spec fn agent_start(system: Seq<char>) -> Seq<char> {
    "aws-sdk-rust/1.3.15 ua/2.1 api/codewhispererstreaming/0.1.14474 os/"@ + system
        + " lang/rust/1.92.0 "@
}

/// A header, by name and value.
pub open spec fn pair(name: Seq<char>, value: Seq<char>) -> (Seq<char>, Seq<char>) {
    (name, value)
}

/// The headers of both kinds of request, from the user agents to the token.
pub open spec fn common_headers(ctx: RequestContext, invocation: Seq<char>) -> Seq<
    (Seq<char>, Seq<char>),
> {
    let system = ctx.config.system_version@;
    seq![
        pair("x-amz-user-agent"@, agent_start(system) + "m/F app/AmazonQ-For-CLI"@),
        pair(
            "user-agent"@,
            agent_start(system) + "md/appVersion-"@ + ctx.config.kiro_version@
                + " app/AmazonQ-For-CLI"@,
        ),
        pair("host"@, host_of(api_region(*ctx.credentials, *ctx.config))),
        pair("amz-sdk-invocation-id"@, invocation),
        pair("amz-sdk-request"@, "attempt=1; max=3"@),
        pair("Authorization"@, "Bearer "@ + ctx.token@),
    ]
}

/// The header that tells the kind of credential, where it is not the usual one.
pub open spec fn token_headers(ctx: RequestContext) -> Seq<(Seq<char>, Seq<char>)> {
    if ctx.credentials.api_key {
        seq![pair("tokentype"@, "API_KEY"@)]
    } else if ctx.credentials.external_idp {
        seq![pair("tokentype"@, "EXTERNAL_IDP"@)]
    } else {
        Seq::empty()
    }
}

/// The headers of a chat request.
pub open spec fn api_header_views(ctx: RequestContext, invocation: Seq<char>) -> Seq<
    (Seq<char>, Seq<char>),
> {
    seq![
        pair(
            "x-amz-target"@,
            "AmazonCodeWhispererStreamingService.GenerateAssistantResponse"@,
        ),
        pair("x-amzn-codewhisperer-optout"@, "false"@),
    ] + common_headers(ctx, invocation) + token_headers(ctx)
}

/// The headers of a tool request.
pub open spec fn mcp_header_views(ctx: RequestContext, invocation: Seq<char>) -> Seq<
    (Seq<char>, Seq<char>),
> {
    common_headers(ctx, invocation) + (match ctx.credentials.profile_arn {
        Some(arn) => seq![pair("x-amzn-kiro-profile-arn"@, arn@)],
        None => Seq::empty(),
    }) + token_headers(ctx)
}

pub open spec fn pair_views(list: Seq<(String, String)>) -> Seq<(Seq<char>, Seq<char>)> {
    list.map_values(|h: (String, String)| (h.0@, h.1@))
}

fn put(out: &mut Vec<(String, String)>, name: &str, value: &str)
    ensures
        pair_views(final(out)@) == pair_views(old(out)@).push(pair(name@, value@)),
{
    let ghost before = out@;
    out.push((name.to_owned(), value.to_owned()));
    assert(pair_views(out@) =~= pair_views(before).push(pair(name@, value@)));
}

impl RuntimeCliEndpoint {
    pub fn new() -> (r: Self)
        ensures
            r == RuntimeCliEndpoint,
    {
        RuntimeCliEndpoint
    }

    /// The name of the endpoint.
    pub fn name(&self) -> (r: &'static str)
        ensures
            r@ == "runtime_cli"@,
    {
        RUNTIME_CLI_ENDPOINT_NAME
    }

    /// The endpoints to fall back to.
    pub fn fallback_chain(&self) -> (r: Vec<String>)
        ensures
            views(r@) == seq!["cli"@],
    {
        let mut out: Vec<String> = Vec::new();
        out.push(CLI_ENDPOINT_NAME.to_owned());
        assert(views(out@) =~= seq!["cli"@]);
        out
    }

    /// The type of the request body.
    pub fn content_type(&self) -> (r: &'static str)
        ensures
            r@ == "application/x-amz-json-1.0"@,
    {
        "application/x-amz-json-1.0"
    }

    fn host(&self, ctx: &RequestContext<'_>) -> (r: String)
        ensures
            r@ == host_of(api_region(*ctx.credentials, *ctx.config)),
    {
        let mut out = concat("runtime.", ctx.credentials.effective_api_region(ctx.config));
        out.push_str(".kiro.dev");
        out
    }

    fn agent(&self, ctx: &RequestContext<'_>) -> (r: String)
        ensures
            r@ == agent_start(ctx.config.system_version@),
    {
        let mut out = concat(
            "aws-sdk-rust/1.3.15 ua/2.1 api/codewhispererstreaming/0.1.14474 os/",
            ctx.config.system_version.as_str(),
        );
        out.push_str(" lang/rust/1.92.0 ");
        out
    }

    /// The address of chat requests.
    pub fn api_url(&self, ctx: &RequestContext<'_>) -> (r: String)
        ensures
            r@ == "https://"@ + host_of(api_region(*ctx.credentials, *ctx.config)) + "/"@,
    {
        let mut out = concat("https://", self.host(ctx).as_str());
        out.push_str("/");
        out
    }

    /// The address of tool requests.
    pub fn mcp_url(&self, ctx: &RequestContext<'_>) -> (r: String)
        ensures
            r@ == "https://"@ + host_of(api_region(*ctx.credentials, *ctx.config)) + "/mcp"@,
    {
        let mut out = concat("https://", self.host(ctx).as_str());
        out.push_str("/mcp");
        out
    }

    fn put_common(&self, out: &mut Vec<(String, String)>, ctx: &RequestContext<'_>, invocation: &str)
        ensures
            pair_views(final(out)@) == pair_views(old(out)@) + common_headers(*ctx, invocation@),
    {
        let ghost before = pair_views(out@);
        let mut short = self.agent(ctx);
        short.push_str("m/F app/AmazonQ-For-CLI");
        put(out, "x-amz-user-agent", short.as_str());
        let mut long = self.agent(ctx);
        long.push_str("md/appVersion-");
        long.push_str(ctx.config.kiro_version.as_str());
        long.push_str(" app/AmazonQ-For-CLI");
        put(out, "user-agent", long.as_str());
        put(out, "host", self.host(ctx).as_str());
        put(out, "amz-sdk-invocation-id", invocation);
        put(out, "amz-sdk-request", "attempt=1; max=3");
        put(out, "Authorization", concat("Bearer ", ctx.token).as_str());
        assert(pair_views(out@) =~= before + common_headers(*ctx, invocation@));
    }

    fn put_token(&self, out: &mut Vec<(String, String)>, ctx: &RequestContext<'_>)
        ensures
            pair_views(final(out)@) == pair_views(old(out)@) + token_headers(*ctx),
    {
        let ghost before = pair_views(out@);
        if ctx.credentials.api_key {
            put(out, "tokentype", "API_KEY");
        } else if ctx.credentials.external_idp {
            put(out, "tokentype", "EXTERNAL_IDP");
        }
        assert(pair_views(out@) =~= before + token_headers(*ctx));
    }

    /// The headers of a chat request that goes by a given number.
    pub fn api_headers(&self, ctx: &RequestContext<'_>, invocation: &str) -> (r: Vec<
        (String, String),
    >)
        ensures
            pair_views(r@) == api_header_views(*ctx, invocation@),
    {
        let mut out: Vec<(String, String)> = Vec::new();
        put(
            &mut out,
            "x-amz-target",
            "AmazonCodeWhispererStreamingService.GenerateAssistantResponse",
        );
        put(&mut out, "x-amzn-codewhisperer-optout", "false");
        self.put_common(&mut out, ctx, invocation);
        self.put_token(&mut out, ctx);
        assert(pair_views(out@) =~= api_header_views(*ctx, invocation@));
        out
    }

    /// The headers of a tool request that goes by a given number.
    pub fn mcp_headers(&self, ctx: &RequestContext<'_>, invocation: &str) -> (r: Vec<
        (String, String),
    >)
        ensures
            pair_views(r@) == mcp_header_views(*ctx, invocation@),
    {
        let mut out: Vec<(String, String)> = Vec::new();
        self.put_common(&mut out, ctx, invocation);
        match ctx.credentials.effective_profile_arn() {
            Some(arn) => {
                put(&mut out, "x-amzn-kiro-profile-arn", arn);
            },
            None => {},
        }
        self.put_token(&mut out, ctx);
        assert(pair_views(out@) =~= mcp_header_views(*ctx, invocation@));
        out
    }

    /// The headers of a chat request, which goes by a fresh number.
    pub fn decorate_api(&self, ctx: &RequestContext<'_>) -> (r: Vec<(String, String)>)
        ensures
            exists|invocation: Seq<char>| #[trigger]
                is_random_uuid(invocation) && pair_views(r@) == api_header_views(
                    *ctx,
                    invocation,
                ),
    {
        let invocation = hyphenated_uuid();
        self.api_headers(ctx, invocation.as_str())
    }

    /// The headers of a tool request, which goes by a fresh number.
    pub fn decorate_mcp(&self, ctx: &RequestContext<'_>) -> (r: Vec<(String, String)>)
        ensures
            exists|invocation: Seq<char>| #[trigger]
                is_random_uuid(invocation) && pair_views(r@) == mcp_header_views(
                    *ctx,
                    invocation,
                ),
    {
        let invocation = hyphenated_uuid();
        self.mcp_headers(ctx, invocation.as_str())
    }
}

impl Default for RuntimeCliEndpoint {
    fn default() -> (r: Self)
        ensures
            r == RuntimeCliEndpoint,
    {
        RuntimeCliEndpoint::new()
    }
}

} // verus!
