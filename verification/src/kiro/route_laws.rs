//! The way that a request takes: which proxies it may go through, when it moves on
//! to the next, and what is told to the server.

use vstd::prelude::*;

use crate::http_client::{
    candidates_of, client_proxy, direct, distinct_pieces, proxy_at, separates, supported,
    worth_another_proxy, ProxyConfig, ProxyView,
};
use crate::kiro::client_cache::{CacheEntry, CacheView};
use crate::kiro::endpoint::context::{api_region, KiroCredentials, RequestContext};
use crate::kiro::endpoint::runtime_cli::{
    api_header_views, common_headers, host_of, mcp_header_views, pair_views, token_headers,
};
use crate::kiro::error::CallError;
use crate::kiro::provider::{lookup_result, named_model, unknown_endpoint, validation_outcome};
use crate::kiro::call::Outcome;
use crate::kiro::proxy::{
    direct_last, first_occurrences, global_candidates, proxies_only, proxy_step,
    proxy_views, rotated, usable_proxies, ProxyAction, ProxyEvent,
};
use crate::json::JsonView;
use crate::model::config::Config;
use crate::text::{is_white, lower, opt_view, split_by, trim};

verus! {

broadcast use vstd::string::group_string_axioms;

/// A request that could not be sent goes to the next candidate, and fails with its
/// own reason when there is none. The pool hears of the failure of a proxy.
pub proof fn a_failed_proxy_gives_way(index: int, count: int, is_proxy: bool, e: CallError)
    ensures
        ({
            let step = proxy_step(index, count, is_proxy, ProxyEvent::Failed(e));
            &&& index + 1 < count ==> step.action == ProxyAction::Next
            &&& index + 1 >= count ==> step.action == ProxyAction::Fail(e)
            &&& is_proxy ==> step.report == Some(false)
            &&& !is_proxy ==> step.report is None
        }),
{
}

/// An answer stands, unless it is one for which the proxy may be to blame and there is
/// another candidate. The pool hears whether the proxy worked.
pub proof fn an_answer_stands(index: int, count: int, is_proxy: bool, status: u16)
    ensures
        ({
            let step = proxy_step(index, count, is_proxy, ProxyEvent::Answered { status });
            let blamed = status == 407 || status == 502 || status == 503 || status == 504;
            &&& step.action is Next || step.action is Accept
            &&& step.action is Next <==> blamed && index + 1 < count
            &&& is_proxy ==> step.report == Some(!blamed)
            &&& !is_proxy ==> step.report is None
        }),
{
}

/// A request that is given up fails at once, and is not held against the proxy.
pub proof fn a_given_up_request_fails(index: int, count: int, is_proxy: bool, e: CallError)
    ensures
        proxy_step(index, count, is_proxy, ProxyEvent::Aborted(e)).action == ProxyAction::Fail(e),
        proxy_step(index, count, is_proxy, ProxyEvent::Aborted(e)).report is None,
{
}

/// The candidates of a credential are its proxies, each once, and then a direct
/// connection.
pub proof fn candidates_end_with_a_direct_connection(list: Seq<ProxyConfig>, offset: int, i: int)
    requires
        0 <= offset <= list.len(),
        0 <= i < list.len(),
    ensures
        ({
            let all = direct_last(rotated(list, offset));
            &&& all.len() == list.len() + 1
            &&& all[list.len() as int] is None
            &&& all[i] == Some(
                list[if offset + i < list.len() {
                    offset + i
                } else {
                    offset + i - list.len()
                }],
            )
        }),
{
}

/// The proxies among candidates are kept in their order, and direct connections are
/// left out.
pub proof fn proxies_are_kept_in_order(list: Seq<Option<ProxyConfig>>, p: ProxyConfig)
    ensures
        proxies_only(list.push(Some(p))) == proxies_only(list).push(p),
        proxies_only(list.push(None)) == proxies_only(list),
        proxies_only(Seq::empty()).len() == 0,
{
    assert(list.push(Some(p)).drop_last() =~= list);
    assert(list.push(None).drop_last() =~= list);
}

/// Of equal candidates the first one counts, and no other is lost.
pub proof fn candidates_occur_once<A>(list: Seq<A>, a: A)
    ensures
        list.contains(a) <==> first_occurrences(list).contains(a),
        first_occurrences(list).no_duplicates(),
        first_occurrences(list.push(a)) == (if list.contains(a) {
            first_occurrences(list)
        } else {
            first_occurrences(list).push(a)
        }),
    decreases list.len(),
{
    assert(list.push(a).drop_last() =~= list);
    if list.len() > 0 {
        let front = list.drop_last();
        candidates_occur_once(front, a);
        candidates_occur_once(front, list.last());
        let all = first_occurrences(list);
        let kept = first_occurrences(front);
        if list.contains(a) && a != list.last() {
            let i = choose|i: int| 0 <= i < list.len() && list[i] == a;
            assert(front[i] == a);
        }
        if front.contains(a) {
            let i = choose|i: int| 0 <= i < front.len() && front[i] == a;
            assert(list[i] == a);
        }
        assert(list[list.len() - 1] == list.last());
        if !kept.contains(list.last()) {
            assert(all[all.len() - 1] == list.last());
            if kept.contains(a) {
                let i = choose|i: int| 0 <= i < kept.len() && kept[i] == a;
                assert(all[i] == a);
            }
            if all.contains(a) && a != list.last() {
                let i = choose|i: int| 0 <= i < all.len() && all[i] == a;
                assert(kept[i] == a);
            }
        }
    }
}

/// A setting that names no usable proxy means a direct connection.
pub proof fn no_proxy_means_a_direct_connection(g: ProxyView)
    ensures
        global_candidates(None) == seq![None::<ProxyView>],
        candidates_of(g.url).len() == 0 ==> global_candidates(Some(g)) == seq![None::<ProxyView>],
        global_candidates(Some(g)).len() > 0,
{
    if candidates_of(g.url).len() == 0 {
        reveal(Seq::filter);
        assert(usable_proxies(candidates_of(g.url), g.username, g.password) =~= Seq::<
            Option<ProxyView>,
        >::empty());
    }
}

/// Every usable proxy that a setting names is a candidate, with the user name and the
/// password of the setting.
pub proof fn named_proxies_are_candidates(g: ProxyView, i: int)
    requires
        0 <= i < candidates_of(g.url).len(),
        supported(candidates_of(g.url)[i]),
    ensures
        global_candidates(Some(g)).contains(
            proxy_at(candidates_of(g.url)[i], g.username, g.password),
        ),
{
    let list = candidates_of(g.url);
    let wanted = proxy_at(list[i], g.username, g.password);
    let usable = usable_proxies(list, g.username, g.password);
    let pred = |c: Seq<char>| supported(c);
    list.lemma_filter_contains(pred, i);
    assert(list.filter(pred).contains(list[i]));
    let k = choose|k: int| 0 <= k < list.filter(pred).len() && list.filter(pred)[k] == list[i];
    assert(usable[k] == wanted);
    candidates_occur_once(usable, wanted);
    let all = first_occurrences(usable);
    assert(all.contains(wanted));
    assert(all.len() > 0);
}

/// Commas, semicolons and white space separate candidates, and nothing else does.
pub proof fn separators_are_few(c: char)
    ensures
        separates(c) <==> c == ',' || c == ';' || is_white(c),
        !separates(':') && !separates('/') && !separates('.') && !separates('@')
            && !separates('-') && !separates('a') && !separates('0'),
        separates(' ') && separates(',') && separates(';') && separates('\n'),
{
}

/// A list with one address names that address.
pub proof fn one_address_is_one_candidate(url: Seq<char>)
    requires
        url.len() > 0,
        forall|i: int| 0 <= i < url.len() ==> !separates(#[trigger] url[i]),
    ensures
        candidates_of(url) == seq![url],
{
    lemma_unsplit(url);
    assert(distinct_pieces(Seq::<Seq<char>>::empty()) =~= Seq::<Seq<char>>::empty());
    assert(seq![url].drop_last() =~= Seq::<Seq<char>>::empty());
    assert(distinct_pieces(seq![url]) =~= seq![url]);
}

proof fn lemma_unsplit(s: Seq<char>)
    requires
        forall|i: int| 0 <= i < s.len() ==> !separates(#[trigger] s[i]),
    ensures
        split_by(s, |c: char| separates(c)) == seq![s],
    decreases s.len(),
{
    if s.len() == 0 {
        assert(s =~= Seq::<char>::empty());
    } else {
        let front = s.drop_last();
        assert forall|i: int| 0 <= i < front.len() implies !separates(#[trigger] front[i]) by {
            assert(front[i] == s[i]);
        }
        lemma_unsplit(front);
        assert(s.last() == s[s.len() - 1]);
        assert(front.push(s.last()) =~= s);
        assert(seq![front].update(0, s) =~= seq![s]);
    }
}

/// One more address behind a separator is one more candidate, unless it is there
/// already but for the case of its letters.
pub proof fn one_more_address_is_one_more_candidate(raw: Seq<char>, sep: char, url: Seq<char>)
    requires
        separates(sep),
        url.len() > 0,
        forall|i: int| 0 <= i < url.len() ==> !separates(#[trigger] url[i]),
    ensures
        ({
            let before = candidates_of(raw);
            let known = exists|i: int|
                0 <= i < before.len() && lower(#[trigger] before[i]) == lower(url);
            candidates_of(raw.push(sep) + url) == (if known {
                before
            } else {
                before.push(url)
            })
        }),
{
    lemma_split_further(raw, sep, url);
    let pieces = split_by(raw, |c: char| separates(c));
    assert(pieces.push(url).drop_last() =~= pieces);
}

proof fn lemma_split_further(raw: Seq<char>, sep: char, url: Seq<char>)
    requires
        separates(sep),
        forall|i: int| 0 <= i < url.len() ==> !separates(#[trigger] url[i]),
    ensures
        split_by(raw.push(sep) + url, |c: char| separates(c)) == split_by(
            raw,
            |c: char| separates(c),
        ).push(url),
    decreases url.len(),
{
    let is_sep = |c: char| separates(c);
    let all = raw.push(sep) + url;
    if url.len() == 0 {
        assert(all.drop_last() =~= raw);
        assert(all.last() == sep);
        assert(url =~= Seq::<char>::empty());
    } else {
        let front = url.drop_last();
        assert forall|i: int| 0 <= i < front.len() implies !separates(#[trigger] front[i]) by {
            assert(front[i] == url[i]);
        }
        lemma_split_further(raw, sep, front);
        assert(all.drop_last() =~= raw.push(sep) + front);
        assert(all.last() == url.last());
        assert(url.last() == url[url.len() - 1]);
        assert(front.push(url.last()) =~= url);
        let pieces = split_by(raw, is_sep).push(front);
        assert(pieces.update(pieces.len() - 1, url) =~= split_by(raw, is_sep).push(url));
    }
}

/// The kinds of proxies that can be used.
pub proof fn usable_kinds(rest: Seq<char>)
    requires
        rest.len() > 0,
        !is_white(rest.last()),
    ensures
        supported("http://"@ + rest),
        supported("https://"@ + rest),
        supported("socks5://"@ + rest),
        supported("socks4://"@ + rest),
        supported("direct"@),
        supported("DIRECT"@),
        !supported("ftp://"@ + rest),
{
    reveal_strlit("http://");
    reveal_strlit("https://");
    reveal_strlit("socks5://");
    reveal_strlit("socks4://");
    reveal_strlit("ftp://");
    reveal_strlit("direct");
    reveal_strlit("DIRECT");
    let a = "http://"@ + rest;
    let b = "https://"@ + rest;
    let c = "socks5://"@ + rest;
    let d = "socks4://"@ + rest;
    let f = "ftp://"@ + rest;
    assert(trim(a) == a && trim(b) == b && trim(c) == c && trim(d) == d && trim(f) == f);
    assert(a.subrange(0, 7) =~= "http://"@);
    assert(b.subrange(0, 8) =~= "https://"@);
    assert(c.subrange(0, 9) =~= "socks5://"@);
    assert(d.subrange(0, 9) =~= "socks4://"@);
    assert(trim("direct"@) == "direct"@);
    assert(trim("DIRECT"@) == "DIRECT"@);
    assert(lower("DIRECT"@) =~= lower("direct"@));
    assert(f[0] == 'f');
    assert(lower(f)[0] == 'f');
    assert(lower("direct"@)[0] == 'd');
    assert(!crate::text::starts_with(f, "http://"@)) by {
        if crate::text::starts_with(f, "http://"@) {
            assert(f.subrange(0, 7)[0] == 'h');
        }
    }
    assert(!crate::text::starts_with(f, "https://"@)) by {
        if crate::text::starts_with(f, "https://"@) {
            assert(f.subrange(0, 8)[0] == 'h');
        }
    }
    assert(!crate::text::starts_with(f, "socks5://"@)) by {
        if crate::text::starts_with(f, "socks5://"@) {
            assert(f.subrange(0, 9)[0] == 's');
        }
    }
    assert(!crate::text::starts_with(f, "socks4://"@)) by {
        if crate::text::starts_with(f, "socks4://"@) {
            assert(f.subrange(0, 9)[0] == 's');
        }
    }
}

/// A proxy has the address that it was named by, and a user name only together with a
/// password; a direct connection is no proxy.
pub proof fn a_proxy_keeps_its_address(
    url: Seq<char>,
    user: Seq<char>,
    pass: Seq<char>,
    other: Option<Seq<char>>,
)
    ensures
        direct(url) ==> proxy_at(url, Some(user), Some(pass)) is None,
        !direct(url) ==> ({
            &&& proxy_at(url, None, other) == Some(
                ProxyView { url, username: None, password: None },
            )
            &&& proxy_at(url, other, None) == Some(
                ProxyView { url, username: None, password: None },
            )
            &&& user.len() > 0 || pass.len() > 0 ==> proxy_at(url, Some(user), Some(pass)) == Some(
                ProxyView { url, username: Some(user), password: Some(pass) },
            )
            &&& user.len() == 0 && pass.len() == 0 ==> proxy_at(url, Some(user), Some(pass))
                == Some(ProxyView { url, username: None, password: None })
        }),
{
}

/// A client uses the first candidate of its setting, with the credentials of the
/// setting, and none where that is a direct connection.
pub proof fn a_client_uses_the_first_candidate(p: ProxyView)
    ensures
        client_proxy(None) is None,
        candidates_of(p.url).len() == 0 || direct(candidates_of(p.url)[0]) ==> client_proxy(
            Some(p),
        ) is None,
        candidates_of(p.url).len() > 0 && !direct(candidates_of(p.url)[0]) ==> (client_proxy(
            Some(p),
        ) matches Some(used) && used.url == candidates_of(p.url)[0] && if p.username is Some
            && p.password is Some {
            used.username == p.username && used.password == p.password
        } else {
            used.username is None && used.password is None
        }),
{
}

/// Proxies and headers are seen as they are, in their order.
pub proof fn proxies_are_seen_as_they_are(
    p: ProxyConfig,
    list: Seq<Option<ProxyConfig>>,
    headers: Seq<(String, String)>,
    i: int,
)
    ensures
        p@.url == p.url@,
        p@.username == opt_view(p.username),
        p@.password == opt_view(p.password),
        proxy_views(list).len() == list.len(),
        0 <= i < list.len() ==> match list[i] {
            Some(q) => proxy_views(list)[i] == Some(q@),
            None => proxy_views(list)[i] is None,
        },
        pair_views(headers).len() == headers.len(),
        0 <= i < headers.len() ==> pair_views(headers)[i] == (headers[i].0@, headers[i].1@),
{
}

/// The statuses for which another proxy may help.
pub proof fn blamed_statuses(status: u16)
    ensures
        worth_another_proxy(status) <==> status == 407 || status == 502 || status == 503 || status
            == 504,
{
}

/// A full cache loses its oldest client for a new one, and every other stays.
pub proof fn the_oldest_client_leaves<C>(c: CacheView<C>, key: Option<ProxyView>, client: C, i: int)
    requires
        c.wf(),
        key != c.protected,
        forall|k: int| 0 <= k < c.entries.len() ==> (#[trigger] c.entries[k]).key != key,
        0 <= i < c.entries.len(),
    ensures
        ({
            let after = c.insert(key, client);
            let full = c.entries.len() >= c.cap;
            &&& after.entries.last() == (CacheEntry { key, client })
            &&& !full ==> after.entries[i] == c.entries[i] && after.entries.len()
                == c.entries.len() + 1
            &&& full && i > 0 ==> after.entries[i - 1] == c.entries[i]
            &&& full ==> after.entries.len() == c.entries.len()
            &&& after.protected == c.protected
            &&& after.initial == c.initial
            &&& after.cap == c.cap
        }),
{
    assert(c.position(key) is None);
}

/// A client that is put in again replaces the one before it, in its place, and no
/// other leaves.
pub proof fn a_known_client_is_replaced<C>(
    c: CacheView<C>,
    key: Option<ProxyView>,
    client: C,
    i: int,
    other: int,
)
    requires
        c.wf(),
        0 <= i < c.entries.len(),
        c.entries[i].key == key,
        0 <= other < c.entries.len(),
        other != i,
    ensures
        ({
            let after = c.insert(key, client);
            &&& after.entries.len() == c.entries.len()
            &&& after.entries[i] == (CacheEntry { key, client })
            &&& after.entries[other] == c.entries[other]
            &&& after.initial == c.initial
        }),
        c.get(key) == Some(c.entries[i].client),
{
    assert(c.entries[i].key != c.protected);
    let p = c.position(key)->0;
    assert(c.entries[p].key == key);
    assert(p == i);
}

/// The region of a request is that of its credential, else that of the API settings,
/// else the general one; and the server is that of the region.
pub proof fn the_region_names_the_server(c: KiroCredentials, config: Config)
    ensures
        c.api_region matches Some(r) ==> api_region(c, config) == r@,
        c.api_region is None ==> (config.api_region matches Some(r) ==> api_region(c, config)
            == r@),
        c.api_region is None && config.api_region is None ==> api_region(c, config)
            == config.region@,
        host_of(api_region(c, config)) == "runtime."@ + api_region(c, config) + ".kiro.dev"@,
{
}

/// Both kinds of request carry the token, and say which server they are for and which
/// invocation they are.
pub proof fn requests_carry_the_token(ctx: RequestContext, invocation: Seq<char>)
    ensures
        ({
            let api = api_header_views(ctx, invocation);
            let mcp = mcp_header_views(ctx, invocation);
            let token = ("Authorization"@, "Bearer "@ + ctx.token@);
            let host = ("host"@, host_of(api_region(*ctx.credentials, *ctx.config)));
            let number = ("amz-sdk-invocation-id"@, invocation);
            &&& api.contains(token) && mcp.contains(token)
            &&& api.contains(host) && mcp.contains(host)
            &&& api.contains(number) && mcp.contains(number)
            &&& api.contains(
                (
                    "x-amz-target"@,
                    "AmazonCodeWhispererStreamingService.GenerateAssistantResponse"@,
                ),
            )
            &&& api.contains(("x-amzn-codewhisperer-optout"@, "false"@))
            &&& ctx.credentials.profile_arn matches Some(arn) ==> mcp.contains(
                ("x-amzn-kiro-profile-arn"@, arn@),
            )
        }),
{
    let api = api_header_views(ctx, invocation);
    let mcp = mcp_header_views(ctx, invocation);
    let common = common_headers(ctx, invocation);
    assert(api[0] == (
        "x-amz-target"@,
        "AmazonCodeWhispererStreamingService.GenerateAssistantResponse"@,
    ));
    assert(api[1] == ("x-amzn-codewhisperer-optout"@, "false"@));
    assert(api[4] == common[2] && api[5] == common[3] && api[7] == common[5]);
    assert(mcp[2] == common[2] && mcp[3] == common[3] && mcp[5] == common[5]);
    if ctx.credentials.profile_arn is Some {
        assert(mcp[6] == ("x-amzn-kiro-profile-arn"@, ctx.credentials.profile_arn->0@));
    }
}

/// The kind of a token is told where it is not the usual one: an API key, or else one
/// of an outside identity provider.
pub proof fn the_kind_of_token_is_told(ctx: RequestContext, invocation: Seq<char>)
    ensures
        ({
            let api = api_header_views(ctx, invocation);
            let mcp = mcp_header_views(ctx, invocation);
            let key = ("tokentype"@, "API_KEY"@);
            let outside = ("tokentype"@, "EXTERNAL_IDP"@);
            &&& ctx.credentials.api_key ==> api.last() == key && mcp.last() == key
            &&& !ctx.credentials.api_key && ctx.credentials.external_idp ==> api.last() == outside
                && mcp.last() == outside
            &&& !ctx.credentials.api_key && !ctx.credentials.external_idp ==> api.len() == 8
                && api.last() == ("Authorization"@, "Bearer "@ + ctx.token@)
        }),
{
    let api = api_header_views(ctx, invocation);
    if !ctx.credentials.api_key && !ctx.credentials.external_idp {
        assert(token_headers(ctx).len() == 0);
        assert(api.last() == common_headers(ctx, invocation)[5]);
    }
}

/// Both user agents name the operating system of the settings, and the longer one the
/// version.
pub proof fn user_agents_tell_the_client(ctx: RequestContext, invocation: Seq<char>)
    ensures
        ({
            let h = common_headers(ctx, invocation);
            let start = "aws-sdk-rust/1.3.15 ua/2.1 api/codewhispererstreaming/0.1.14474 os/"@
                + ctx.config.system_version@ + " lang/rust/1.92.0 "@;
            &&& h.len() == 6
            &&& h[0] == ("x-amz-user-agent"@, start + "m/F app/AmazonQ-For-CLI"@)
            &&& h[1] == (
                "user-agent"@,
                start + "md/appVersion-"@ + ctx.config.kiro_version@ + " app/AmazonQ-For-CLI"@,
            )
            &&& h[4] == ("amz-sdk-request"@, "attempt=1; max=3"@)
        }),
{
}

/// What a lookup of a profile found is handed on, and so is a 429; any other failure
/// is as if nothing had been found.
pub proof fn a_lookup_tells_what_it_found(found: Option<String>, e: CallError)
    ensures
        lookup_result(Ok(found)) == Ok::<Option<String>, CallError>(found),
        e is RateLimit ==> lookup_result(Err(e)) == Err::<Option<String>, CallError>(e),
        !(e is RateLimit) ==> lookup_result(Err(e)) == Ok::<Option<String>, CallError>(None),
{
}

/// The model of a request body stands in its current message.
pub proof fn a_body_names_its_model(
    body: JsonView,
    state: JsonView,
    message: JsonView,
    input: JsonView,
    model: Seq<char>,
)
    requires
        body.get("conversationState"@) == Some(state),
        state.get("currentMessage"@) == Some(message),
        message.get("userInputMessage"@) == Some(input),
        input.get_str("modelId"@) == Some(model),
    ensures
        named_model(body) == Some(model),
        named_model(JsonView::Null) is None,
{
}

/// The answer of a tool that its caller accepts, or whose fault is benign, is a
/// success, and no other is.
pub proof fn a_valid_answer_is_a_success(valid: bool, benign: bool)
    ensures
        validation_outcome(valid, benign) == Outcome::Success <==> valid || benign,
        !valid && !benign ==> validation_outcome(valid, benign) == Outcome::Unknown,
        unknown_endpoint(Seq::empty()) == "未知端点: "@,
{
    assert(unknown_endpoint(Seq::empty()) =~= "未知端点: "@);
}

} // verus!
