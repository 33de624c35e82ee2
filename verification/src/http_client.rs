//! Proxies, and what an HTTP client is built from.

use vstd::prelude::*;

use crate::model::config::TlsBackend;
use crate::text::{
    char_is_white, eq_ignore_case, has_prefix, is_white, lower, opt_str_view, opt_view, split_by,
    split_with, starts_with, trim, trim_str, views,
};

verus! {

broadcast use vstd::string::group_string_axioms;

/// A proxy.
#[derive(Debug, PartialEq, Eq, Hash)]
pub struct ProxyConfig {
    /// The address of the proxy, or a list of candidates.
    pub url: String,
    /// The user name at the proxy.
    pub username: Option<String>,
    /// The password at the proxy.
    pub password: Option<String>,
}

/// What a [`ProxyConfig`] says.
pub struct ProxyView {
    pub url: Seq<char>,
    pub username: Option<Seq<char>>,
    pub password: Option<Seq<char>>,
}

/// The text stands for a direct connection.
pub open spec fn direct(value: Seq<char>) -> bool {
    lower(trim(value)) == lower("direct"@)
}

/// What separates the candidates in a list of proxies.
pub open spec fn separates(c: char) -> bool {
    c == ',' || c == ';' || is_white(c)
}

/// The texts of `list` that are not empty, each as it first occurs, where the
/// case of ASCII letters makes no difference.
pub open spec fn distinct_pieces(list: Seq<Seq<char>>) -> Seq<Seq<char>>
    decreases list.len(),
{
    if list.len() == 0 {
        Seq::empty()
    } else {
        let front = distinct_pieces(list.drop_last());
        let item = list.last();
        if item.len() == 0 || exists|i: int|
            0 <= i < front.len() && lower(#[trigger] front[i]) == lower(item) {
            front
        } else {
            front.push(item)
        }
    }
}

/// The candidates in a list of proxies.
pub open spec fn candidates_of(raw: Seq<char>) -> Seq<Seq<char>> {
    distinct_pieces(split_by(raw, |c: char| separates(c)))
}

/// The address of a proxy or a direct connection, of a kind that can be used.
pub open spec fn supported(value: Seq<char>) -> bool {
    let v = trim(value);
    ||| direct(v)
    ||| starts_with(v, "http://"@)
    ||| starts_with(v, "https://"@)
    ||| starts_with(v, "socks5://"@)
    ||| starts_with(v, "socks4://"@)
}

/// The proxy at an address with the user name and the password where both are
/// given and not both are empty; none for a direct connection.
pub open spec fn proxy_at(
    url: Seq<char>,
    username: Option<Seq<char>>,
    password: Option<Seq<char>>,
) -> Option<ProxyView> {
    if direct(url) {
        None
    } else if username is Some && password is Some && (username->0.len() > 0 || password->0.len()
        > 0) {
        Some(ProxyView { url, username, password })
    } else {
        Some(ProxyView { url, username: None, password: None })
    }
}

/// The statuses for which another proxy may help.
pub open spec fn worth_another_proxy(status: u16) -> bool {
    status == 407 || status == 502 || status == 503 || status == 504
}

fn is_separator(c: char) -> (r: bool)
    ensures
        r == separates(c),
{
    c == ',' || c == ';' || char_is_white(c)
}

impl ProxyConfig {
    pub open spec fn view(&self) -> ProxyView {
        ProxyView {
            url: self.url@,
            username: opt_view(self.username),
            password: opt_view(self.password),
        }
    }

    /// The proxy at an address.
    pub fn new(url: &str) -> (r: Self)
        ensures
            r@ == (ProxyView { url: url@, username: None, password: None }),
    {
        ProxyConfig { url: url.to_owned(), username: None, password: None }
    }

    /// The first candidate, if it is a proxy.
    pub fn first_proxy_url(&self) -> (r: Option<String>)
        ensures
            opt_view(r) == ({
                let list = candidates_of(self.url@);
                if list.len() > 0 && !direct(list[0]) {
                    Some(list[0])
                } else {
                    None
                }
            }),
    {
        let list = ProxyConfig::split_candidates(self.url.as_str());
        assert(views(list@).len() == list@.len());
        if list.len() > 0 && !ProxyConfig::is_direct(list[0].as_str()) {
            Some(list[0].clone())
        } else {
            None
        }
    }

    /// Tests for the word `direct`, which stands for a direct connection.
    pub fn is_direct(value: &str) -> (r: bool)
        ensures
            r == direct(value@),
    {
        eq_ignore_case(trim_str(value), "direct")
    }

    /// The candidates in a list of proxies, which commas, semicolons or white
    /// space separate. The word `direct` is one of them.
    pub fn split_candidates(raw: &str) -> (r: Vec<String>)
        ensures
            views(r@) == candidates_of(raw@),
    {
        let pieces = split_with(raw, is_separator, Ghost(|c: char| separates(c)));
        let mut out: Vec<String> = Vec::new();
        let mut i: usize = 0;
        assert(views(pieces@).take(0) =~= Seq::<Seq<char>>::empty());
        assert(views(out@) =~= Seq::<Seq<char>>::empty());
        while i < pieces.len()
            invariant
                i <= pieces@.len(),
                views(out@) == distinct_pieces(views(pieces@).take(i as int)),
            decreases pieces@.len() - i,
        {
            let item = &pieces[i];
            let ghost front = views(pieces@).take(i as int);
            assert(views(pieces@).take(i + 1).drop_last() =~= front);
            let mut known = item.as_str().is_empty();
            let mut j: usize = 0;
            while j < out.len() && !known
                invariant
                    j <= out@.len(),
                    known ==> item@.len() == 0 || exists|k: int|
                        0 <= k < views(out@).len() && lower(#[trigger] views(out@)[k]) == lower(
                            item@,
                        ),
                    !known ==> item@.len() > 0 && forall|k: int|
                        0 <= k < j ==> lower(#[trigger] views(out@)[k]) != lower(item@),
                decreases out@.len() - j,
            {
                if eq_ignore_case(out[j].as_str(), item.as_str()) {
                    assert(lower(views(out@)[j as int]) == lower(item@));
                    known = true;
                }
                j += 1;
            }
            if !known {
                let ghost before = out@;
                out.push(item.clone());
                assert(views(out@) =~= views(before).push(item@));
            }
            i += 1;
        }
        assert(views(pieces@).take(pieces@.len() as int) =~= views(pieces@));
        out
    }

    /// Tests whether a candidate is a direct connection or the address of a
    /// proxy of a kind that can be used.
    pub fn is_supported_entry(value: &str) -> (r: bool)
        ensures
            r == supported(value@),
    {
        let v = trim_str(value);
        ProxyConfig::is_direct(v) || has_prefix(v, "http://") || has_prefix(v, "https://")
            || has_prefix(v, "socks5://") || has_prefix(v, "socks4://")
    }

    /// Tests whether another proxy may help after an answer with this status.
    pub fn should_try_next_proxy_status(status: u16) -> (r: bool)
        ensures
            r == worth_another_proxy(status),
    {
        status == 407 || status == 502 || status == 503 || status == 504
    }

    /// The proxy at an address, with a user name and a password where both are
    /// given; none for a direct connection.
    pub fn from_url_with_auth(
        url: &str,
        username: Option<&str>,
        password: Option<&str>,
    ) -> (r: Option<Self>)
        ensures
            opt_proxy(r) == proxy_at(url@, opt_str_view(username), opt_str_view(password)),
    {
        if ProxyConfig::is_direct(url) {
            return None;
        }
        let proxy = ProxyConfig::new(url);
        match (username, password) {
            (Some(u), Some(p)) => if !u.is_empty() || !p.is_empty() {
                Some(proxy.with_auth(u, p))
            } else {
                Some(proxy)
            },
            _ => Some(proxy),
        }
    }

    /// The proxy with a user name and a password.
    pub fn with_auth(self, username: &str, password: &str) -> (r: Self)
        ensures
            r@ == (ProxyView { username: Some(username@), password: Some(password@), ..self@ }),
    {
        let mut proxy = self;
        proxy.username = Some(username.to_owned());
        proxy.password = Some(password.to_owned());
        proxy
    }
}

impl Default for ProxyConfig {
    /// A proxy without an address.
    fn default() -> (r: Self)
        ensures
            r.url@ == Seq::<char>::empty(),
            r.username is None,
            r.password is None,
    {
        ProxyConfig { url: String::new(), username: None, password: None }
    }
}

impl Clone for ProxyConfig {
    fn clone(&self) -> (r: Self)
        ensures
            r == *self,
    {
        ProxyConfig {
            url: self.url.clone(),
            username: match &self.username {
                Some(t) => Some(t.clone()),
                None => None,
            },
            password: match &self.password {
                Some(t) => Some(t.clone()),
                None => None,
            },
        }
    }
}

/// The view of an optional proxy.
pub open spec fn opt_proxy(o: Option<ProxyConfig>) -> Option<ProxyView> {
    match o {
        Some(p) => Some(p@),
        None => None,
    }
}

/// What an HTTP client is built from.
#[derive(Debug, PartialEq, Eq)]
pub struct ClientPlan {
    pub timeout_secs: u64,
    /// Redirects are answers like any other.
    pub no_redirect: bool,
    /// The one proxy that the client uses; a user name stands there only with a
    /// password.
    pub proxy: Option<ProxyConfig>,
}

/// The proxy that a client uses: the first candidate of the setting, unless that
/// is a direct connection.
pub open spec fn client_proxy(setting: Option<ProxyView>) -> Option<ProxyView> {
    match setting {
        None => None,
        Some(p) => {
            let list = candidates_of(p.url);
            if list.len() == 0 || direct(list[0]) {
                None
            } else if p.username is Some && p.password is Some {
                Some(ProxyView { url: list[0], ..p })
            } else {
                Some(ProxyView { url: list[0], username: None, password: None })
            }
        },
    }
}

/// Decides what a client is built from. `native_tls` says whether the native
/// TLS implementation is built in; a client cannot be had with it otherwise.
pub fn plan_client(
    proxy: Option<&ProxyConfig>,
    timeout_secs: u64,
    tls_backend: TlsBackend,
    no_redirect: bool,
    native_tls: bool,
) -> (r: Result<ClientPlan, String>)
    ensures
        match r {
            Ok(plan) => {
                &&& tls_backend == TlsBackend::Rustls || native_tls
                &&& plan.timeout_secs == timeout_secs
                &&& plan.no_redirect == no_redirect
                &&& opt_proxy(plan.proxy) == client_proxy(
                    match proxy {
                        Some(p) => Some(p@),
                        None => None,
                    },
                )
            },
            Err(e) => tls_backend == TlsBackend::NativeTls && !native_tls && e@
                == "此构建版本未包含 native-tls 后端，请在配置中改用 rustls"@,
        },
{
    if tls_backend == TlsBackend::NativeTls && !native_tls {
        return Err(
            "此构建版本未包含 native-tls 后端，请在配置中改用 rustls".to_owned(),
        );
    }
    let chosen = match proxy {
        Some(p) => match p.first_proxy_url() {
            Some(url) => {
                let bare = ProxyConfig::new(url.as_str());
                match (&p.username, &p.password) {
                    (Some(u), Some(w)) => Some(bare.with_auth(u.as_str(), w.as_str())),
                    _ => Some(bare),
                }
            },
            None => None,
        },
        None => None,
    };
    Ok(ClientPlan { timeout_secs, no_redirect, proxy: chosen })
}

/// `list` has no empty text, no text twice up to the case of ASCII letters, and
/// no separator in a text.
pub open spec fn clean_list(list: Seq<Seq<char>>) -> bool {
    &&& forall|i: int| 0 <= i < list.len() ==> (#[trigger] list[i]).len() > 0
    &&& forall|i: int, j: int|
        0 <= i < j < list.len() ==> lower(#[trigger] list[i]) != lower(#[trigger] list[j])
    &&& forall|i: int, k: int|
        0 <= i < list.len() && 0 <= k < list[i].len() ==> !separates(#[trigger] list[i][k])
}

/// The candidates are neither empty nor equal to one another, where the case of
/// ASCII letters makes no difference, and hold nothing that separates them.
pub proof fn candidates_are_distinct(raw: Seq<char>)
    ensures
        clean_list(candidates_of(raw)),
{
    lemma_split_free(raw);
    lemma_distinct_pieces(split_by(raw, |c: char| separates(c)));
}

proof fn lemma_split_free(s: Seq<char>)
    ensures
        ({
            let list = split_by(s, |c: char| separates(c));
            &&& list.len() > 0
            &&& forall|i: int, k: int|
                0 <= i < list.len() && 0 <= k < list[i].len() ==> !separates(#[trigger] list[i][k])
        }),
    decreases s.len(),
{
    if s.len() > 0 {
        lemma_split_free(s.drop_last());
        let front = split_by(s.drop_last(), |c: char| separates(c));
        let list = split_by(s, |c: char| separates(c));
        assert forall|i: int, k: int|
            0 <= i < list.len() && 0 <= k < list[i].len() implies !separates(
            #[trigger] list[i][k],
        ) by {
            if i < front.len() && k < front[i].len() {
                assert(list[i][k] == front[i][k]);
            }
        }
    }
}

proof fn lemma_distinct_pieces(list: Seq<Seq<char>>)
    requires
        forall|i: int, k: int|
            0 <= i < list.len() && 0 <= k < list[i].len() ==> !separates(#[trigger] list[i][k]),
    ensures
        clean_list(distinct_pieces(list)),
    decreases list.len(),
{
    if list.len() > 0 {
        assert forall|i: int, k: int|
            0 <= i < list.drop_last().len() && 0 <= k < list.drop_last()[i].len() implies
            !separates(#[trigger] list.drop_last()[i][k]) by {
            assert(list.drop_last()[i] == list[i]);
            assert(!separates(list[i][k]));
        }
        lemma_distinct_pieces(list.drop_last());
        let front = distinct_pieces(list.drop_last());
        let item = list.last();
        let all = distinct_pieces(list);
        if all != front {
            assert(all == front.push(item));
            assert(item == list[list.len() - 1]);
            assert forall|i: int, k: int|
                0 <= i < all.len() && 0 <= k < all[i].len() implies !separates(
                #[trigger] all[i][k],
            ) by {
                if i < front.len() {
                    assert(all[i] == front[i]);
                    assert(!separates(front[i][k]));
                } else {
                    assert(!separates(list[list.len() - 1][k]));
                }
            }
        }
    }
}

} // verus!
