//! The proxies that a request may go through, and how it moves on from one to
//! the next.

use vstd::prelude::*;

use crate::http_client::{
    candidates_of, opt_proxy, proxy_at, supported, worth_another_proxy, ProxyConfig, ProxyView,
};
use crate::kiro::error::CallError;
use crate::text::{opt_view, str_eq, views};

verus! {

broadcast use vstd::string::group_string_axioms;

/// The views of a list of candidates; none stands for a direct connection.
pub open spec fn proxy_views(list: Seq<Option<ProxyConfig>>) -> Seq<Option<ProxyView>> {
    list.map_values(|p: Option<ProxyConfig>| opt_proxy(p))
}

/// Each element of `list` as it first occurs.
pub open spec fn first_occurrences<A>(list: Seq<A>) -> Seq<A>
    decreases list.len(),
{
    if list.len() == 0 {
        Seq::empty()
    } else {
        let front = first_occurrences(list.drop_last());
        if front.contains(list.last()) {
            front
        } else {
            front.push(list.last())
        }
    }
}

/// The candidates that are usable, as proxies.
pub open spec fn usable_proxies(
    list: Seq<Seq<char>>,
    username: Option<Seq<char>>,
    password: Option<Seq<char>>,
) -> Seq<Option<ProxyView>> {
    list.filter(|c: Seq<char>| supported(c)).map_values(
        |c: Seq<char>| proxy_at(c, username, password),
    )
}

/// The candidates that the global proxy setting amounts to: a direct connection
/// where it names none that is usable.
pub open spec fn global_candidates(global: Option<ProxyView>) -> Seq<Option<ProxyView>> {
    match global {
        None => seq![None],
        Some(g) => {
            let list = first_occurrences(
                usable_proxies(candidates_of(g.url), g.username, g.password),
            );
            if list.len() == 0 {
                seq![None]
            } else {
                list
            }
        },
    }
}

fn same_text(a: &Option<String>, b: &Option<String>) -> (r: bool)
    ensures
        r == (opt_view(*a) == opt_view(*b)),
{
    match (a, b) {
        (Some(x), Some(y)) => str_eq(x.as_str(), y.as_str()),
        (None, None) => true,
        _ => false,
    }
}

/// Tests two candidates for equality.
pub fn same_candidate(a: &Option<ProxyConfig>, b: &Option<ProxyConfig>) -> (r: bool)
    ensures
        r == (opt_proxy(*a) == opt_proxy(*b)),
{
    match (a, b) {
        (Some(x), Some(y)) => str_eq(x.url.as_str(), y.url.as_str()) && same_text(
            &x.username,
            &y.username,
        ) && same_text(&x.password, &y.password),
        (None, None) => true,
        _ => false,
    }
}

fn text_ref(o: &Option<String>) -> (r: Option<&str>)
    ensures
        crate::text::opt_str_view(r) == opt_view(*o),
{
    match o {
        Some(t) => Some(t.as_str()),
        None => None,
    }
}

/// The candidates that the global proxy setting amounts to.
pub fn global_proxy_candidates(global: Option<&ProxyConfig>) -> (r: Vec<Option<ProxyConfig>>)
    ensures
        proxy_views(r@) == global_candidates(
            match global {
                Some(g) => Some(g@),
                None => None,
            },
        ),
{
    let mut out: Vec<Option<ProxyConfig>> = Vec::new();
    if let Some(g) = global {
        let list = ProxyConfig::split_candidates(g.url.as_str());
        let ghost texts = views(list@);
        let ghost user = opt_view(g.username);
        let ghost pass = opt_view(g.password);
        let mut i: usize = 0;
        proof {
            reveal(Seq::filter);
            assert(texts.take(0) =~= Seq::<Seq<char>>::empty());
            assert(usable_proxies(texts.take(0), user, pass) =~= Seq::<
                Option<ProxyView>,
            >::empty());
            assert(proxy_views(out@) =~= Seq::<Option<ProxyView>>::empty());
        }
        while i < list.len()
            invariant
                i <= list@.len(),
                texts == views(list@),
                user == opt_view(g.username),
                pass == opt_view(g.password),
                proxy_views(out@) == first_occurrences(
                    usable_proxies(texts.take(i as int), user, pass),
                ),
            decreases list@.len() - i,
        {
            let ghost front = texts.take(i as int);
            let candidate = list[i].as_str();
            proof {
                reveal(Seq::filter);
                assert(texts.take(i + 1).drop_last() =~= front);
                assert(texts.take(i + 1).last() == candidate@);
            }
            if ProxyConfig::is_supported_entry(candidate) {
                let next = ProxyConfig::from_url_with_auth(
                    candidate,
                    text_ref(&g.username),
                    text_ref(&g.password),
                );
                let ghost shown = usable_proxies(texts.take(i + 1), user, pass);
                assert(shown =~= usable_proxies(front, user, pass).push(opt_proxy(next)));
                assert(shown.drop_last() =~= usable_proxies(front, user, pass));
                let mut known = false;
                let mut j: usize = 0;
                while j < out.len() && !known
                    invariant
                        j <= out@.len(),
                        known ==> proxy_views(out@).contains(opt_proxy(next)),
                        !known ==> forall|k: int|
                            0 <= k < j ==> #[trigger] proxy_views(out@)[k] != opt_proxy(next),
                    decreases out@.len() - j,
                {
                    if same_candidate(&out[j], &next) {
                        assert(proxy_views(out@)[j as int] == opt_proxy(next));
                        known = true;
                    }
                    j += 1;
                }
                if !known {
                    let ghost before = out@;
                    out.push(next);
                    assert(proxy_views(out@) =~= proxy_views(before).push(opt_proxy(next)));
                }
            } else {
                assert(usable_proxies(texts.take(i + 1), user, pass) =~= usable_proxies(
                    front,
                    user,
                    pass,
                ));
            }
            i += 1;
        }
        assert(texts.take(texts.len() as int) =~= texts);
    }
    if out.len() == 0 {
        out.push(None);
        assert(proxy_views(out@) =~= seq![None]);
    }
    out
}

/// The proxies among the candidates, in their order.
pub open spec fn proxies_only(list: Seq<Option<ProxyConfig>>) -> Seq<ProxyConfig>
    decreases list.len(),
{
    if list.len() == 0 {
        Seq::empty()
    } else {
        match list.last() {
            Some(p) => proxies_only(list.drop_last()).push(p),
            None => proxies_only(list.drop_last()),
        }
    }
}

/// The proxies among the candidates, in their order.
pub fn proxies_among(list: Vec<Option<ProxyConfig>>) -> (r: Vec<ProxyConfig>)
    ensures
        r@ == proxies_only(list@),
{
    let mut out: Vec<ProxyConfig> = Vec::new();
    let mut i: usize = 0;
    assert(list@.take(0) =~= Seq::<Option<ProxyConfig>>::empty());
    while i < list.len()
        invariant
            i <= list@.len(),
            out@ == proxies_only(list@.take(i as int)),
        decreases list@.len() - i,
    {
        assert(list@.take(i + 1).drop_last() =~= list@.take(i as int));
        match &list[i] {
            Some(p) => {
                out.push(p.clone());
            },
            None => {},
        }
        i += 1;
    }
    assert(list@.take(list@.len() as int) =~= list@);
    out
}

/// `list`, starting with number `offset` and going round.
pub open spec fn rotated<A>(list: Seq<A>, offset: int) -> Seq<A> {
    list.skip(offset) + list.take(offset)
}

/// The proxies, and a direct connection last.
pub open spec fn direct_last(list: Seq<ProxyConfig>) -> Seq<Option<ProxyConfig>> {
    list.map_values(|p: ProxyConfig| Some(p)).push(None)
}

/// The proxies from number `offset` on and round, and a direct connection last.
pub fn candidates_from(list: Vec<ProxyConfig>, offset: usize) -> (r: Vec<Option<ProxyConfig>>)
    requires
        offset <= list@.len(),
    ensures
        r@ == direct_last(rotated(list@, offset as int)),
{
    let mut out: Vec<Option<ProxyConfig>> = Vec::new();
    let mut i: usize = offset;
    while i < list.len()
        invariant
            offset <= i <= list@.len(),
            out@ == list@.subrange(offset as int, i as int).map_values(
                |p: ProxyConfig| Some(p),
            ),
        decreases list@.len() - i,
    {
        out.push(Some(list[i].clone()));
        assert(list@.subrange(offset as int, i + 1) =~= list@.subrange(
            offset as int,
            i as int,
        ).push(list@[i as int]));
        assert(out@ =~= list@.subrange(offset as int, i + 1).map_values(|p: ProxyConfig| Some(p)));
        i += 1;
    }
    let ghost tail = out@;
    let mut j: usize = 0;
    assert(out@ =~= tail + list@.subrange(0, 0).map_values(|p: ProxyConfig| Some(p)));
    while j < offset
        invariant
            j <= offset <= list@.len(),
            out@ == tail + list@.subrange(0, j as int).map_values(|p: ProxyConfig| Some(p)),
        decreases offset - j,
    {
        out.push(Some(list[j].clone()));
        assert(list@.subrange(0, j + 1) =~= list@.subrange(0, j as int).push(list@[j as int]));
        assert(out@ =~= tail + list@.subrange(0, j + 1).map_values(|p: ProxyConfig| Some(p)));
        j += 1;
    }
    out.push(None);
    assert(out@ =~= direct_last(rotated(list@, offset as int)));
    out
}

/// Draws a number with `fastrand::usize`, less than `n`.
#[verifier::external_body]
fn random_below(n: usize) -> (r: usize)
    requires
        n > 0,
    ensures
        r < n,
{
    fastrand::usize(..n)
}

/// The candidates of a credential: its proxies, and a direct connection only as
/// the last resort. Proxies that a pool has ordered keep their order; others
/// start at random.
pub fn proxy_candidates_for(proxies: Vec<ProxyConfig>, pooled: bool) -> (r: Vec<
    Option<ProxyConfig>,
>)
    ensures
        exists|offset: int|
            0 <= offset <= proxies@.len() && (pooled ==> offset == 0) && r@
                == #[trigger] direct_last(rotated(proxies@, offset)),
{
    let offset: usize = if pooled || proxies.len() <= 1 {
        0
    } else {
        random_below(proxies.len())
    };
    candidates_from(proxies, offset)
}

/// However it starts, every proxy is a candidate once, and the last candidate is
/// a direct connection.
pub proof fn rotation_keeps_all_candidates(list: Seq<ProxyConfig>, offset: int)
    requires
        0 <= offset <= list.len(),
    ensures
        direct_last(rotated(list, offset)).len() == list.len() + 1,
        direct_last(rotated(list, offset)).last() is None,
        rotated(list, offset).to_multiset() == list.to_multiset(),
        rotated(list, 0) == list,
{
    vstd::seq_lib::lemma_multiset_commutative(list.skip(offset), list.take(offset));
    vstd::seq_lib::lemma_multiset_commutative(list.take(offset), list.skip(offset));
    assert(list.take(offset) + list.skip(offset) =~= list);
    assert(rotated(list, 0) =~= list);
}

/// How sending a request through a candidate came out.
#[derive(Debug, PartialEq, Eq)]
pub enum ProxyEvent {
    /// An answer with a status came back.
    Answered { status: u16 },
    /// The request could not be sent.
    Failed(CallError),
    /// No client for the candidate could be made, and no other is to be tried.
    Aborted(CallError),
}

/// What follows.
#[derive(Debug, PartialEq, Eq)]
pub enum ProxyAction {
    /// Send the request through the next candidate.
    Next,
    /// The answer stands.
    Accept,
    /// The request fails.
    Fail(CallError),
}

/// What follows, and whether the pool is told that the proxy worked, or failed.
#[derive(Debug, PartialEq, Eq)]
pub struct ProxyStep {
    pub report: Option<bool>,
    pub action: ProxyAction,
}

/// What follows after candidate number `index` of `count`. A failure, or an
/// answer for which another proxy may help, moves on while there is a next
/// candidate.
pub open spec fn proxy_step(index: int, count: int, is_proxy: bool, e: ProxyEvent) -> ProxyStep {
    let more = index + 1 < count;
    match e {
        ProxyEvent::Answered { status } => ProxyStep {
            report: if is_proxy {
                Some(!worth_another_proxy(status))
            } else {
                None
            },
            action: if more && worth_another_proxy(status) {
                ProxyAction::Next
            } else {
                ProxyAction::Accept
            },
        },
        ProxyEvent::Failed(e) => ProxyStep {
            report: if is_proxy {
                Some(false)
            } else {
                None
            },
            action: if more {
                ProxyAction::Next
            } else {
                ProxyAction::Fail(e)
            },
        },
        ProxyEvent::Aborted(e) => ProxyStep { report: None, action: ProxyAction::Fail(e) },
    }
}

/// A request on its way through the candidates.
#[derive(Debug)]
pub struct ProxyTries {
    candidates: Vec<Option<ProxyConfig>>,
    index: usize,
}

impl ProxyTries {
    pub closed spec fn candidates(&self) -> Seq<Option<ProxyConfig>> {
        self.candidates@
    }

    /// The number of the candidate at hand.
    pub closed spec fn index(&self) -> int {
        self.index as int
    }

    /// There is a candidate at hand.
    pub open spec fn wf(&self) -> bool {
        0 <= self.index() < self.candidates().len()
    }

    /// Starts with the first candidate; without one the request fails.
    pub fn new(candidates: Vec<Option<ProxyConfig>>) -> (r: Result<ProxyTries, String>)
        ensures
            match r {
                Ok(tries) => candidates@.len() > 0 && tries.candidates() == candidates@
                    && tries.index() == 0,
                Err(e) => candidates@.len() == 0 && e@ == "没有可用代理候选"@,
            },
    {
        if candidates.len() == 0 {
            return Err("没有可用代理候选".to_owned());
        }
        Ok(ProxyTries { candidates, index: 0 })
    }

    /// The candidate at hand; none stands for a direct connection.
    pub fn current(&self) -> (r: Option<&ProxyConfig>)
        requires
            self.wf(),
        ensures
            (match r {
                Some(p) => Some(*p),
                None => None,
            }) == self.candidates()[self.index()],
    {
        self.candidates[self.index].as_ref()
    }

    /// Takes how sending the request through the candidate came out.
    pub fn step(&mut self, event: ProxyEvent) -> (r: ProxyStep)
        requires
            old(self).wf(),
        ensures
            r == proxy_step(
                old(self).index(),
                old(self).candidates().len() as int,
                old(self).candidates()[old(self).index()] is Some,
                event,
            ),
            final(self).wf(),
            final(self).candidates() == old(self).candidates(),
            final(self).index() == old(self).index() + (if r.action is Next {
                1int
            } else {
                0
            }),
    {
        let is_proxy = self.candidates[self.index].is_some();
        let count: usize = self.candidates.len();
        let more = self.index + 1 < count;
        let report = |ok: bool| -> (r: Option<bool>)
            ensures
                r == (if is_proxy {
                    Some(ok)
                } else {
                    None
                }),
        {
            if is_proxy {
                Some(ok)
            } else {
                None
            }
        };
        match event {
            ProxyEvent::Answered { status } => {
                let worth = ProxyConfig::should_try_next_proxy_status(status);
                if more && worth {
                    self.index = self.index + 1;
                    ProxyStep { report: report(false), action: ProxyAction::Next }
                } else {
                    ProxyStep { report: report(!worth), action: ProxyAction::Accept }
                }
            },
            ProxyEvent::Failed(e) => {
                if more {
                    self.index = self.index + 1;
                    ProxyStep { report: report(false), action: ProxyAction::Next }
                } else {
                    ProxyStep { report: report(false), action: ProxyAction::Fail(e) }
                }
            },
            ProxyEvent::Aborted(e) => ProxyStep { report: None, action: ProxyAction::Fail(e) },
        }
    }
}

} // verus!
