//! Session state: cookies (found by name, domain and path), the proxy
//! setting and the online flag.

use vstd::prelude::*;
use crate::text::{chars_of, contains, contains_seq, owned, seq_eq};

verus! {

/// A cookie. Its expiration time is kept as the bit pattern of the
/// floating-point timestamp the application gives.
#[derive(Debug)]
pub struct Cookie {
    pub name: String,
    pub value: String,
    pub domain: String,
    pub path: String,
    pub secure: bool,
    pub http_only: bool,
    pub session: bool,
    pub expiration_date_bits: Option<u64>,
    pub same_site: String,
}

/// A cookie query (absent fields match everything).
#[derive(Debug)]
pub struct CookieFilter {
    /// Part of the domain.
    pub domain: Option<String>,
    /// Exact name.
    pub name: Option<String>,
    /// Exact path.
    pub path: Option<String>,
    /// Secure only.
    pub secure: Option<bool>,
    /// Session only.
    pub session: Option<bool>,
    /// URL.
    pub url: Option<String>,
}

/// A proxy setting.
#[derive(Debug)]
pub struct ProxyConfig {
    /// Mode: direct, auto_detect, pac_script, fixed_servers or system.
    pub mode: String,
    /// PAC script URL.
    pub pac_script: Option<String>,
    /// Proxy rules.
    pub proxy_rules: Option<String>,
    /// Hosts that bypass the proxy.
    pub proxy_bypass_list: Option<Vec<String>>,
}

/// Cache sizes in bytes.
#[derive(Debug)]
pub struct CacheSize {
    pub total: u64,
    pub cache: u64,
    pub storage: u64,
    pub code_cache: u64,
}

/// What a cookie holds.
pub type CookieView = (Seq<char>, Seq<char>, Seq<char>, Seq<char>, bool, bool, bool, Option<u64>, Seq<char>);

/// The view of a cookie.
pub open spec fn cookie_view(c: Cookie) -> CookieView {
    (c.name@, c.value@, c.domain@, c.path@, c.secure, c.http_only, c.session, c.expiration_date_bits, c.same_site@)
}

/// The views of cookies.
pub open spec fn cookie_views(v: Seq<Cookie>) -> Seq<CookieView> {
    v.map_values(|c: Cookie| cookie_view(c))
}

/// A cookie passes a filter: its domain contains the filter's domain, and
/// its name and path equal the filter's, where given.
pub open spec fn passes(c: CookieView, f: CookieFilter) -> bool {
    &&& (f.domain is Some ==> contains_seq(c.2, f.domain->0@))
    &&& (f.name is Some ==> c.0 == f.name->0@)
    &&& (f.path is Some ==> c.3 == f.path->0@)
}

/// The cookies that pass a filter, in order.
pub open spec fn filtered(v: Seq<CookieView>, f: CookieFilter) -> Seq<CookieView> {
    v.filter(|c: CookieView| passes(c, f))
}

/// Two cookies are the same cookie where name, domain and path agree.
pub open spec fn same_cookie(a: CookieView, b: CookieView) -> bool {
    a.0 == b.0 && a.2 == b.2 && a.3 == b.3
}

/// A cookie is removed for a URL and name where its name is that name and
/// the URL contains its domain.
pub open spec fn removed_by(c: CookieView, url: Seq<char>, name: Seq<char>) -> bool {
    c.0 == name && contains_seq(url, c.2)
}

fn copy_cookie(c: &Cookie) -> (r: Cookie)
    ensures
        cookie_view(r) == cookie_view(*c),
{
    Cookie {
        name: c.name.clone(),
        value: c.value.clone(),
        domain: c.domain.clone(),
        path: c.path.clone(),
        secure: c.secure,
        http_only: c.http_only,
        session: c.session,
        expiration_date_bits: c.expiration_date_bits,
        same_site: c.same_site.clone(),
    }
}

fn passes_exec(c: &Cookie, f: &CookieFilter) -> (r: bool)
    ensures
        r == passes(cookie_view(*c), *f),
{
    let mut m = true;
    if let Some(d) = &f.domain {
        let cd = chars_of(c.domain.as_str());
        let dd = chars_of(d.as_str());
        m = m && contains(cd.as_slice(), dd.as_slice());
    }
    if let Some(n) = &f.name {
        let a = chars_of(c.name.as_str());
        let b = chars_of(n.as_str());
        m = m && seq_eq(a.as_slice(), b.as_slice());
    }
    if let Some(p) = &f.path {
        let a = chars_of(c.path.as_str());
        let b = chars_of(p.as_str());
        m = m && seq_eq(a.as_slice(), b.as_slice());
    }
    m
}

/// The proxy setting's view: mode, PAC script, rules and bypass list.
pub open spec fn proxy_view(p: ProxyConfig) -> (Seq<char>, Option<Seq<char>>, Option<Seq<Seq<char>>>, Option<Seq<char>>) {
    (
        p.mode@,
        crate::config_file::opt_string_view(p.pac_script),
        match p.proxy_bypass_list {
            Some(l) => Some(crate::config::string_views(l@)),
            None => None,
        },
        crate::config_file::opt_string_view(p.proxy_rules),
    )
}

fn copy_strings(v: &Vec<String>) -> (r: Vec<String>)
    ensures
        crate::config::string_views(r@) == crate::config::string_views(v@),
{
    let mut out: Vec<String> = Vec::new();
    let mut i: usize = 0;
    while i < v.len()
        invariant
            0 <= i <= v@.len(),
            crate::config::string_views(out@) == crate::config::string_views(v@).take(i as int),
        decreases v@.len() - i,
    {
        let ghost before = crate::config::string_views(out@);
        out.push(v[i].clone());
        assert(crate::config::string_views(out@) =~= before.push(v@[i as int]@));
        assert(crate::config::string_views(v@).take(i as int + 1) =~= crate::config::string_views(v@).take(i as int).push(v@[i as int]@));
        i = i + 1;
    }
    assert(crate::config::string_views(v@).take(v@.len() as int) =~= crate::config::string_views(v@));
    out
}

fn copy_opt(s: &Option<String>) -> (r: Option<String>)
    ensures
        crate::config_file::opt_string_view(r) == crate::config_file::opt_string_view(*s),
{
    match s {
        Some(x) => Some(x.clone()),
        None => None,
    }
}

/// Cookies, proxy and network state of a session.
#[derive(Debug)]
pub struct SessionManager {
    cookies: Vec<Cookie>,
    proxy_config: ProxyConfig,
    is_online: bool,
}

impl SessionManager {
    /// The cookies, in order.
    pub closed spec fn cookies_spec(&self) -> Seq<CookieView> {
        cookie_views(self.cookies@)
    }

    /// The proxy setting.
    pub closed spec fn proxy_spec(&self) -> (Seq<char>, Option<Seq<char>>, Option<Seq<Seq<char>>>, Option<Seq<char>>) {
        proxy_view(self.proxy_config)
    }

    /// Whether the network is online.
    pub closed spec fn online_spec(&self) -> bool {
        self.is_online
    }

    /// No cookies, the system proxy, online.
    pub fn new() -> (r: SessionManager)
        ensures
            r.cookies_spec() == Seq::<CookieView>::empty(),
            r.proxy_spec() == ("system"@, None::<Seq<char>>, None::<Seq<Seq<char>>>, None::<Seq<char>>),
            r.online_spec(),
    {
        let r = SessionManager {
            cookies: Vec::new(),
            proxy_config: ProxyConfig { mode: owned("system"), pac_script: None, proxy_rules: None, proxy_bypass_list: None },
            is_online: true,
        };
        assert(r.cookies_spec() =~= Seq::<CookieView>::empty());
        r
    }

    /// The cookies that pass the filter (all of them without one), in order.
    pub fn get_cookies(&self, filter: Option<CookieFilter>) -> (r: Vec<Cookie>)
        ensures
            cookie_views(r@) == match filter {
                Some(f) => filtered(self.cookies_spec(), f),
                None => self.cookies_spec(),
            },
    {
        let ghost all = self.cookies_spec();
        let mut out: Vec<Cookie> = Vec::new();
        let mut i: usize = 0;
        while i < self.cookies.len()
            invariant
                0 <= i <= self.cookies@.len(),
                all == cookie_views(self.cookies@),
                cookie_views(out@) == match filter {
                    Some(f) => filtered(all.take(i as int), f),
                    None => all.take(i as int),
                },
            decreases self.cookies@.len() - i,
        {
            let c = &self.cookies[i];
            let keep = match &filter {
                Some(f) => passes_exec(c, f),
                None => true,
            };
            assert(all.take(i as int + 1) =~= all.take(i as int).push(all[i as int]));
            assert(all[i as int] == cookie_view(*c));
            proof {
                if filter is Some {
                    let f = filter->0;
                    all.take(i as int).lemma_filter_push(all[i as int], |x: CookieView| passes(x, f));
                }
            }
            if keep {
                let ghost before = cookie_views(out@);
                out.push(copy_cookie(c));
                assert(cookie_views(out@) =~= before.push(all[i as int]));
            }
            i = i + 1;
        }
        assert(all.take(self.cookies@.len() as int) =~= all);
        out
    }

    /// Sets a cookie: it replaces the first one with the same name, domain
    /// and path, or is added at the end.
    pub fn set_cookie(&mut self, cookie: Cookie) -> (r: Result<(), ()>)
        ensures
            r is Ok,
            final(self).proxy_spec() == old(self).proxy_spec(),
            final(self).online_spec() == old(self).online_spec(),
            ({
                let v = old(self).cookies_spec();
                let c = cookie_view(cookie);
                if exists|i: int| 0 <= i < v.len() && same_cookie(#[trigger] v[i], c) {
                    let i = choose|i: int| 0 <= i < v.len() && same_cookie(#[trigger] v[i], c) && forall|j: int|
                        0 <= j < i ==> !same_cookie(#[trigger] v[j], c);
                    final(self).cookies_spec() == v.update(i, c)
                } else {
                    final(self).cookies_spec() == v.push(c)
                }
            }),
    {
        let ghost v = self.cookies_spec();
        let ghost c = cookie_view(cookie);
        let name = chars_of(cookie.name.as_str());
        let domain = chars_of(cookie.domain.as_str());
        let path = chars_of(cookie.path.as_str());
        let mut i: usize = 0;
        while i < self.cookies.len()
            invariant
                0 <= i <= self.cookies@.len(),
                v == cookie_views(self.cookies@),
                *self == *old(self),
                c == cookie_view(cookie),
                name@ == c.0 && domain@ == c.2 && path@ == c.3,
                forall|j: int| 0 <= j < i ==> !same_cookie(#[trigger] v[j], c),
            decreases self.cookies@.len() - i,
        {
            let a = chars_of(self.cookies[i].name.as_str());
            let b = chars_of(self.cookies[i].domain.as_str());
            let p = chars_of(self.cookies[i].path.as_str());
            assert(v[i as int] == cookie_view(self.cookies@[i as int]));
            if seq_eq(a.as_slice(), name.as_slice()) && seq_eq(b.as_slice(), domain.as_slice()) && seq_eq(
                p.as_slice(),
                path.as_slice(),
            ) {
                proof {
                    assert(same_cookie(v[i as int], c));
                    let k = choose|k: int| 0 <= k < v.len() && same_cookie(#[trigger] v[k], c) && forall|j: int|
                        0 <= j < k ==> !same_cookie(#[trigger] v[j], c);
                    if k < i {
                        assert(!same_cookie(v[k], c));
                    }
                    if k > i {
                        assert(!same_cookie(v[i as int], c));
                    }
                }
                self.cookies.set(i, cookie);
                assert(cookie_views(self.cookies@) =~= v.update(i as int, c));
                return Ok(());
            }
            i = i + 1;
        }
        self.cookies.push(cookie);
        assert(cookie_views(self.cookies@) =~= v.push(c));
        Ok(())
    }

    /// Removes every cookie with name `name` whose domain `url` contains.
    pub fn remove_cookie(&mut self, url: &str, name: &str) -> (r: Result<(), ()>)
        ensures
            r is Ok,
            final(self).cookies_spec() == old(self).cookies_spec().filter(|c: CookieView| !removed_by(c, url@, name@)),
            final(self).proxy_spec() == old(self).proxy_spec(),
            final(self).online_spec() == old(self).online_spec(),
    {
        let ghost all = self.cookies_spec();
        let u = chars_of(url);
        let n = chars_of(name);
        let mut kept: Vec<Cookie> = Vec::new();
        let mut old_cookies: Vec<Cookie> = Vec::new();
        std::mem::swap(&mut old_cookies, &mut self.cookies);
        let mut i: usize = 0;
        while i < old_cookies.len()
            invariant
                0 <= i <= old_cookies@.len(),
                all == cookie_views(old_cookies@),
                u@ == url@ && n@ == name@,
                cookie_views(kept@) == all.take(i as int).filter(|c: CookieView| !removed_by(c, url@, name@)),
            decreases old_cookies@.len() - i,
        {
            let c = &old_cookies[i];
            let cn = chars_of(c.name.as_str());
            let cd = chars_of(c.domain.as_str());
            let gone = seq_eq(cn.as_slice(), n.as_slice()) && contains(u.as_slice(), cd.as_slice());
            assert(all[i as int] == cookie_view(*c));
            assert(all.take(i as int + 1) =~= all.take(i as int).push(all[i as int]));
            proof {
                all.take(i as int).lemma_filter_push(all[i as int], |x: CookieView| !removed_by(x, url@, name@));
            }
            if !gone {
                let ghost before = cookie_views(kept@);
                kept.push(copy_cookie(c));
                assert(cookie_views(kept@) =~= before.push(all[i as int]));
            }
            i = i + 1;
        }
        assert(all.take(old_cookies@.len() as int) =~= all);
        self.cookies = kept;
        Ok(())
    }

    /// Flushing needs no work: cookies are held in memory.
    pub fn flush_cookies(&self) -> (r: Result<(), ()>)
        ensures
            r is Ok,
    {
        Ok(())
    }

    /// Clearing the cache needs no work here.
    pub fn clear_cache(&self) -> (r: Result<(), ()>)
        ensures
            r is Ok,
    {
        Ok(())
    }

    /// Clearing storage data needs no work here.
    pub fn clear_storage_data(&self) -> (r: Result<(), ()>)
        ensures
            r is Ok,
    {
        Ok(())
    }

    /// No cache is counted: every size is 0.
    pub fn get_cache_size(&self) -> (r: CacheSize)
        ensures
            r.total == 0 && r.cache == 0 && r.storage == 0 && r.code_cache == 0,
    {
        CacheSize { total: 0, cache: 0, storage: 0, code_cache: 0 }
    }

    /// Replaces the proxy setting.
    pub fn set_proxy(&mut self, config: ProxyConfig) -> (r: Result<(), ()>)
        ensures
            r is Ok,
            final(self).proxy_spec() == proxy_view(config),
            final(self).cookies_spec() == old(self).cookies_spec(),
            final(self).online_spec() == old(self).online_spec(),
    {
        self.proxy_config = config;
        Ok(())
    }

    /// The proxy setting.
    pub fn get_proxy(&self) -> (r: ProxyConfig)
        ensures
            proxy_view(r) == self.proxy_spec(),
    {
        let p = &self.proxy_config;
        ProxyConfig {
            mode: p.mode.clone(),
            pac_script: copy_opt(&p.pac_script),
            proxy_rules: copy_opt(&p.proxy_rules),
            proxy_bypass_list: match &p.proxy_bypass_list {
                Some(l) => Some(copy_strings(l)),
                None => None,
            },
        }
    }

    /// Whether the network is online.
    pub fn is_online(&self) -> (r: bool)
        ensures
            r == self.online_spec(),
    {
        self.is_online
    }

    /// Sets the online flag.
    pub fn set_online(&mut self, online: bool)
        ensures
            final(self).online_spec() == online,
            final(self).cookies_spec() == old(self).cookies_spec(),
            final(self).proxy_spec() == old(self).proxy_spec(),
    {
        self.is_online = online;
    }
}

/// Where some cookie has `c`'s name, domain and path, a first one has.
proof fn lemma_first_same(v: Seq<CookieView>, c: CookieView, w: int)
    requires
        0 <= w < v.len(),
        same_cookie(v[w], c),
    ensures
        exists|i: int|
            0 <= i < v.len() && same_cookie(#[trigger] v[i], c) && forall|j: int|
                0 <= j < i ==> !same_cookie(#[trigger] v[j], c),
    decreases w,
{
    if exists|j: int| 0 <= j < w && same_cookie(#[trigger] v[j], c) {
        let j = choose|j: int| 0 <= j < w && same_cookie(#[trigger] v[j], c);
        lemma_first_same(v, c, j);
    } else {
        assert(forall|j: int| 0 <= j < w ==> !same_cookie(#[trigger] v[j], c));
    }
}

/// No two cookies share a name, domain and path.
pub open spec fn identities_distinct(v: Seq<CookieView>) -> bool {
    forall|i: int, j: int| 0 <= i < j < v.len() ==> !same_cookie(#[trigger] v[i], #[trigger] v[j])
}

/// Setting a cookie (as `set_cookie` changes the store) leaves it in the
/// store, keeps every cookie of another name, domain or path, grows the
/// store by at most one, and keeps names, domains and paths distinct where
/// they were.
pub proof fn law_set_cookie_stores(v: Seq<CookieView>, c: CookieView, after: Seq<CookieView>)
    requires
        (exists|i: int| 0 <= i < v.len() && same_cookie(#[trigger] v[i], c)) ==> ({
            let i = choose|i: int| 0 <= i < v.len() && same_cookie(#[trigger] v[i], c) && forall|j: int|
                0 <= j < i ==> !same_cookie(#[trigger] v[j], c);
            after == v.update(i, c)
        }),
        !(exists|i: int| 0 <= i < v.len() && same_cookie(#[trigger] v[i], c)) ==> after == v.push(c),
    ensures
        after.contains(c),
        forall|x: CookieView| v.contains(x) && !same_cookie(x, c) ==> after.contains(x),
        after.len() <= v.len() + 1,
        identities_distinct(v) ==> identities_distinct(after),
{
    if exists|i: int| 0 <= i < v.len() && same_cookie(#[trigger] v[i], c) {
        let w = choose|i: int| 0 <= i < v.len() && same_cookie(#[trigger] v[i], c);
        assert(0 <= w < v.len() && same_cookie(v[w], c));
        let i = choose|i: int| 0 <= i < v.len() && same_cookie(#[trigger] v[i], c) && forall|j: int|
            0 <= j < i ==> !same_cookie(#[trigger] v[j], c);
        lemma_first_same(v, c, w);
        assert(after[i] == c);
        assert forall|x: CookieView| v.contains(x) && !same_cookie(x, c) implies after.contains(x) by {
            let k = choose|k: int| 0 <= k < v.len() && v[k] == x;
            assert(k != i);
            assert(after[k] == x);
        }
        if identities_distinct(v) {
            assert forall|a: int, b: int| 0 <= a < b < after.len() implies !same_cookie(
                #[trigger] after[a],
                #[trigger] after[b],
            ) by {
                if a == i {
                    assert(!same_cookie(v[a], v[b]));
                } else if b == i {
                    assert(!same_cookie(v[a], v[b]));
                }
            }
        }
    } else {
        assert(after[v.len() as int] == c);
        assert forall|x: CookieView| v.contains(x) && !same_cookie(x, c) implies after.contains(x) by {
            let k = choose|k: int| 0 <= k < v.len() && v[k] == x;
            assert(after[k] == x);
        }
        if identities_distinct(v) {
            assert forall|a: int, b: int| 0 <= a < b < after.len() implies !same_cookie(
                #[trigger] after[a],
                #[trigger] after[b],
            ) by {
                if b == v.len() {
                    assert(!same_cookie(v[a], c));
                }
            }
        }
    }
}

} // verus!
