//! Custom protocol registrations: which schemes are handled, how each was
//! registered, and the request that a URL of a handled scheme makes. The
//! handler callbacks themselves are kept and called by the application.

use vstd::prelude::*;
use crate::kv::{kv_get, map_of};
use crate::text::{
    chars_of, contains_seq, find, lowercase, occurs_at, owned, seq_eq, slice_chars, string_from,
    to_lowercase,
};

verus! {

/// How a protocol answers.
#[derive(Debug, Clone, Copy, PartialEq, Eq, Structural)]
pub enum ProtocolType {
    /// Files.
    File,
    /// Buffers.
    Buffer,
    /// Strings.
    String,
    /// HTTP.
    Http,
}

/// A handler's answer.
#[derive(Debug)]
pub struct ProtocolResponse {
    /// Status code.
    pub status_code: u16,
    /// Headers, as (name, value) pairs.
    pub headers: Vec<(String, String)>,
    /// Data, base64-encoded.
    pub data: Option<String>,
    /// Text.
    pub text: Option<String>,
    /// File path.
    pub path: Option<String>,
    /// MIME type.
    pub mime_type: Option<String>,
    /// Character set.
    pub charset: Option<String>,
    /// Redirect URL.
    pub redirect_url: Option<String>,
}

/// The request a handler receives.
#[derive(Debug)]
pub struct ProtocolRequest {
    /// The URL.
    pub url: String,
    /// The method.
    pub method: String,
    /// Headers, as (name, value) pairs.
    pub headers: Vec<(String, String)>,
    /// Body.
    pub body: Option<String>,
    /// Uploaded data.
    pub upload_data: Option<Vec<u8>>,
    /// Referrer.
    pub referrer: Option<String>,
}

/// A registration record.
#[derive(Debug)]
pub struct ProtocolRegistration {
    /// The scheme, lowercase.
    pub scheme: String,
    /// How it answers.
    pub handler_type: ProtocolType,
    /// Registered as a standard scheme.
    pub is_standard: bool,
}

/// The view of a registration record.
pub open spec fn registration_view(r: ProtocolRegistration) -> (Seq<char>, ProtocolType, bool) {
    (r.scheme@, r.handler_type, r.is_standard)
}

/// The views of registration records.
pub open spec fn registrations_view(v: Seq<ProtocolRegistration>) -> Seq<(Seq<char>, ProtocolType, bool)> {
    v.map_values(|r: ProtocolRegistration| registration_view(r))
}

/// Why a protocol request was refused.
#[derive(Debug)]
pub enum ProtocolManagerError {
    /// No handler for the scheme (lowercase).
    Unregistered(String),
}

/// The schemes with a handler, and the registration records.
#[derive(Debug)]
pub struct ProtocolManager {
    handled: Vec<String>,
    registrations: Vec<ProtocolRegistration>,
}

/// A record is not of `scheme`.
pub open spec fn other_scheme(scheme: Seq<char>) -> spec_fn((Seq<char>, ProtocolType, bool)) -> bool {
    |r: (Seq<char>, ProtocolType, bool)| r.0 != scheme
}

/// Removes every record of `scheme`.
pub open spec fn without_scheme(v: Seq<(Seq<char>, ProtocolType, bool)>, scheme: Seq<char>) -> Seq<(Seq<char>, ProtocolType, bool)> {
    v.filter(other_scheme(scheme))
}

/// The scheme of a URL: its text before the first `://` (all of it where
/// there is none), lowercase.
pub open spec fn url_scheme(url: Seq<char>) -> Seq<char> {
    if contains_seq(url, "://"@) {
        lowercase(url.take(crate::server::first_index(url, "://"@)))
    } else {
        lowercase(url)
    }
}

impl ProtocolManager {
    #[verifier::type_invariant]
    spec fn well_formed(&self) -> bool {
        forall|i: int, j: int|
            0 <= i < j < self.handled@.len() ==> (#[trigger] self.handled@[i])@ != (#[trigger] self.handled@[j])@
    }

    /// The schemes with a handler.
    pub closed spec fn schemes(&self) -> Set<Seq<char>> {
        self.handled@.map_values(|s: String| s@).to_set()
    }

    /// The registration records, in order.
    pub closed spec fn records(&self) -> Seq<(Seq<char>, ProtocolType, bool)> {
        registrations_view(self.registrations@)
    }

    /// No scheme handled; no records.
    pub fn new() -> (r: ProtocolManager)
        ensures
            r.schemes() == Set::<Seq<char>>::empty(),
            r.records() == Seq::<(Seq<char>, ProtocolType, bool)>::empty(),
    {
        let r = ProtocolManager { handled: Vec::new(), registrations: Vec::new() };
        assert(r.schemes() =~= Set::<Seq<char>>::empty());
        assert(r.records() =~= Seq::<(Seq<char>, ProtocolType, bool)>::empty());
        r
    }

    fn position(&self, scheme: &[char]) -> (r: Option<usize>)
        ensures
            match r {
                Some(i) => i < self.handled@.len() && self.handled@[i as int]@ == scheme@
                    && self.schemes().contains(scheme@),
                None => !self.schemes().contains(scheme@),
            },
    {
        let mut i: usize = 0;
        while i < self.handled.len()
            invariant
                0 <= i <= self.handled@.len(),
                forall|j: int| 0 <= j < i ==> (#[trigger] self.handled@[j])@ != scheme@,
            decreases self.handled@.len() - i,
        {
            let c = chars_of(self.handled[i].as_str());
            if seq_eq(c.as_slice(), scheme) {
                proof {
                    let hv = self.handled@.map_values(|s: String| s@);
                    assert(hv[i as int] == scheme@);
                    assert(hv.contains(scheme@));
                }
                return Some(i);
            }
            i = i + 1;
        }
        proof {
            let hv = self.handled@.map_values(|s: String| s@);
            if hv.contains(scheme@) {
                let j = choose|j: int| 0 <= j < hv.len() && #[trigger] hv[j] == scheme@;
                assert(self.handled@[j]@ == scheme@);
            }
        }
        None
    }

    /// Registers `scheme` (lowercased) with a handler of type `kind`: where
    /// it is already handled nothing changes and the answer is `false`.
    fn register(&mut self, scheme: &str, kind: ProtocolType) -> (r: Result<bool, ()>)
        ensures
            ({
                let s = lowercase(scheme@);
                if old(self).schemes().contains(s) {
                    r == Ok::<bool, ()>(false) && final(self).schemes() == old(self).schemes()
                        && final(self).records() == old(self).records()
                } else {
                    r == Ok::<bool, ()>(true) && final(self).schemes() == old(self).schemes().insert(s)
                        && final(self).records() == old(self).records().push((s, kind, true))
                }
            }),
    {
        proof {
            use_type_invariant(&*self);
        }
        let sv = chars_of(scheme);
        let lower = to_lowercase(sv.as_slice());
        if self.position(lower.as_slice()).is_some() {
            return Ok(false);
        }
        let name = string_from(lower.as_slice());
        let ghost before = self.handled@;
        let ghost recs = self.records();
        let mut h: Vec<String> = Vec::new();
        std::mem::swap(&mut h, &mut self.handled);
        h.push(name.clone());
        proof {
            assert forall|i: int, j: int| 0 <= i < j < h@.len() implies (#[trigger] h@[i])@ != (#[trigger] h@[j])@ by {
                if j == h@.len() - 1 {
                    assert(before.map_values(|s: String| s@)[i] == before[i]@);
                    assert(!before.map_values(|s: String| s@).to_set().contains(lower@));
                } else {
                    assert(h@[i] == before[i] && h@[j] == before[j]);
                }
            }
            let bv = before.map_values(|s: String| s@);
            let hv = h@.map_values(|s: String| s@);
            assert(hv =~= bv.push(lower@));
            assert forall|x: Seq<char>| hv.contains(x) <==> bv.contains(x) || x == lower@ by {
                if hv.contains(x) {
                    let k = choose|k: int| 0 <= k < hv.len() && #[trigger] hv[k] == x;
                    if k < bv.len() {
                        assert(bv[k] == x);
                    }
                }
                if bv.contains(x) {
                    let k = choose|k: int| 0 <= k < bv.len() && #[trigger] bv[k] == x;
                    assert(hv[k] == x);
                }
                if x == lower@ {
                    assert(hv[bv.len() as int] == x);
                }
            }
            assert(hv.to_set() =~= bv.to_set().insert(lower@));
        }
        self.handled = h;
        let mut regs: Vec<ProtocolRegistration> = Vec::new();
        std::mem::swap(&mut regs, &mut self.registrations);
        regs.push(ProtocolRegistration { scheme: name, handler_type: kind, is_standard: true });
        self.registrations = regs;
        assert(self.records() =~= recs.push((lower@, kind, true)));
        Ok(true)
    }

    /// Registers a string protocol for `scheme` (lowercased); `false` where
    /// the scheme is already handled.
    pub fn register_string_protocol(&mut self, scheme: &str) -> (r: Result<bool, ()>)
        ensures
            ({
                let s = lowercase(scheme@);
                if old(self).schemes().contains(s) {
                    r == Ok::<bool, ()>(false) && final(self).schemes() == old(self).schemes()
                        && final(self).records() == old(self).records()
                } else {
                    r == Ok::<bool, ()>(true) && final(self).schemes() == old(self).schemes().insert(s)
                        && final(self).records() == old(self).records().push((s, ProtocolType::String, true))
                }
            }),
    {
        self.register(scheme, ProtocolType::String)
    }

    /// Registers a file protocol for `scheme` (lowercased); `false` where
    /// the scheme is already handled.
    pub fn register_file_protocol(&mut self, scheme: &str) -> (r: Result<bool, ()>)
        ensures
            ({
                let s = lowercase(scheme@);
                if old(self).schemes().contains(s) {
                    r == Ok::<bool, ()>(false) && final(self).schemes() == old(self).schemes()
                        && final(self).records() == old(self).records()
                } else {
                    r == Ok::<bool, ()>(true) && final(self).schemes() == old(self).schemes().insert(s)
                        && final(self).records() == old(self).records().push((s, ProtocolType::File, true))
                }
            }),
    {
        self.register(scheme, ProtocolType::File)
    }

    /// Unregisters `scheme` (lowercased): its handler and all its records go;
    /// the answer is whether it had a handler.
    pub fn unregister_protocol(&mut self, scheme: &str) -> (r: Result<bool, ()>)
        ensures
            r == Ok::<bool, ()>(old(self).schemes().contains(lowercase(scheme@))),
            final(self).schemes() == old(self).schemes().remove(lowercase(scheme@)),
            final(self).records() == without_scheme(old(self).records(), lowercase(scheme@)),
    {
        proof {
            use_type_invariant(&*self);
        }
        let sv = chars_of(scheme);
        let lower = to_lowercase(sv.as_slice());
        let found = self.position(lower.as_slice());
        let removed = found.is_some();
        if let Some(i) = found {
            let ghost before = self.handled@;
            let mut h: Vec<String> = Vec::new();
            std::mem::swap(&mut h, &mut self.handled);
            h.remove(i);
            proof {
                assert(h@ =~= before.remove(i as int));
                assert forall|a: int, b: int| 0 <= a < b < h@.len() implies (#[trigger] h@[a])@ != (#[trigger] h@[b])@ by {
                    let a2 = if a < i { a } else { a + 1 };
                    let b2 = if b < i { b } else { b + 1 };
                    assert(h@[a] == before[a2] && h@[b] == before[b2]);
                }
                let bv = before.map_values(|s: String| s@);
                let hv = h@.map_values(|s: String| s@);
                assert forall|x: Seq<char>| hv.to_set().contains(x) <==> bv.to_set().remove(lower@).contains(x) by {
                    if hv.to_set().contains(x) {
                        let k = choose|k: int| 0 <= k < hv.len() && #[trigger] hv[k] == x;
                        let k2 = if k < i { k } else { k + 1 };
                        assert(hv[k] == bv[k2]);
                        assert(bv[k2] != lower@);
                    }
                    if bv.to_set().remove(lower@).contains(x) {
                        let k = choose|k: int| 0 <= k < bv.len() && #[trigger] bv[k] == x;
                        assert(k != i);
                        let k2 = if k < i { k } else { k - 1 };
                        assert(hv[k2] == bv[k]);
                    }
                }
                assert(hv.to_set() =~= bv.to_set().remove(lower@));
            }
            self.handled = h;
        } else {
            assert(self.schemes().remove(lower@) =~= self.schemes());
        }
        let ghost recs = self.records();
        let mut kept: Vec<ProtocolRegistration> = Vec::new();
        let mut old_regs: Vec<ProtocolRegistration> = Vec::new();
        std::mem::swap(&mut old_regs, &mut self.registrations);
        let ghost ov = registrations_view(old_regs@);
        let mut j: usize = 0;
        while j < old_regs.len()
            invariant
                0 <= j <= old_regs@.len(),
                ov == registrations_view(old_regs@),
                registrations_view(kept@) == without_scheme(ov.take(j as int), lower@),
            decreases old_regs@.len() - j,
        {
            let rc = chars_of(old_regs[j].scheme.as_str());
            let same = seq_eq(rc.as_slice(), lower.as_slice());
            assert(ov.take(j as int + 1).drop_last() =~= ov.take(j as int));
            assert(ov.take(j as int + 1).last() == ov[j as int]);
            assert(ov[j as int] == registration_view(old_regs@[j as int]));
            if !same {
                let r = ProtocolRegistration {
                    scheme: old_regs[j].scheme.clone(),
                    handler_type: old_regs[j].handler_type,
                    is_standard: old_regs[j].is_standard,
                };
                let ghost kv = registrations_view(kept@);
                kept.push(r);
                assert(registrations_view(kept@) =~= kv.push(ov[j as int]));
            }
            proof {
                i_filter_step(ov, j as int, lower@);
            }
            j = j + 1;
        }
        assert(ov.take(old_regs@.len() as int) =~= ov);
        self.registrations = kept;
        Ok(removed)
    }

    /// Whether `scheme` (lowercased) has a handler.
    pub fn is_protocol_handled(&self, scheme: &str) -> (r: bool)
        ensures
            r == self.schemes().contains(lowercase(scheme@)),
    {
        let sv = chars_of(scheme);
        let lower = to_lowercase(sv.as_slice());
        self.position(lower.as_slice()).is_some()
    }

    /// The registration records.
    pub fn get_registered_protocols(&self) -> (r: Vec<ProtocolRegistration>)
        ensures
            registrations_view(r@) == self.records(),
    {
        let mut out: Vec<ProtocolRegistration> = Vec::new();
        let mut i: usize = 0;
        while i < self.registrations.len()
            invariant
                0 <= i <= self.registrations@.len(),
                registrations_view(out@) == registrations_view(self.registrations@).take(i as int),
            decreases self.registrations@.len() - i,
        {
            let r = ProtocolRegistration {
                scheme: self.registrations[i].scheme.clone(),
                handler_type: self.registrations[i].handler_type,
                is_standard: self.registrations[i].is_standard,
            };
            let ghost before = registrations_view(out@);
            out.push(r);
            assert(registrations_view(out@) =~= before.push(registration_view(self.registrations@[i as int])));
            assert(registrations_view(self.registrations@).take(i as int + 1) =~= registrations_view(
                self.registrations@,
            ).take(i as int).push(registration_view(self.registrations@[i as int])));
            i = i + 1;
        }
        assert(registrations_view(self.registrations@).take(self.registrations@.len() as int)
            =~= registrations_view(self.registrations@));
        out
    }

    /// The request that the handler of a URL's scheme receives (a `GET` of
    /// the URL), or the refusal naming an unhandled scheme.
    pub fn handle_request(&self, url: &str) -> (r: Result<ProtocolRequest, ProtocolManagerError>)
        ensures
            match r {
                Ok(req) => self.schemes().contains(url_scheme(url@)) && req.url@ == url@
                    && req.method@ == "GET"@ && req.headers@.len() == 0 && req.body is None
                    && req.upload_data is None && req.referrer is None,
                Err(ProtocolManagerError::Unregistered(s)) => !self.schemes().contains(url_scheme(url@))
                    && s@ == url_scheme(url@),
            },
    {
        let u = chars_of(url);
        let sep = chars_of("://");
        let head = match find(u.as_slice(), sep.as_slice()) {
            Some(i) => {
                proof {
                    crate::server::lemma_first_index_pub(u@, sep@, i as int);
                    assert(contains_seq(u@, sep@));
                }
                slice_chars(u.as_slice(), 0, i)
            },
            None => {
                let n = u.len();
                let all = slice_chars(u.as_slice(), 0, n);
                assert(all@ =~= u@);
                all
            },
        };
        let lower = to_lowercase(head.as_slice());
        assert(lower@ == url_scheme(url@));
        match self.position(lower.as_slice()) {
            Some(i) => {
                proof {
                    let hv = self.handled@.map_values(|s: String| s@);
                    assert(hv[i as int] == lower@);
                }
                Ok(ProtocolRequest {
                    url: owned(url),
                    method: owned("GET"),
                    headers: Vec::new(),
                    body: None,
                    upload_data: None,
                    referrer: None,
                })
            },
            None => Err(ProtocolManagerError::Unregistered(string_from(lower.as_slice()))),
        }
    }
}

proof fn i_filter_step(ov: Seq<(Seq<char>, ProtocolType, bool)>, j: int, scheme: Seq<char>)
    requires
        0 <= j < ov.len(),
    ensures
        without_scheme(ov.take(j + 1), scheme) == if ov[j].0 != scheme {
            without_scheme(ov.take(j), scheme).push(ov[j])
        } else {
            without_scheme(ov.take(j), scheme)
        },
{
    assert(ov.take(j + 1) =~= ov.take(j).push(ov[j]));
    ov.take(j).lemma_filter_push(ov[j], other_scheme(scheme));
}

/// A scheme that is registered (its set of handled schemes as
/// `register_string_protocol` and `register_file_protocol` leave it) is
/// handled, and others keep their state; unregistering it (as
/// `unregister_protocol` leaves the set) makes it unhandled and again
/// leaves the others as they were.
pub proof fn law_register_unregister(before: Set<Seq<char>>, s: Seq<char>, t: Seq<char>)
    ensures
        before.insert(s).contains(s),
        t != s ==> (before.insert(s).contains(t) == before.contains(t)),
        !before.insert(s).remove(s).contains(s),
        t != s ==> (before.insert(s).remove(s).contains(t) == before.contains(t)),
        !before.contains(s) ==> before.insert(s).remove(s) == before,
{
    if !before.contains(s) {
        assert(before.insert(s).remove(s) =~= before);
    }
}

} // verus!
