//! Consent requests waiting for the user. While the authorization endpoint
//! waits, its request is parked here under a request id; the consent window
//! reads it and posts the decision, which resolves it.

use vstd::prelude::*;
use crate::mcp::oauth::store::clone_opt;
use crate::text::{chars_of, push_char, str_eq, string_of};

verus! {

/// A request for consent, as the consent window shows it.
#[derive(Debug)]
pub struct PendingConsent {
    pub request_id: String,
    pub client_id: String,
    pub client_name: String,
    pub redirect_uri: String,
    pub scope: Option<String>,
}

impl PendingConsent {
    /// An equal copy.
    pub fn duplicate(&self) -> (r: Self)
        ensures
            r == *self,
    {
        PendingConsent {
            request_id: self.request_id.clone(),
            client_id: self.client_id.clone(),
            client_name: self.client_name.clone(),
            redirect_uri: self.redirect_uri.clone(),
            scope: clone_opt(&self.scope),
        }
    }
}

/// The requests that wait for a decision, keyed by request id.
#[derive(Debug)]
pub struct ConsentRegistry {
    pub pending: Vec<PendingConsent>,
}

/// The request ids of a list of requests.
pub open spec fn request_ids(ps: Seq<PendingConsent>) -> Seq<Seq<char>> {
    ps.map_values(|p: PendingConsent| p.request_id@)
}

/// The requests other than those with id `id`.
pub open spec fn requests_without(ps: Seq<PendingConsent>, id: Seq<char>) -> Seq<PendingConsent> {
    ps.filter(other_request(id))
}

/// Whether a request is not the one with id `id`.
pub open spec fn other_request(id: Seq<char>) -> spec_fn(PendingConsent) -> bool {
    |p: PendingConsent| p.request_id@ != id
}

/// The request waiting under `id`, if any.
pub open spec fn spec_pending(ps: Seq<PendingConsent>, id: Seq<char>) -> Option<PendingConsent> {
    match crate::text::first_index(request_ids(ps), id) {
        Some(i) => Some(ps[i]),
        None => None,
    }
}

fn remove_requests(ps: &Vec<PendingConsent>, id: &str) -> (r: Vec<PendingConsent>)
    ensures
        r@ == requests_without(ps@, id@),
{
    let mut out: Vec<PendingConsent> = Vec::new();
    let mut i: usize = 0;
    while i < ps.len()
        invariant
            i <= ps.len(),
            out@ == ps@.take(i as int).filter(other_request(id@)),
        decreases ps.len() - i,
    {
        proof {
            reveal_with_fuel(Seq::<PendingConsent>::filter, 1);
            assert(ps@.take(i + 1).drop_last() =~= ps@.take(i as int));
        }
        if !str_eq(ps[i].request_id.as_str(), id) {
            out.push(ps[i].duplicate());
        }
        i = i + 1;
    }
    assert(ps@.take(ps.len() as int) =~= ps@);
    out
}

proof fn lemma_without_drops(ps: Seq<PendingConsent>, id: Seq<char>)
    ensures
        !request_ids(requests_without(ps, id)).contains(id),
    decreases ps.len(),
{
    reveal_with_fuel(Seq::<PendingConsent>::filter, 1);
    if ps.len() > 0 {
        lemma_without_drops(ps.drop_last(), id);
        let prev = requests_without(ps.drop_last(), id);
        if ps.last().request_id@ != id {
            assert(request_ids(prev.push(ps.last())) =~= request_ids(prev).push(ps.last().request_id@));
        }
    }
}

proof fn lemma_without_len(ps: Seq<PendingConsent>, id: Seq<char>)
    ensures
        requests_without(ps, id).len() < ps.len() <==> request_ids(ps).contains(id),
{
    crate::commands::settings::lemma_filter_shorter_iff_contains(ps, other_request(id));
    if request_ids(ps).contains(id) {
        let k = choose|k: int| 0 <= k < request_ids(ps).len() && request_ids(ps)[k] == id;
        assert(ps[k].request_id@ == id);
    }
    if requests_without(ps, id).len() < ps.len() {
        let k = choose|i: int| 0 <= i < ps.len() && !other_request(id)(#[trigger] ps[i]);
        assert(request_ids(ps)[k] == id);
    }
}

impl ConsentRegistry {
    /// No request waits.
    pub fn new() -> (r: Self)
        ensures
            r.pending@.len() == 0,
    {
        ConsentRegistry { pending: Vec::new() }
    }

    /// Parks a request under its id, replacing one parked under the same id.
    pub fn register(&mut self, info: PendingConsent)
        ensures
            final(self).pending@ == requests_without(old(self).pending@, info.request_id@).push(info),
    {
        let kept = remove_requests(&self.pending, info.request_id.as_str());
        self.pending = kept;
        self.pending.push(info);
    }

    /// The request parked under `request_id`.
    pub fn get(&self, request_id: &str) -> (r: Option<PendingConsent>)
        ensures
            r == spec_pending(self.pending@, request_id@),
    {
        let mut i: usize = 0;
        while i < self.pending.len()
            invariant
                i <= self.pending.len(),
                forall|j: int| 0 <= j < i ==> request_ids(self.pending@)[j] != request_id@,
            decreases self.pending.len() - i,
        {
            if str_eq(self.pending[i].request_id.as_str(), request_id) {
                proof {
                    crate::text::lemma_first_index_at(request_ids(self.pending@), request_id@, i as int);
                }
                return Some(self.pending[i].duplicate());
            }
            i = i + 1;
        }
        proof {
            crate::text::lemma_first_index_none(request_ids(self.pending@), request_id@);
        }
        None
    }

    /// Removes the request parked under `request_id`; reports whether one
    /// was waiting (whoever waits on it is then told the decision).
    pub fn resolve(&mut self, request_id: &str) -> (was_waiting: bool)
        ensures
            was_waiting == request_ids(old(self).pending@).contains(request_id@),
            final(self).pending@ == requests_without(old(self).pending@, request_id@),
    {
        let kept = remove_requests(&self.pending, request_id);
        proof {
            lemma_without_len(self.pending@, request_id@);
        }
        let was_waiting = kept.len() < self.pending.len();
        self.pending = kept;
        was_waiting
    }
}

/// A parked request can be read back under its id until it is resolved.
pub proof fn law_registered_consent_is_pending(ps: Seq<PendingConsent>, info: PendingConsent)
    ensures
        spec_pending(requests_without(ps, info.request_id@).push(info), info.request_id@) == Some(info),
{
    let kept = requests_without(ps, info.request_id@);
    lemma_without_drops(ps, info.request_id@);
    assert(request_ids(kept.push(info)) =~= request_ids(kept).push(info.request_id@));
    assert forall|j: int| 0 <= j < kept.len() implies request_ids(kept.push(info))[j] != info.request_id@ by {
        assert(request_ids(kept.push(info))[j] == request_ids(kept)[j]);
    }
    crate::text::lemma_first_index_at(request_ids(kept.push(info)), info.request_id@, kept.len() as int);
}

/// Once resolved, a request is gone: it cannot be read or resolved again.
pub proof fn law_resolved_consent_is_gone(ps: Seq<PendingConsent>, id: Seq<char>)
    ensures
        spec_pending(requests_without(ps, id), id) is None,
        !request_ids(requests_without(ps, id)).contains(id),
{
    lemma_without_drops(ps, id);
    crate::text::lemma_first_index(request_ids(requests_without(ps, id)), id);
}

proof fn lemma_without_unique(ps: Seq<PendingConsent>, id: Seq<char>)
    requires
        request_ids(ps).no_duplicates(),
    ensures
        request_ids(requests_without(ps, id)).no_duplicates(),
    decreases ps.len(),
{
    reveal_with_fuel(Seq::<PendingConsent>::filter, 1);
    if ps.len() > 0 {
        let init = ps.drop_last();
        assert forall|i: int, j: int|
            0 <= i < request_ids(init).len() && 0 <= j < request_ids(init).len() && i != j implies request_ids(
            init,
        )[i] != request_ids(init)[j] by {
            assert(request_ids(init)[i] == request_ids(ps)[i]);
            assert(request_ids(init)[j] == request_ids(ps)[j]);
        }
        lemma_without_unique(init, id);
        let prev = requests_without(init, id);
        if ps.last().request_id@ != id {
            let k = ps.last().request_id@;
            assert(requests_without(ps, id) == prev.push(ps.last()));
            assert(request_ids(prev.push(ps.last())) =~= request_ids(prev).push(k));
            if request_ids(prev).contains(k) {
                let i = choose|i: int| 0 <= i < request_ids(prev).len() && request_ids(prev)[i] == k;
                assert(prev.contains(prev[i]));
                init.lemma_filter_contains_rev(other_request(id), prev[i]);
                let j = choose|j: int| 0 <= j < init.len() && init[j] == prev[i];
                assert(request_ids(ps)[j] == k);
                assert(request_ids(ps)[ps.len() - 1] == k);
            }
            let t = request_ids(prev).push(k);
            assert forall|a: int, b: int| 0 <= a < t.len() && 0 <= b < t.len() && a != b implies t[a]
                != t[b] by {
                if a == request_ids(prev).len() {
                    assert(request_ids(prev)[b] == t[b]);
                } else if b == request_ids(prev).len() {
                    assert(request_ids(prev)[a] == t[a]);
                }
            }
        } else {
            assert(requests_without(ps, id) == prev);
        }
    }
}

/// No two waiting requests share an id: registering a request replaces
/// one waiting under its id, and resolving removes it.
pub proof fn law_consent_ids_stay_unique(ps: Seq<PendingConsent>, info: PendingConsent, id: Seq<char>)
    requires
        request_ids(ps).no_duplicates(),
    ensures
        request_ids(requests_without(ps, info.request_id@).push(info)).no_duplicates(),
        request_ids(requests_without(ps, id)).no_duplicates(),
{
    lemma_without_unique(ps, id);
    lemma_without_unique(ps, info.request_id@);
    lemma_without_drops(ps, info.request_id@);
    let kept = requests_without(ps, info.request_id@);
    let t = request_ids(kept.push(info));
    assert(t =~= request_ids(kept).push(info.request_id@));
    assert forall|a: int, b: int| 0 <= a < t.len() && 0 <= b < t.len() && a != b implies t[a]
        != t[b] by {
        if a == kept.len() {
            assert(request_ids(kept)[b] == t[b]);
        } else if b == kept.len() {
            assert(request_ids(kept)[a] == t[a]);
        } else {
            assert(request_ids(kept)[a] == t[a]);
            assert(request_ids(kept)[b] == t[b]);
        }
    }
}

proof fn lemma_pending_kept(ps: Seq<PendingConsent>, id: Seq<char>, info: PendingConsent, x: Seq<char>) -> (j: int)
    requires
        spec_pending(ps, id) == Some(info),
        request_ids(ps).no_duplicates(),
        x != id,
    ensures
        0 <= j < requests_without(ps, x).len(),
        requests_without(ps, x)[j] == info,
        info.request_id@ == id,
        forall|k: int| 0 <= k < j ==> (#[trigger] requests_without(ps, x)[k]).request_id@ != id,
{
    broadcast use vstd::seq_lib::group_filter_ensures;

    let keys = request_ids(ps);
    crate::text::lemma_first_index(keys, id);
    let i = crate::text::first_index(keys, id)->0;
    assert(ps[i] == info);
    assert(keys[i] == id);
    let f = requests_without(ps, x);
    lemma_without_unique(ps, x);
    assert(other_request(x)(ps[i]));
    assert(f.contains(info));
    let j = choose|j: int| 0 <= j < f.len() && f[j] == info;
    assert forall|k: int| 0 <= k < j implies (#[trigger] f[k]).request_id@ != id by {
        assert(request_ids(f)[k] == f[k].request_id@);
        assert(request_ids(f)[j] == f[j].request_id@);
    }
    j
}

/// A waiting request stays readable while other requests are parked or
/// resolved: only resolving its own id, or parking another request under
/// that id, takes it away.
pub proof fn law_pending_consent_survives_other_requests(
    ps: Seq<PendingConsent>,
    id: Seq<char>,
    info: PendingConsent,
    other: PendingConsent,
    x: Seq<char>,
)
    requires
        spec_pending(ps, id) == Some(info),
        request_ids(ps).no_duplicates(),
        other.request_id@ != id,
        x != id,
    ensures
        spec_pending(requests_without(ps, other.request_id@).push(other), id) == Some(info),
        spec_pending(requests_without(ps, x), id) == Some(info),
{
    let j = lemma_pending_kept(ps, id, info, x);
    let f = requests_without(ps, x);
    crate::text::lemma_first_index_at(request_ids(f), id, j);
    let j2 = lemma_pending_kept(ps, id, info, other.request_id@);
    let g = requests_without(ps, other.request_id@).push(other);
    assert(g[j2] == info);
    assert forall|k: int| 0 <= k < j2 implies request_ids(g)[k] != id by {
        assert(g[k] == requests_without(ps, other.request_id@)[k]);
    }
    crate::text::lemma_first_index_at(request_ids(g), id, j2);
}

/// Whether `c` is an ASCII letter or digit.
pub open spec fn is_ascii_alnum(c: char) -> bool {
    ('0' <= c && c <= '9') || ('a' <= c && c <= 'z') || ('A' <= c && c <= 'Z')
}

/// The ASCII letters and digits of `s`, in order.
pub open spec fn ascii_alnum_only(s: Seq<char>) -> Seq<char>
    decreases s.len(),
{
    if s.len() == 0 {
        Seq::empty()
    } else if is_ascii_alnum(s.last()) {
        ascii_alnum_only(s.drop_last()).push(s.last())
    } else {
        ascii_alnum_only(s.drop_last())
    }
}

/// The label of the consent window for a request: `mcpconsent_` followed
/// by the request id's ASCII letters and digits (window labels may not hold
/// hyphens on some platforms).
pub fn consent_window_label(request_id: &str) -> (r: String)
    ensures
        r@ == "mcpconsent_"@ + ascii_alnum_only(request_id@),
{
    let cs = chars_of(request_id);
    let mut r = string_of("mcpconsent_");
    let mut i: usize = 0;
    while i < cs.len()
        invariant
            i <= cs.len(),
            cs@ == request_id@,
            r@ == "mcpconsent_"@ + ascii_alnum_only(cs@.take(i as int)),
        decreases cs.len() - i,
    {
        let c = cs[i];
        assert(cs@.take(i + 1).drop_last() =~= cs@.take(i as int));
        if ('0' <= c && c <= '9') || ('a' <= c && c <= 'z') || ('A' <= c && c <= 'Z') {
            push_char(&mut r, c);
        }
        i = i + 1;
    }
    assert(cs@.take(cs.len() as int) =~= cs@);
    r
}

} // verus!
