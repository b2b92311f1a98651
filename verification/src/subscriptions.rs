//! The subscription registry: which notification sinks want which
//! signals.
//!
//! Each entry binds a subscribed path and signal name, a process-unique
//! subscription id, and the handle of the sink that receives matching
//! signal frames. The registry is reference-counted per (path, signal)
//! pair: the first entry of a pair asks the broker to subscribe, the
//! removal of the last one asks it to unsubscribe.

use vstd::prelude::*;
use crate::shvpath::starts_on_boundary;
use vstd::string::StrSliceExecFns;

verus! {

/// One registered subscription.
pub struct Subscription {
    pub path: String,
    pub signal: String,
    pub id: u64,
    pub sink: u64,
}

/// Mathematical image of a `Subscription`.
pub struct SubscriptionView {
    pub path: Seq<char>,
    pub signal: Seq<char>,
    pub id: u64,
    pub sink: u64,
}

impl View for Subscription {
    type V = SubscriptionView;

    open spec fn view(&self) -> SubscriptionView {
        SubscriptionView {
            path: self.path@,
            signal: self.signal@,
            id: self.id,
            sink: self.sink,
        }
    }
}

impl DeepView for Subscription {
    type V = SubscriptionView;

    open spec fn deep_view(&self) -> SubscriptionView {
        self.view()
    }
}

/// The entry is for the (path, signal) pair.
pub open spec fn is_pair(e: SubscriptionView, path: Seq<char>, signal: Seq<char>) -> bool {
    e.path == path && e.signal == signal
}

/// The entry is exactly the (path, signal, id) triple.
pub open spec fn is_triple(e: SubscriptionView, path: Seq<char>, signal: Seq<char>, id: u64) -> bool {
    is_pair(e, path, signal) && e.id == id
}

/// Some entry of `s` holds the (path, signal) pair.
pub open spec fn has_pair(s: Seq<SubscriptionView>, path: Seq<char>, signal: Seq<char>) -> bool {
    exists|i: int| 0 <= i < s.len() && is_pair(s[i], path, signal)
}

/// Some entry of `s` is the (path, signal, id) triple.
pub open spec fn has_triple(
    s: Seq<SubscriptionView>,
    path: Seq<char>,
    signal: Seq<char>,
    id: u64,
) -> bool {
    exists|i: int| 0 <= i < s.len() && is_triple(s[i], path, signal, id)
}

/// The entry wants a signal named `signal` arriving on `path`: the
/// signal name agrees and the subscribed path is the arriving path or
/// a boundary prefix of it.
pub open spec fn entry_matches(e: SubscriptionView, path: Seq<char>, signal: Seq<char>) -> bool {
    e.signal == signal && starts_on_boundary(e.path, path)
}

/// `p` placed after every pair whose id is at most its own: the
/// insertion step of an id-ordered listing, stable for equal ids.
pub open spec fn insert_by_id(r: Seq<(u64, u64)>, p: (u64, u64)) -> Seq<(u64, u64)>
    decreases r.len(),
{
    if r.len() == 0 {
        seq![p]
    } else if r.last().0 <= p.0 {
        r.push(p)
    } else {
        insert_by_id(r.drop_last(), p).push(r.last())
    }
}

/// `insert_by_id` holds the new pair and exactly what was there.
pub proof fn lemma_insert_by_id_contains(r: Seq<(u64, u64)>, p: (u64, u64), x: (u64, u64))
    ensures
        insert_by_id(r, p).contains(x) <==> r.contains(x) || x == p,
    decreases r.len(),
{
    if r.len() == 0 {
        assert(insert_by_id(r, p) == seq![p]);
        if x == p {
            assert(insert_by_id(r, p)[0] == x);
        }
    } else if r.last().0 <= p.0 {
        if r.contains(x) {
            let k = choose|k: int| 0 <= k < r.len() && r[k] == x;
            assert(r.push(p)[k] == x);
        }
        if x == p {
            assert(r.push(p)[r.len() as int] == x);
        }
        if insert_by_id(r, p).contains(x) && x != p {
            let k = choose|k: int| 0 <= k < r.push(p).len() && r.push(p)[k] == x;
            assert(r[k] == x);
        }
    } else {
        lemma_insert_by_id_contains(r.drop_last(), p, x);
        let inner = insert_by_id(r.drop_last(), p);
        if inner.contains(x) {
            let k = choose|k: int| 0 <= k < inner.len() && inner[k] == x;
            assert(inner.push(r.last())[k] == x);
        }
        if x == r.last() {
            assert(inner.push(r.last())[inner.len() as int] == x);
            assert(r.contains(x)) by {
                assert(r[r.len() - 1] == x);
            }
        }
        if insert_by_id(r, p).contains(x) {
            let k = choose|k: int|
                0 <= k < inner.push(r.last()).len() && inner.push(r.last())[k] == x;
            if k < inner.len() {
                assert(inner[k] == x);
            } else {
                assert(x == r.last());
            }
        }
        if r.drop_last().contains(x) {
            let k = choose|k: int| 0 <= k < r.drop_last().len() && r.drop_last()[k] == x;
            assert(r[k] == x);
        }
        if r.contains(x) && x != r.last() {
            let k = choose|k: int| 0 <= k < r.len() && r[k] == x;
            assert(r.drop_last()[k] == x);
        }
    }
}

/// `insert_by_id` grows the listing by one.
pub proof fn lemma_insert_by_id_len(r: Seq<(u64, u64)>, p: (u64, u64))
    ensures
        insert_by_id(r, p).len() == r.len() + 1,
    decreases r.len(),
{
    if r.len() > 0 && !(r.last().0 <= p.0) {
        lemma_insert_by_id_len(r.drop_last(), p);
    }
}

/// The ids never descend along the listing.
pub open spec fn sorted_by_id(r: Seq<(u64, u64)>) -> bool {
    forall|k1: int, k2: int| 0 <= k1 <= k2 < r.len() ==> r[k1].0 <= r[k2].0
}

/// `insert_by_id` keeps the listing id-ordered.
pub proof fn lemma_insert_by_id_sorted(r: Seq<(u64, u64)>, p: (u64, u64))
    requires
        sorted_by_id(r),
    ensures
        sorted_by_id(insert_by_id(r, p)),
    decreases r.len(),
{
    if r.len() == 0 {
    } else if r.last().0 <= p.0 {
        assert forall|k1: int, k2: int|
            0 <= k1 <= k2 < r.push(p).len() implies r.push(p)[k1].0 <= r.push(p)[k2].0 by {
            if k2 == r.len() as int && k1 < k2 {
                assert(r[k1].0 <= r.last().0);
            }
        }
    } else {
        assert(sorted_by_id(r.drop_last()));
        lemma_insert_by_id_sorted(r.drop_last(), p);
        lemma_insert_by_id_len(r.drop_last(), p);
        let inner = insert_by_id(r.drop_last(), p);
        assert forall|k: int| 0 <= k < inner.len() implies inner[k].0 <= r.last().0 by {
            assert(inner.contains(inner[k]));
            lemma_insert_by_id_contains(r.drop_last(), p, inner[k]);
            if r.drop_last().contains(inner[k]) {
                let j = choose|j: int|
                    0 <= j < r.drop_last().len() && r.drop_last()[j] == inner[k];
                assert(r[j] == inner[k]);
                assert(r[j].0 <= r.last().0);
            }
        }
        assert forall|k1: int, k2: int|
            0 <= k1 <= k2 < inner.push(r.last()).len() implies inner.push(r.last())[k1].0
            <= inner.push(r.last())[k2].0 by {
            if k2 == inner.len() as int && k1 < k2 {
                assert(inner.push(r.last())[k1] == inner[k1]);
            }
        }
    }
}

/// The (id, sink) pairs of the entries of `s` that want a signal named
/// `signal` on `path`, in ascending subscription-id order; entries of
/// equal ids keep registry order.
pub open spec fn matching_of(s: Seq<SubscriptionView>, path: Seq<char>, signal: Seq<char>) -> Seq<
    (u64, u64),
>
    decreases s.len(),
{
    if s.len() == 0 {
        Seq::empty()
    } else {
        let rest = matching_of(s.drop_last(), path, signal);
        if entry_matches(s.last(), path, signal) {
            insert_by_id(rest, (s.last().id, s.last().sink))
        } else {
            rest
        }
    }
}

/// The listing is id-ordered: across subscribers of one signal,
/// delivery is by ascending subscription id.
pub proof fn lemma_matching_of_sorted(s: Seq<SubscriptionView>, path: Seq<char>, signal: Seq<char>)
    ensures
        sorted_by_id(matching_of(s, path, signal)),
    decreases s.len(),
{
    if s.len() > 0 {
        lemma_matching_of_sorted(s.drop_last(), path, signal);
        if entry_matches(s.last(), path, signal) {
            lemma_insert_by_id_sorted(
                matching_of(s.drop_last(), path, signal),
                (s.last().id, s.last().sink),
            );
        }
    }
}

/// Every matching entry appears in `matching_of`.
pub proof fn lemma_matching_of_complete(
    s: Seq<SubscriptionView>,
    path: Seq<char>,
    signal: Seq<char>,
    i: int,
)
    requires
        0 <= i < s.len(),
        entry_matches(s[i], path, signal),
    ensures
        matching_of(s, path, signal).contains((s[i].id, s[i].sink)),
    decreases s.len(),
{
    let rest = matching_of(s.drop_last(), path, signal);
    if i == s.len() - 1 {
        assert(s.last() == s[i]);
        lemma_insert_by_id_contains(rest, (s[i].id, s[i].sink), (s[i].id, s[i].sink));
    } else {
        assert(s.drop_last()[i] == s[i]);
        lemma_matching_of_complete(s.drop_last(), path, signal, i);
        if entry_matches(s.last(), path, signal) {
            lemma_insert_by_id_contains(rest, (s.last().id, s.last().sink), (s[i].id, s[i].sink));
        }
    }
}

/// Everything in `matching_of` stems from a matching entry.
pub proof fn lemma_matching_of_sound(
    s: Seq<SubscriptionView>,
    path: Seq<char>,
    signal: Seq<char>,
    x: (u64, u64),
)
    requires
        matching_of(s, path, signal).contains(x),
    ensures
        exists|i: int|
            0 <= i < s.len() && entry_matches(s[i], path, signal) && x == (s[i].id, s[i].sink),
    decreases s.len(),
{
    let rest = matching_of(s.drop_last(), path, signal);
    if entry_matches(s.last(), path, signal) {
        lemma_insert_by_id_contains(rest, (s.last().id, s.last().sink), x);
        if x == (s.last().id, s.last().sink) {
            assert(s[s.len() - 1] == s.last());
        } else {
            lemma_matching_of_sound(s.drop_last(), path, signal, x);
            let i = choose|i: int|
                0 <= i < s.drop_last().len() && entry_matches(s.drop_last()[i], path, signal) && x
                    == (s.drop_last()[i].id, s.drop_last()[i].sink);
            assert(s.drop_last()[i] == s[i]);
        }
    } else {
        lemma_matching_of_sound(s.drop_last(), path, signal, x);
        let i = choose|i: int|
            0 <= i < s.drop_last().len() && entry_matches(s.drop_last()[i], path, signal) && x == (
            s.drop_last()[i].id,
            s.drop_last()[i].sink,
            );
        assert(s.drop_last()[i] == s[i]);
    }
}

/// Outcome of registering a subscription.
#[derive(Clone, Copy, Debug, PartialEq, Eq, Structural)]
pub enum AddOutcome {
    /// Registered, and the (path, signal) pair was not subscribed before.
    First,
    /// Registered alongside existing subscriptions of the same pair.
    Joined,
    /// Refused: the same (path, signal, id) triple is already registered.
    DuplicateId,
}

/// The subscription registry.
pub struct Subscriptions {
    entries: Vec<Subscription>,
}

impl View for Subscriptions {
    type V = Seq<SubscriptionView>;

    closed spec fn view(&self) -> Seq<SubscriptionView> {
        self.entries.deep_view()
    }
}

impl Subscriptions {
    /// An empty registry.
    pub fn new() -> (r: Subscriptions)
        ensures
            r@ == Seq::<SubscriptionView>::empty(),
    {
        let r = Subscriptions { entries: Vec::new() };
        assert(r@ =~= Seq::<SubscriptionView>::empty());
        r
    }

    /// Drops every entry.
    pub fn clear(&mut self)
        ensures
            final(self)@ == Seq::<SubscriptionView>::empty(),
    {
        self.entries.clear();
        assert(self@ =~= Seq::<SubscriptionView>::empty());
    }

    /// Registers a subscription. Refuses a (path, signal, id) triple
    /// that is already present; otherwise appends the entry and tells
    /// whether it is the first of its (path, signal) pair.
    pub fn add(&mut self, path: String, signal: String, id: u64, sink: u64) -> (r: AddOutcome)
        ensures
            r == AddOutcome::DuplicateId <==> has_triple(old(self)@, path@, signal@, id),
            r == AddOutcome::DuplicateId ==> final(self)@ == old(self)@,
            r != AddOutcome::DuplicateId ==> final(self)@ == old(self)@.push(
                (SubscriptionView { path: path@, signal: signal@, id, sink }),
            ),
            r == AddOutcome::First <==> !has_triple(old(self)@, path@, signal@, id) && !has_pair(
                old(self)@,
                path@,
                signal@,
            ),
    {
        let ghost s0 = self@;
        let n = self.entries.len();
        let mut pair_seen = false;
        for i in 0..n
            invariant
                n == self.entries.len(),
                self@ == s0,
                pair_seen <==> exists|j: int| 0 <= j < i && is_pair(s0[j], path@, signal@),
                forall|j: int| 0 <= j < i ==> !is_triple(s0[j], path@, signal@, id),
        {
            let e = &self.entries[i];
            assert(e@ == s0[i as int]);
            if e.path == path && e.signal == signal {
                if e.id == id {
                    assert(is_triple(s0[i as int], path@, signal@, id));
                    return AddOutcome::DuplicateId;
                }
                pair_seen = true;
            }
        }
        let ghost newv = (SubscriptionView { path: path@, signal: signal@, id, sink });
        self.entries.push(Subscription { path, signal, id, sink });
        assert(self@ =~= s0.push(newv));
        if pair_seen {
            AddOutcome::Joined
        } else {
            AddOutcome::First
        }
    }

    /// Deregisters the (path, signal, id) triple. Returns true iff the
    /// triple was present and its removal emptied the (path, signal)
    /// pair. Removing an absent triple is benign: after a disconnect
    /// has cleared the registry, late deregistrations still arrive.
    pub fn remove(&mut self, path: &String, signal: &String, id: u64) -> (r: bool)
        ensures
            final(self)@ == old(self)@.filter(
                |e: SubscriptionView| !is_triple(e, path@, signal@, id),
            ),
            r == (has_triple(old(self)@, path@, signal@, id) && !has_pair(
                final(self)@,
                path@,
                signal@,
            )),
    {
        let ghost s0 = self@;
        let n = self.entries.len();
        let mut out: Vec<Subscription> = Vec::new();
        let mut found = false;
        assert(out.deep_view() =~= s0.subrange(0, 0).filter(
            |e: SubscriptionView| !is_triple(e, path@, signal@, id),
        ));
        for i in 0..n
            invariant
                n == self.entries.len(),
                self@ == s0,
                out.deep_view() =~= s0.subrange(0, i as int).filter(
                    |e: SubscriptionView| !is_triple(e, path@, signal@, id),
                ),
                found <==> exists|j: int| 0 <= j < i && is_triple(s0[j], path@, signal@, id),
        {
            let ghost pre = out.deep_view();
            let e = &self.entries[i];
            assert(e@ == s0[i as int]);
            let keep = !(e.path == *path && e.signal == *signal && e.id == id);
            if keep {
                out.push(e.clone_entry());
            } else {
                found = true;
            }
            proof {
                assert(s0.subrange(0, i as int + 1).drop_last() =~= s0.subrange(0, i as int));
                assert(s0.subrange(0, i as int + 1).last() == s0[i as int]);
                reveal(Seq::filter);
            }
            assert(out.deep_view() =~= s0.subrange(0, i as int + 1).filter(
                |e: SubscriptionView| !is_triple(e, path@, signal@, id),
            ));
        }
        assert(s0.subrange(0, n as int) =~= s0);
        self.entries = out;
        let still_some = self.has_pair_entry(path, signal);
        found && !still_some
    }

    /// Whether some entry holds the (path, signal) pair.
    pub fn has_pair_entry(&self, path: &String, signal: &String) -> (r: bool)
        ensures
            r == has_pair(self@, path@, signal@),
    {
        let n = self.entries.len();
        for i in 0..n
            invariant
                n == self.entries.len(),
                forall|j: int| 0 <= j < i ==> !is_pair(self@[j], path@, signal@),
        {
            let e = &self.entries[i];
            assert(e@ == self@[i as int]);
            if e.path == *path && e.signal == *signal {
                assert(is_pair(self@[i as int], path@, signal@));
                return true;
            }
        }
        false
    }

    /// The (id, sink) pairs of every entry that wants a signal named
    /// `signal` arriving on `path`, in ascending subscription-id
    /// order.
    pub fn matching_sinks(&self, path: &str, signal: &str) -> (r: Vec<(u64, u64)>)
        ensures
            r@ == matching_of(self@, path@, signal@),
    {
        let n = self.entries.len();
        let mut out: Vec<(u64, u64)> = Vec::new();
        assert(out@ =~= matching_of(self@.subrange(0, 0), path@, signal@));
        for i in 0..n
            invariant
                n == self.entries.len(),
                out@ =~= matching_of(self@.subrange(0, i as int), path@, signal@),
        {
            let e = &self.entries[i];
            assert(e@ == self@[i as int]);
            if crate::shvpath::path_starts_on_boundary(e.path.as_str(), path) && str_eq(
                e.signal.as_str(),
                signal,
            ) {
                let p = (e.id, e.sink);
                insert_pair_by_id(&mut out, p);
            }
            proof {
                assert(self@.subrange(0, i as int + 1).drop_last() =~= self@.subrange(0, i as int));
                assert(self@.subrange(0, i as int + 1).last() == self@[i as int]);
            }
            assert(out@ =~= matching_of(self@.subrange(0, i as int + 1), path@, signal@));
        }
        assert(self@.subrange(0, n as int) =~= self@);
        out
    }
}

impl Subscription {
    /// Copies the entry.
    pub fn clone_entry(&self) -> (r: Subscription)
        ensures
            r@ == self@,
    {
        Subscription {
            path: self.path.clone(),
            signal: self.signal.clone(),
            id: self.id,
            sink: self.sink,
        }
    }
}

/// Inserts `p` after every pair whose id is at most its own, as
/// `insert_by_id` states.
fn insert_pair_by_id(out: &mut Vec<(u64, u64)>, p: (u64, u64))
    ensures
        final(out)@ == insert_by_id(old(out)@, p),
{
    let ghost pre = out@;
    let mut j = out.len();
    assert(pre.subrange(j as int, pre.len() as int) =~= Seq::<(u64, u64)>::empty());
    assert(insert_by_id(pre, p) =~= insert_by_id(pre.subrange(0, j as int), p) + pre.subrange(
        j as int,
        pre.len() as int,
    )) by {
        assert(pre.subrange(0, j as int) =~= pre);
    }
    while j > 0 && out[j - 1].0 > p.0
        invariant
            j <= out.len(),
            out@ == pre,
            insert_by_id(pre, p) == insert_by_id(pre.subrange(0, j as int), p) + pre.subrange(
                j as int,
                pre.len() as int,
            ),
        decreases j,
    {
        proof {
            let jj = j as int;
            assert(pre.subrange(0, jj).drop_last() =~= pre.subrange(0, jj - 1));
            assert(pre.subrange(0, jj).last() == pre[jj - 1]);
            assert(insert_by_id(pre.subrange(0, jj), p) == insert_by_id(
                pre.subrange(0, jj - 1),
                p,
            ).push(pre[jj - 1]));
            assert(insert_by_id(pre.subrange(0, jj - 1), p).push(pre[jj - 1]) + pre.subrange(
                jj,
                pre.len() as int,
            ) =~= insert_by_id(pre.subrange(0, jj - 1), p) + pre.subrange(
                jj - 1,
                pre.len() as int,
            ));
        }
        j = j - 1;
    }
    proof {
        let jj = j as int;
        if j == 0 {
            assert(pre.subrange(0, 0) =~= Seq::<(u64, u64)>::empty());
            assert(insert_by_id(pre.subrange(0, 0), p) =~= pre.subrange(0, 0).push(p));
        } else {
            assert(pre.subrange(0, jj).last() == pre[jj - 1]);
            assert(insert_by_id(pre.subrange(0, jj), p) == pre.subrange(0, jj).push(p));
        }
    }
    out.insert(j, p);
    assert(out@ =~= insert_by_id(pre, p)) by {
        assert(out@ == pre.insert(j as int, p));
        assert(pre.insert(j as int, p) == pre.subrange(0, j as int).push(p) + pre.subrange(
            j as int,
            pre.len() as int,
        ));
    }
}

/// Decides equality of two string slices.
pub fn str_eq(a: &str, b: &str) -> (r: bool)
    ensures
        r == (a@ == b@),
{
    let alen = a.unicode_len();
    let blen = b.unicode_len();
    if alen != blen {
        return false;
    }
    for i in 0..alen
        invariant
            alen == a@.len(),
            blen == b@.len(),
            alen == blen,
            forall|j: int| 0 <= j < i ==> a@[j] == b@[j],
    {
        if a.get_char(i) != b.get_char(i) {
            return false;
        }
    }
    assert(a@ =~= b@);
    true
}

} // verus!
