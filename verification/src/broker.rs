//! The bus bridge: bookkeeping for links to the external publish/subscribe
//! backbone, one per upstream host.
//!
//! Establishing a link is slow and must happen at most once per host at any
//! time: concurrent demands for the same host coalesce into one in-flight
//! attempt, every demander waits on it, and all of them observe the same
//! outcome.  A failed attempt leaves no half-initialized link behind.  The
//! bridge also keeps the consume-side discipline: an inbound bus message is
//! acknowledged exactly once, after local handling, before the next one is
//! considered processed.

use vstd::prelude::*;

verus! {

/// A link to one upstream bus host: ready, or still being established with
/// the callers that wait for it.
pub struct BusLink {
    /// The upstream host this link reaches.
    pub host: String,
    /// Whether the link is established and usable.
    pub ready: bool,
    /// Callers waiting for the in-flight establishment attempt.
    pub waiters: Vec<u64>,
}

/// Spec mirror of `BusLink`.
pub ghost struct BusLinkV {
    pub host: Seq<char>,
    pub ready: bool,
    pub waiters: Seq<u64>,
}

impl View for BusLink {
    type V = BusLinkV;

    open spec fn view(&self) -> BusLinkV {
        BusLinkV { host: self.host@, ready: self.ready, waiters: self.waiters@ }
    }
}

/// Hosts are unique, and a ready link keeps nobody waiting.
pub open spec fn links_wf(ls: Seq<BusLinkV>) -> bool {
    &&& forall|i: int, j: int|
        0 <= i < j < ls.len() ==> (#[trigger] ls[i]).host != (#[trigger] ls[j]).host
    &&& forall|i: int| 0 <= i < ls.len() && (#[trigger] ls[i]).ready ==> ls[i].waiters.len() == 0
}

/// Whether a link for `h` exists (ready or in flight).
pub open spec fn has_link(ls: Seq<BusLinkV>, h: Seq<char>) -> bool {
    exists|i: int| 0 <= i < ls.len() && (#[trigger] ls[i]).host == h
}

/// The index of `h`'s link (meaningful when one exists and hosts are
/// unique).
pub open spec fn link_index(ls: Seq<BusLinkV>, h: Seq<char>) -> int {
    choose|i: int| 0 <= i < ls.len() && (#[trigger] ls[i]).host == h
}

/// How an `ensure_link` demand was answered.
#[derive(Clone, Copy, PartialEq, Eq, Structural, Debug)]
pub enum EnsureLink {
    /// The link is established; use it.
    Ready,
    /// No link existed: this caller starts the one establishment attempt,
    /// and owes the bridge a `complete_link` with its outcome.
    Started,
    /// An attempt is already in flight: this caller waits on it.
    Joined,
}

/// The links after a demand for `h` by `w`: nothing changes when the link
/// is ready; an in-flight attempt gains a waiter; with no link at all a
/// fresh attempt is recorded with `w` as its first waiter.
pub open spec fn spec_ensure_link(ls: Seq<BusLinkV>, h: Seq<char>, w: u64) -> Seq<BusLinkV> {
    if has_link(ls, h) {
        let i = link_index(ls, h);
        if ls[i].ready {
            ls
        } else {
            ls.update(i, BusLinkV { waiters: ls[i].waiters.push(w), ..ls[i] })
        }
    } else {
        ls.push(BusLinkV { host: h, ready: false, waiters: seq![w] })
    }
}

/// What that demand is answered.
pub open spec fn ensure_verdict(ls: Seq<BusLinkV>, h: Seq<char>) -> EnsureLink {
    if has_link(ls, h) {
        if ls[link_index(ls, h)].ready {
            EnsureLink::Ready
        } else {
            EnsureLink::Joined
        }
    } else {
        EnsureLink::Started
    }
}

/// The links after the in-flight attempt for `h` ends: on success the link
/// becomes ready and its waiters leave (each notified); on failure the link
/// is removed entirely, leaving nothing half-initialized.  Completing a
/// host with no attempt in flight changes nothing.
pub open spec fn spec_complete(ls: Seq<BusLinkV>, h: Seq<char>, success: bool) -> Seq<BusLinkV> {
    if has_link(ls, h) && !ls[link_index(ls, h)].ready {
        if success {
            ls.update(link_index(ls, h), BusLinkV { ready: true, waiters: seq![], ..ls[link_index(ls, h)] })
        } else {
            ls.remove(link_index(ls, h))
        }
    } else {
        ls
    }
}

/// The callers notified when the attempt for `h` ends: all of its waiters,
/// each receiving the same outcome.
pub open spec fn complete_waiters(ls: Seq<BusLinkV>, h: Seq<char>) -> Seq<u64> {
    if has_link(ls, h) && !ls[link_index(ls, h)].ready {
        ls[link_index(ls, h)].waiters
    } else {
        seq![]
    }
}

/// The wire vocabulary of the bridge task.
pub enum BrokerMessage {
    /// Hand a payload to the bus.
    ToRedis,
    /// A payload arrived from the bus.
    FromRedis,
    /// Demand a ready link for this host.
    AddBroker(String),
    /// The link for this host is ready.
    BrokerReady(String),
    /// The demand failed; same answer for every waiter.
    Error(BrokerError),
    /// The inbound stream of this host is set up.
    StreamReady(String),
}

/// Classified bridge failures.
pub enum BrokerError {
    /// The link could not be established.
    CouldNotCreate,
}

/// The bus bridge: the single owner of every link.
pub struct Broker {
    /// The links, at most one per host.
    pub links: Vec<BusLink>,
}

impl View for Broker {
    type V = Seq<BusLinkV>;

    open spec fn view(&self) -> Seq<BusLinkV> {
        self.links@.map_values(|l: BusLink| l@)
    }
}

impl Broker {
    /// A bridge with no links.
    pub fn new() -> (r: Broker)
        ensures
            r@ == Seq::<BusLinkV>::empty(),
            links_wf(r@),
    {
        let r = Broker { links: Vec::new() };
        proof {
            assert(r@ =~= Seq::<BusLinkV>::empty());
        }
        r
    }

    /// Finds the link of `host`, if any.
    fn find_link(&self, host: &String) -> (r: Option<usize>)
        requires
            links_wf(self@),
        ensures
            match r {
                Some(i) => has_link(self@, host@) && i < self@.len() && self@[i as int].host
                    == host@ && link_index(self@, host@) == i as int,
                None => !has_link(self@, host@),
            },
    {
        let n = self.links.len();
        let mut i: usize = 0;
        while i < n
            invariant
                i <= n,
                n == self.links.len(),
                self@.len() == n,
                links_wf(self@),
                forall|k: int| 0 <= k < i ==> (#[trigger] self@[k]).host != host@,
            decreases n - i,
        {
            if self.links[i].host == *host {
                proof {
                    assert(self@[i as int].host == host@);
                    let j = link_index(self@, host@);
                    assert(0 <= j < self@.len() && self@[j].host == host@);
                    if j != i as int {
                        assert(false);
                    }
                }
                return Some(i);
            }
            i = i + 1;
        }
        None
    }

    /// Demands a ready link for `host` on behalf of caller `waiter`.
    /// `Started` is answered to exactly the caller that must now establish
    /// the link; everyone else either uses the ready link or joins the
    /// in-flight attempt.
    pub fn ensure_link(&mut self, host: &String, waiter: u64) -> (r: EnsureLink)
        requires
            links_wf(old(self)@),
        ensures
            final(self)@ == spec_ensure_link(old(self)@, host@, waiter),
            links_wf(final(self)@),
            r == ensure_verdict(old(self)@, host@),
    {
        let found = self.find_link(host);
        match found {
            Some(i) => {
                if self.links[i].ready {
                    EnsureLink::Ready
                } else {
                    let ghost ls0 = self@;
                    let mut link = self.links.remove(i);
                    link.waiters.push(waiter);
                    self.links.insert(i, link);
                    proof {
                        assert(self@ =~= spec_ensure_link(ls0, host@, waiter));
                        lemma_spec_ensure_link_wf(ls0, host@, waiter);
                    }
                    EnsureLink::Joined
                }
            },
            None => {
                let ghost ls0 = self@;
                let mut waiters: Vec<u64> = Vec::new();
                waiters.push(waiter);
                self.links.push(BusLink { host: host.clone(), ready: false, waiters });
                proof {
                    assert(self@ =~= spec_ensure_link(ls0, host@, waiter));
                    lemma_spec_ensure_link_wf(ls0, host@, waiter);
                }
                EnsureLink::Started
            },
        }
    }

    /// Ends the in-flight attempt for `host` and returns the waiters to
    /// notify: on success the link is ready for all of them, on failure it
    /// is gone and all of them receive the same classified error.
    pub fn complete_link(&mut self, host: &String, success: bool) -> (w: Vec<u64>)
        requires
            links_wf(old(self)@),
        ensures
            final(self)@ == spec_complete(old(self)@, host@, success),
            links_wf(final(self)@),
            w@ == complete_waiters(old(self)@, host@),
    {
        let found = self.find_link(host);
        match found {
            Some(i) => {
                if self.links[i].ready {
                    Vec::new()
                } else {
                    let ghost ls0 = self@;
                    let mut link = self.links.remove(i);
                    let mut w: Vec<u64> = Vec::new();
                    core::mem::swap(&mut w, &mut link.waiters);
                    if success {
                        link.ready = true;
                        self.links.insert(i, link);
                        proof {
                            assert(self@ =~= spec_complete(ls0, host@, success));
                            lemma_spec_complete_wf(ls0, host@, success);
                        }
                    } else {
                        proof {
                            assert(self@ =~= spec_complete(ls0, host@, success));
                            lemma_spec_complete_wf(ls0, host@, success);
                        }
                    }
                    w
                }
            },
            None => {
                Vec::new()
            },
        }
    }

    /// Whether a ready link for `host` exists, so that a payload can be
    /// published over it.
    pub fn link_ready(&self, host: &String) -> (b: bool)
        requires
            links_wf(self@),
        ensures
            b == (has_link(self@, host@) && self@[link_index(self@, host@)].ready),
    {
        let found = self.find_link(host);
        match found {
            Some(i) => self.links[i].ready,
            None => false,
        }
    }
}

/// A demand preserves well-formedness; afterwards the link exists, and an
/// in-flight attempt keeps every earlier waiter and gains the new one.
pub proof fn lemma_spec_ensure_link_wf(ls: Seq<BusLinkV>, h: Seq<char>, w: u64)
    requires
        links_wf(ls),
    ensures
        links_wf(spec_ensure_link(ls, h, w)),
        has_link(spec_ensure_link(ls, h, w), h),
        link_index(spec_ensure_link(ls, h, w), h) == (if has_link(ls, h) {
            link_index(ls, h)
        } else {
            ls.len() as int
        }),
        !(has_link(ls, h) && ls[link_index(ls, h)].ready) ==> !spec_ensure_link(ls, h, w)[
            link_index(spec_ensure_link(ls, h, w), h)
        ].ready && spec_ensure_link(ls, h, w)[link_index(spec_ensure_link(ls, h, w), h)].waiters
            == (if has_link(ls, h) {
            ls[link_index(ls, h)].waiters
        } else {
            Seq::<u64>::empty()
        }).push(w),
{
    let ls2 = spec_ensure_link(ls, h, w);
    if has_link(ls, h) {
        let i = link_index(ls, h);
        assert(0 <= i < ls.len() && ls[i].host == h);
        if ls[i].ready {
            assert(ls2 =~= ls);
        } else {
            assert(ls2 == ls.update(i, BusLinkV { waiters: ls[i].waiters.push(w), ..ls[i] }));
            assert(ls2[i].host == h);
            if link_index(ls2, h) != i {
                assert(false);
            }
        }
    } else {
        assert(ls2 == ls.push(BusLinkV { host: h, ready: false, waiters: seq![w] }));
        assert(ls2[ls.len() as int].host == h);
        assert(links_wf(ls2)) by {
            assert(forall|j: int| 0 <= j < ls.len() ==> (#[trigger] ls2[j]) == ls[j]);
        }
        if link_index(ls2, h) != ls.len() as int {
            assert(false);
        }
        assert(ls2[ls.len() as int].waiters =~= Seq::<u64>::empty().push(w));
    }
}

/// A completion preserves well-formedness; on success the link is ready
/// with nobody waiting, on failure no link for the host remains.
pub proof fn lemma_spec_complete_wf(ls: Seq<BusLinkV>, h: Seq<char>, success: bool)
    requires
        links_wf(ls),
    ensures
        links_wf(spec_complete(ls, h, success)),
        has_link(ls, h) && !ls[link_index(ls, h)].ready && success ==> has_link(
            spec_complete(ls, h, success),
            h,
        ) && spec_complete(ls, h, success)[link_index(spec_complete(ls, h, success), h)].ready,
        has_link(ls, h) && !ls[link_index(ls, h)].ready && !success ==> !has_link(
            spec_complete(ls, h, success),
            h,
        ),
{
    let ls2 = spec_complete(ls, h, success);
    if has_link(ls, h) && !ls[link_index(ls, h)].ready {
        let i = link_index(ls, h);
        assert(0 <= i < ls.len() && ls[i].host == h);
        if success {
            assert(ls2 == ls.update(i, BusLinkV { ready: true, waiters: seq![], ..ls[i] }));
            assert(ls2[i].host == h);
            if link_index(ls2, h) != i {
                assert(false);
            }
        } else {
            assert(ls2 == ls.remove(i));
            assert(forall|j: int|
                0 <= j < ls2.len() ==> (#[trigger] ls2[j]) == (if j < i {
                    ls[j]
                } else {
                    ls[j + 1]
                }));
            if has_link(ls2, h) {
                let j = link_index(ls2, h);
                assert(0 <= j < ls2.len() && ls2[j].host == h);
                assert(false);
            }
        }
    }
}

/// Folding a burst of demands for one host, in the order the bridge's
/// serialization admits them.
pub open spec fn ensure_all(ls: Seq<BusLinkV>, h: Seq<char>, ws: Seq<u64>) -> Seq<BusLinkV>
    decreases ws.len(),
{
    if ws.len() == 0 {
        ls
    } else {
        ensure_all(spec_ensure_link(ls, h, ws[0]), h, ws.subrange(1, ws.len() as int))
    }
}

/// How many of those demands were answered `Started`.
pub open spec fn starts(ls: Seq<BusLinkV>, h: Seq<char>, ws: Seq<u64>) -> nat
    decreases ws.len(),
{
    if ws.len() == 0 {
        0
    } else {
        (if ensure_verdict(ls, h) is Started {
            1nat
        } else {
            0nat
        }) + starts(spec_ensure_link(ls, h, ws[0]), h, ws.subrange(1, ws.len() as int))
    }
}

proof fn lemma_ensure_all_joins(ls: Seq<BusLinkV>, h: Seq<char>, ws: Seq<u64>)
    requires
        links_wf(ls),
        has_link(ls, h),
        !ls[link_index(ls, h)].ready,
    ensures
        links_wf(ensure_all(ls, h, ws)),
        starts(ls, h, ws) == 0,
        has_link(ensure_all(ls, h, ws), h),
        !ensure_all(ls, h, ws)[link_index(ensure_all(ls, h, ws), h)].ready,
        ensure_all(ls, h, ws)[link_index(ensure_all(ls, h, ws), h)].waiters == ls[link_index(
            ls,
            h,
        )].waiters + ws,
    decreases ws.len(),
{
    if ws.len() == 0 {
        assert(ls[link_index(ls, h)].waiters + ws =~= ls[link_index(ls, h)].waiters);
    } else {
        let ls1 = spec_ensure_link(ls, h, ws[0]);
        let rest = ws.subrange(1, ws.len() as int);
        lemma_spec_ensure_link_wf(ls, h, ws[0]);
        lemma_ensure_all_joins(ls1, h, rest);
        assert(ls1[link_index(ls1, h)].waiters == ls[link_index(ls, h)].waiters.push(ws[0]));
        assert(ls[link_index(ls, h)].waiters.push(ws[0]) + rest =~= ls[link_index(ls, h)].waiters
            + ws);
    }
}

/// LAW: any number of demands for a host with no link, serviced in the
/// bridge's order, start exactly one establishment attempt; every demander
/// is recorded as a waiter on it, so that when the attempt ends all of them
/// are notified together with its one outcome.
pub proof fn lemma_link_coalesces(ls: Seq<BusLinkV>, h: Seq<char>, ws: Seq<u64>)
    requires
        links_wf(ls),
        !has_link(ls, h),
        ws.len() > 0,
    ensures
        starts(ls, h, ws) == 1,
        links_wf(ensure_all(ls, h, ws)),
        has_link(ensure_all(ls, h, ws), h),
        !ensure_all(ls, h, ws)[link_index(ensure_all(ls, h, ws), h)].ready,
        complete_waiters(ensure_all(ls, h, ws), h) == ws,
{
    let ls1 = spec_ensure_link(ls, h, ws[0]);
    let rest = ws.subrange(1, ws.len() as int);
    lemma_spec_ensure_link_wf(ls, h, ws[0]);
    lemma_ensure_all_joins(ls1, h, rest);
    assert(ls1[link_index(ls1, h)].waiters =~= Seq::<u64>::empty().push(ws[0]));
    assert(Seq::<u64>::empty().push(ws[0]) + rest =~= ws);
}

/// The consume-side discipline: one inbound bus message is in flight at a
/// time, and it is acknowledged exactly once, after local handling, before
/// the next message from the same subscription counts as processed.
pub struct Consumer {
    /// The message taken for local handling and not yet acknowledged.
    pub pending: Option<u64>,
}

impl Consumer {
    /// A consumer with nothing in flight.
    pub fn new() -> (r: Consumer)
        ensures
            r.pending is None,
    {
        Consumer { pending: None }
    }

    /// Takes one inbound message for local handling.  Refused while an
    /// earlier message is still unacknowledged: the bus may redeliver it
    /// (at-least-once), but it is never counted processed early.
    pub fn begin(&mut self, msg_id: u64) -> (accepted: bool)
        ensures
            accepted == (old(self).pending is None),
            accepted ==> final(self).pending == Some(msg_id),
            !accepted ==> *final(self) == *old(self),
    {
        match self.pending {
            None => {
                self.pending = Some(msg_id);
                true
            },
            Some(_) => false,
        }
    }

    /// Acknowledges the message whose local handling completed, exactly
    /// once: the acknowledgement to send is returned, and nothing is
    /// pending afterwards.
    pub fn acknowledge(&mut self) -> (r: Option<u64>)
        ensures
            final(self).pending is None,
            r == old(self).pending,
    {
        let r = self.pending;
        self.pending = None;
        r
    }
}

} // verus!
