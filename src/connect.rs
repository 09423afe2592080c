//! Choice of the upstream network to join.
//!
//! Stored networks are tried strictly in list order. An entry without a
//! network name is skipped without counting as an attempt. Each attempt waits
//! for the link through a bounded number of status polls; when the bound is
//! reached the attempt is abandoned and the next entry is tried.

use vstd::prelude::*;

verus! {

/// Number of status polls an attempt waits through before it is abandoned.
pub const MAX_POLLS: u32 = 100;

/// Pause between two status polls, in milliseconds.
pub const POLL_INTERVAL_MS: u32 = 100;

/// One stored network: its name and its secret. Either may be missing.
#[derive(Debug, Clone)]
pub struct Credential {
    pub ssid: Option<String>,
    pub password: Option<String>,
}

/// An entry is tried only when it names a network.
pub open spec fn usable(c: Credential) -> bool {
    c.ssid matches Some(name) && name@.len() > 0
}

/// `usable` as a predicate value, for filtering.
pub open spec fn usable_pred() -> spec_fn(Credential) -> bool {
    |c: Credential| usable(c)
}

/// The positions of the usable entries of a list, in list order.
pub open spec fn usable_indices(cs: Seq<Credential>) -> Seq<int>
    decreases cs.len(),
{
    if cs.len() == 0 {
        Seq::empty()
    } else {
        let earlier = usable_indices(cs.drop_last());
        if usable(cs.last()) {
            earlier.push(cs.len() - 1)
        } else {
            earlier
        }
    }
}

impl Credential {
    /// Whether this entry names a network.
    pub fn is_usable(&self) -> (r: bool)
        ensures
            r == usable(*self),
    {
        match &self.ssid {
            Some(name) => !name.as_str().is_empty(),
            None => false,
        }
    }
}

/// What the caller does after a status poll.
#[derive(Debug, Clone, Copy, PartialEq, Eq, Structural)]
pub enum PollStep {
    /// The link is up: the bridge is connected through the current entry.
    Connected,
    /// Not yet: pause for one interval, then poll again.
    Wait,
    /// The attempt ran out of polls: stop the interface and ask for the next
    /// entry.
    TimedOut,
}

/// Walks a list of stored networks, one attempt at a time.
pub struct Connector {
    credentials: Vec<Credential>,
    cursor: usize,
    current: Option<usize>,
    polls: u32,
    linked: bool,
}

impl Connector {
    /// The stored networks, in the order they are tried.
    pub closed spec fn credentials(&self) -> Seq<Credential> {
        self.credentials@
    }

    /// Position of the first entry not yet examined.
    pub closed spec fn cursor(&self) -> nat {
        self.cursor as nat
    }

    /// The entry being tried, if an attempt is under way or has succeeded.
    pub closed spec fn current(&self) -> Option<usize> {
        self.current
    }

    /// Polls made so far in the current attempt.
    pub closed spec fn polls(&self) -> nat {
        self.polls as nat
    }

    /// Whether the current attempt brought the link up.
    pub closed spec fn linked(&self) -> bool {
        self.linked
    }

    /// The entries attempted so far, in the order they were attempted.
    pub open spec fn attempted(&self) -> Seq<int> {
        usable_indices(self.credentials().take(self.cursor() as int))
    }

    pub closed spec fn wf(&self) -> bool {
        &&& self.cursor <= self.credentials@.len()
        &&& self.polls < MAX_POLLS
        &&& match self.current {
            Some(i) => i + 1 == self.cursor && usable(self.credentials@[i as int]),
            None => self.polls == 0 && !self.linked,
        }
    }

    /// A connector that has attempted nothing yet.
    pub fn new(credentials: Vec<Credential>) -> (r: Connector)
        ensures
            r.wf(),
            r.credentials() == credentials@,
            r.cursor() == 0,
            r.current() is None,
            r.polls() == 0,
            !r.linked(),
            r.attempted() == Seq::<int>::empty(),
    {
        let r = Connector { credentials, cursor: 0, current: None, polls: 0, linked: false };
        assert(r.credentials@.take(0) =~= Seq::<Credential>::empty());
        r
    }

    /// The stored entry at position `i`.
    pub fn credential(&self, i: usize) -> (r: &Credential)
        requires
            i < self.credentials().len(),
        ensures
            *r == self.credentials()[i as int],
    {
        &self.credentials[i]
    }

    /// Number of stored entries.
    pub fn len(&self) -> (r: usize)
        ensures
            r == self.credentials().len(),
    {
        self.credentials.len()
    }

    /// Starts the next attempt: the first usable entry after those already
    /// examined. `None` means the list is exhausted, and then every usable
    /// entry has been attempted exactly once, in list order.
    pub fn next_attempt(&mut self) -> (r: Option<usize>)
        requires
            old(self).wf(),
            !old(self).linked(),
        ensures
            final(self).wf(),
            final(self).credentials() == old(self).credentials(),
            !final(self).linked(),
            final(self).polls() == 0,
            final(self).current() == r,
            match r {
                Some(i) => {
                    &&& old(self).cursor() <= i < old(self).credentials().len()
                    &&& usable(old(self).credentials()[i as int])
                    &&& forall|j: int|
                        old(self).cursor() <= j < i ==> !usable(
                            #[trigger] old(self).credentials()[j],
                        )
                    &&& final(self).cursor() == i + 1
                    &&& final(self).attempted() == old(self).attempted().push(i as int)
                },
                None => {
                    &&& forall|j: int|
                        old(self).cursor() <= j < old(self).credentials().len() ==> !usable(
                            #[trigger] old(self).credentials()[j],
                        )
                    &&& final(self).cursor() == old(self).credentials().len()
                    &&& final(self).attempted() == old(self).attempted()
                    &&& final(self).attempted() == usable_indices(old(self).credentials())
                },
            },
    {
        let ghost cs = self.credentials@;
        let ghost start = self.cursor as int;
        let len = self.credentials.len();
        let mut k: usize = self.cursor;
        let mut found: Option<usize> = None;
        while k < len && found.is_none()
            invariant
                self.credentials@ == cs,
                len == cs.len(),
                start <= k <= len,
                forall|j: int| start <= j < k && found != Some(j as usize) ==> !usable(
                    #[trigger] cs[j],
                ),
                found matches Some(i) ==> i + 1 == k && usable(cs[i as int]),
                found is None ==> usable_indices(cs.take(k as int)) == usable_indices(
                    cs.take(start),
                ),
                found matches Some(i) ==> usable_indices(cs.take(k as int)) == usable_indices(
                    cs.take(start),
                ).push(i as int),
            decreases len - k,
        {
            proof {
                assert(cs.take(k + 1).drop_last() =~= cs.take(k as int));
                assert(cs.take(k + 1).last() == cs[k as int]);
            }
            if self.credentials[k].is_usable() {
                found = Some(k);
            }
            k = k + 1;
        }
        if found.is_none() {
            assert(cs.take(len as int) =~= cs);
        }
        self.cursor = k;
        self.current = found;
        self.polls = 0;
        found
    }

    /// Records one status poll of the current attempt.
    ///
    /// A link that is up ends the search. Otherwise the attempt goes on until
    /// it has made `MAX_POLLS` polls; the last of them abandons it.
    pub fn poll(&mut self, connected: bool) -> (r: PollStep)
        requires
            old(self).wf(),
            old(self).current() is Some,
            !old(self).linked(),
        ensures
            final(self).wf(),
            final(self).credentials() == old(self).credentials(),
            final(self).cursor() == old(self).cursor(),
            connected ==> {
                &&& r == PollStep::Connected
                &&& final(self).linked()
                &&& final(self).current() == old(self).current()
                &&& final(self).polls() == old(self).polls()
            },
            !connected && old(self).polls() + 1 < MAX_POLLS ==> {
                &&& r == PollStep::Wait
                &&& !final(self).linked()
                &&& final(self).current() == old(self).current()
                &&& final(self).polls() == old(self).polls() + 1
            },
            !connected && old(self).polls() + 1 == MAX_POLLS ==> {
                &&& r == PollStep::TimedOut
                &&& !final(self).linked()
                &&& final(self).current() is None
                &&& final(self).polls() == 0
            },
    {
        if connected {
            self.linked = true;
            PollStep::Connected
        } else if self.polls + 1 < MAX_POLLS {
            self.polls = self.polls + 1;
            PollStep::Wait
        } else {
            self.polls = 0;
            self.current = None;
            PollStep::TimedOut
        }
    }

    /// The entry being tried, or the one that brought the link up.
    pub fn current_entry(&self) -> (r: Option<usize>)
        ensures
            r == self.current(),
    {
        self.current
    }

    /// Whether the link came up.
    pub fn is_linked(&self) -> (r: bool)
        ensures
            r == self.linked(),
    {
        self.linked
    }
}

/// The attempts made before a list is declared exhausted are its usable
/// entries, each exactly once and in list order: the attempted positions
/// increase, each names a usable entry, every usable entry is among them, and
/// the entries they name are the list with the unusable ones left out.
pub proof fn lemma_attempts_cover_usable_in_order(cs: Seq<Credential>)
    ensures
        forall|a: int, b: int|
            0 <= a < b < usable_indices(cs).len() ==> #[trigger] usable_indices(cs)[a]
                < #[trigger] usable_indices(cs)[b],
        forall|k: int|
            0 <= k < usable_indices(cs).len() ==> 0 <= #[trigger] usable_indices(cs)[k] < cs.len()
                && usable(cs[usable_indices(cs)[k]]),
        forall|j: int|
            0 <= j < cs.len() && usable(#[trigger] cs[j]) ==> usable_indices(cs).contains(j),
        usable_indices(cs).map_values(|i: int| cs[i]) == cs.filter(usable_pred()),
    decreases cs.len(),
{
    reveal(Seq::filter);
    if cs.len() > 0 {
        let prefix = cs.drop_last();
        lemma_attempts_cover_usable_in_order(prefix);
        let earlier = usable_indices(prefix);
        let ui = usable_indices(cs);
        assert(earlier.map_values(|i: int| cs[i]) =~= earlier.map_values(|i: int| prefix[i]));
        assert(ui.map_values(|i: int| cs[i]) =~= cs.filter(usable_pred()));
        assert forall|k: int| 0 <= k < ui.len() implies 0 <= #[trigger] ui[k] < cs.len() && usable(
            cs[ui[k]],
        ) by {
            if k < earlier.len() {
                assert(prefix[earlier[k]] == cs[earlier[k]]);
            }
        }
        assert forall|j: int| 0 <= j < cs.len() && usable(#[trigger] cs[j]) implies ui.contains(
            j,
        ) by {
            if j < cs.len() - 1 {
                assert(prefix[j] == cs[j]);
                let k = choose|k: int| 0 <= k < earlier.len() && earlier[k] == j;
                assert(ui[k] == j);
            } else {
                assert(ui[ui.len() - 1] == j);
            }
        }
    }
}

} // verus!
