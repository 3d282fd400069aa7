//! Registry: the process-wide map from interface name to session. It is the
//! single point of truth for the control protocol, the flush cycle and
//! session teardown. Entries are created on the first start request for a
//! name and removed only by an explicit clear; stopping merely signals the
//! capture task and keeps history available for queries.

use vstd::prelude::*;

use crate::buffer::{count_of, sat_add};
use crate::codec::HeaderKey;
use crate::json::{JsonRep, JsonVal};
use crate::session::{
    spec_flushed, spec_fresh_session, spec_full_json, spec_part_json, spec_reopened,
    InterfaceStatistics,
};

verus! {

/// Whether the registry holds each interface name at most once.
pub open spec fn distinct_names(v: Seq<(String, InterfaceStatistics)>) -> bool {
    forall|i: int, j: int|
        0 <= i < v.len() && 0 <= j < v.len() && i != j ==> (#[trigger] v[i]).0@ != (
        #[trigger] v[j]).0@
}

/// Whether a session is registered under `name`.
pub open spec fn has_name(v: Seq<(String, InterfaceStatistics)>, name: Seq<char>) -> bool {
    exists|i: int| 0 <= i < v.len() && (#[trigger] v[i]).0@ == name
}

/// The position of the session registered under `name`.
pub open spec fn index_of_name(v: Seq<(String, InterfaceStatistics)>, name: Seq<char>) -> int {
    choose|i: int| 0 <= i < v.len() && (#[trigger] v[i]).0@ == name
}

/// The session registered under `name`.
pub open spec fn session_of(
    v: Seq<(String, InterfaceStatistics)>,
    name: Seq<char>,
) -> InterfaceStatistics {
    v[index_of_name(v, name)].1
}

/// An operation on `name` touched nothing else: the same names in the same
/// order, and every other session exactly as it was.
pub open spec fn spec_only_changed(
    pre: Seq<(String, InterfaceStatistics)>,
    post: Seq<(String, InterfaceStatistics)>,
    name: Seq<char>,
) -> bool {
    &&& post.len() == pre.len()
    &&& forall|j: int|
        0 <= j < pre.len() && j != index_of_name(pre, name) ==> (#[trigger] post[j]) == pre[j]
    &&& post[index_of_name(pre, name)].0 == pre[index_of_name(pre, name)].0
}

/// A start request on a new name appended one fresh open session and left
/// everything else alone.
pub open spec fn spec_appended_fresh(
    pre: Seq<(String, InterfaceStatistics)>,
    post: Seq<(String, InterfaceStatistics)>,
    name: Seq<char>,
    mac: Option<u64>,
) -> bool {
    &&& post.len() == pre.len() + 1
    &&& forall|j: int| 0 <= j < pre.len() ==> (#[trigger] post[j]) == pre[j]
    &&& post.last().0@ == name
    &&& spec_fresh_session(post.last().1, mac)
}

/// One recorded frame changed only the named session's open buffer: `len`
/// bytes were added to the count of `key` and no other count moved.
pub open spec fn spec_session_recorded(
    before: InterfaceStatistics,
    after: InterfaceStatistics,
    key: HeaderKey,
    len: u64,
) -> bool {
    &&& after.wf()
    &&& after.history == before.history
    &&& after.open == before.open
    &&& after.mac == before.mac
    &&& count_of(after.buffer@, key) == sat_add(count_of(before.buffer@, key), len)
    &&& forall|k2: HeaderKey|
        k2 != key ==> #[trigger] count_of(after.buffer@, k2) == count_of(before.buffer@, k2)
}

/// How a stop request leaves the registry: the named session, if any, loses
/// its lifecycle signal and keeps everything else; other names see no change.
pub open spec fn spec_stopped(
    pre: Seq<(String, InterfaceStatistics)>,
    post: Seq<(String, InterfaceStatistics)>,
    name: Seq<char>,
) -> bool {
    if has_name(pre, name) {
        spec_only_changed(pre, post, name) && post[index_of_name(pre, name)].1
            == (InterfaceStatistics { open: false, ..session_of(pre, name) })
    } else {
        post == pre
    }
}

/// How a clear request leaves the registry: the named entry, if any, is gone.
pub open spec fn spec_cleared(
    pre: Seq<(String, InterfaceStatistics)>,
    post: Seq<(String, InterfaceStatistics)>,
    name: Seq<char>,
) -> bool {
    if has_name(pre, name) {
        post == pre.remove(index_of_name(pre, name))
    } else {
        post == pre
    }
}

/// The first watermark given for `name`, if any.
pub open spec fn spec_lookup_wm(w: Seq<(String, u64)>, name: Seq<char>) -> Option<u64>
    decreases w.len(),
{
    if w.len() == 0 {
        None
    } else if w.first().0@ == name {
        Some(w.first().1)
    } else {
        spec_lookup_wm(w.drop_first(), name)
    }
}

/// The response to a query: one snapshot per registered interface, partial
/// below the watermark a client supplied for that name, full otherwise.
pub open spec fn spec_query_json(
    v: Seq<(String, InterfaceStatistics)>,
    w: Seq<(String, u64)>,
) -> JsonRep {
    JsonRep::Obj(
        Seq::new(
            v.len(),
            |i: int|
                (
                    v[i].0@,
                    match spec_lookup_wm(w, v[i].0@) {
                        Some(t) => spec_part_json(v[i].1, t),
                        None => spec_full_json(v[i].1),
                    },
                ),
        ),
    )
}

/// The full snapshots of all registered interfaces as one object.
pub open spec fn spec_all_json(v: Seq<(String, InterfaceStatistics)>) -> JsonRep {
    JsonRep::Obj(Seq::new(v.len(), |i: int| (v[i].0@, spec_full_json(v[i].1))))
}

/// Process-wide map from interface name to its session.
pub struct Registry {
    entries: Vec<(String, InterfaceStatistics)>,
}

impl View for Registry {
    type V = Seq<(String, InterfaceStatistics)>;

    closed spec fn view(&self) -> Seq<(String, InterfaceStatistics)> {
        self.entries@
    }
}

proof fn lemma_name_at_witness(v: Seq<(String, InterfaceStatistics)>, i: int)
    requires
        distinct_names(v),
        0 <= i < v.len(),
    ensures
        has_name(v, v[i].0@),
        index_of_name(v, v[i].0@) == i,
        session_of(v, v[i].0@) == v[i].1,
{
    let n = v[i].0@;
    assert(has_name(v, n));
    let j = choose|j: int| 0 <= j < v.len() && (#[trigger] v[j]).0@ == n;
    assert(j == i);
}

impl Registry {
    /// Names are unique and every session is well formed.
    pub open spec fn wf(&self) -> bool {
        distinct_names(self@) && forall|i: int|
            0 <= i < self@.len() ==> (#[trigger] self@[i]).1.wf()
    }

    /// An empty registry.
    pub fn new() -> (r: Self)
        ensures
            r.wf(),
            r@.len() == 0,
    {
        Registry { entries: Vec::new() }
    }

    /// The position of `name`, if registered.
    fn find(&self, name: &String) -> (r: Option<usize>)
        requires
            self.wf(),
        ensures
            match r {
                Some(i) => i < self@.len() && self@[i as int].0@ == name@ && has_name(self@, name@)
                    && index_of_name(self@, name@) == i,
                None => !has_name(self@, name@),
            },
    {
        let n = self.entries.len();
        let mut i: usize = 0;
        while i < n
            invariant
                self.wf(),
                n == self@.len(),
                i <= n,
                forall|j: int| 0 <= j < i ==> (#[trigger] self@[j]).0@ != name@,
            decreases n - i,
        {
            if self.entries[i].0 == *name {
                proof {
                    lemma_name_at_witness(self@, i as int);
                }
                return Some(i);
            }
            i = i + 1;
        }
        None
    }

    /// Handles a start request for `name`. A new name gets a fresh open
    /// session; a closed session is reopened in place with its history kept;
    /// an already-open session is left exactly as it is. The result says
    /// whether a capture task must be spawned: starting an open session never
    /// spawns a second one.
    pub fn start(&mut self, name: &String, now: u64, mac: Option<u64>) -> (spawn: bool)
        requires
            old(self).wf(),
        ensures
            final(self).wf(),
            !has_name(old(self)@, name@) ==> spawn && spec_appended_fresh(
                old(self)@,
                final(self)@,
                name@,
                mac,
            ),
            has_name(old(self)@, name@) && session_of(old(self)@, name@).open ==> !spawn
                && final(self)@ == old(self)@,
            has_name(old(self)@, name@) && !session_of(old(self)@, name@).open ==> spawn
                && spec_only_changed(old(self)@, final(self)@, name@) && spec_reopened(
                session_of(old(self)@, name@),
                final(self)@[index_of_name(old(self)@, name@)].1,
                now,
            ),
    {
        match self.find(name) {
            Some(i) => {
                let ghost pre = self@;
                let e = &mut self.entries[i];
                if e.1.open {
                    proof {
                        assert(self@ =~= pre);
                    }
                    false
                } else {
                    e.1.reopen(now);
                    proof {
                        assert forall|j: int|
                            0 <= j < self@.len() && j != i implies (#[trigger] self@[j]) == pre[j]
                        by {}
                    }
                    true
                }
            },
            None => {
                self.entries.push((name.clone(), InterfaceStatistics::new(mac)));
                true
            },
        }
    }

    /// Handles a stop request: takes the lifecycle signal of the named
    /// session, if present. History is kept; an absent or already-closed name
    /// changes nothing observable.
    pub fn stop(&mut self, name: &String)
        requires
            old(self).wf(),
        ensures
            final(self).wf(),
            spec_stopped(old(self)@, final(self)@, name@),
    {
        match self.find(name) {
            Some(i) => {
                let ghost pre = self@;
                let e = &mut self.entries[i];
                e.1.close();
                proof {
                    assert forall|j: int|
                        0 <= j < self@.len() && j != i implies (#[trigger] self@[j]) == pre[j] by {}
                }
            },
            None => {},
        }
    }

    /// Handles a clear request: removes the named entry entirely, returning
    /// the name to the unobserved state. Clearing an unknown name is a no-op.
    pub fn clear(&mut self, name: &String)
        requires
            old(self).wf(),
        ensures
            final(self).wf(),
            spec_cleared(old(self)@, final(self)@, name@),
            !has_name(final(self)@, name@),
    {
        let ghost pre = self@;
        match self.find(name) {
            Some(i) => {
                self.entries.remove(i);
                proof {
                    assert forall|j: int| 0 <= j < self@.len() implies (#[trigger] self@[j]).0@
                        != name@ by {
                        if j < i {
                            assert(self@[j] == pre[j]);
                        } else {
                            assert(self@[j] == pre[j + 1]);
                        }
                    }
                }
            },
            None => {},
        }
    }

    /// One tick of the flush cycle: every session, open or closed, has its
    /// buffer drained into a new history interval closed at `now`, and its
    /// retention bound enforced.
    pub fn flush_all(&mut self, now: u64, limit: usize)
        requires
            old(self).wf(),
        ensures
            final(self).wf(),
            final(self)@.len() == old(self)@.len(),
            forall|j: int|
                0 <= j < old(self)@.len() ==> (#[trigger] final(self)@[j]).0 == old(self)@[j].0
                    && spec_flushed(old(self)@[j].1, final(self)@[j].1, now, limit as int),
    {
        let n = self.entries.len();
        let mut i: usize = 0;
        while i < n
            invariant
                n == self@.len(),
                n == old(self)@.len(),
                i <= n,
                distinct_names(old(self)@),
                forall|j: int| 0 <= j < n ==> (#[trigger] old(self)@[j]).1.wf(),
                forall|j: int| i <= j < n ==> (#[trigger] self@[j]) == old(self)@[j],
                forall|j: int|
                    0 <= j < i ==> (#[trigger] self@[j]).0 == old(self)@[j].0 && spec_flushed(
                        old(self)@[j].1,
                        self@[j].1,
                        now,
                        limit as int,
                    ),
            decreases n - i,
        {
            let e = &mut self.entries[i];
            e.1.update(now, limit);
            i = i + 1;
        }
        proof {
            assert forall|i0: int, j0: int|
                0 <= i0 < self@.len() && 0 <= j0 < self@.len() && i0 != j0 implies (
            #[trigger] self@[i0]).0@ != (#[trigger] self@[j0]).0@ by {
                assert(self@[i0].0 == old(self)@[i0].0);
                assert(self@[j0].0 == old(self)@[j0].0);
            }
        }
    }

    /// Records one captured frame against the named session's open buffer:
    /// the frame's byte length is added to the count of its traffic class.
    /// A frame for an unregistered name changes nothing.
    pub fn record_frame(&mut self, name: &String, key: HeaderKey, len: u64)
        requires
            old(self).wf(),
        ensures
            final(self).wf(),
            !has_name(old(self)@, name@) ==> final(self)@ == old(self)@,
            has_name(old(self)@, name@) ==> spec_only_changed(old(self)@, final(self)@, name@)
                && spec_session_recorded(
                session_of(old(self)@, name@),
                final(self)@[index_of_name(old(self)@, name@)].1,
                key,
                len,
            ),
    {
        match self.find(name) {
            Some(i) => {
                let ghost pre = self@;
                let e = &mut self.entries[i];
                e.1.buffer.record(key, len);
                proof {
                    assert forall|j: int|
                        0 <= j < self@.len() && j != i implies (#[trigger] self@[j]) == pre[j] by {}
                }
            },
            None => {},
        }
    }

    /// Whether the named session is currently open: `None` for an
    /// unregistered name.
    pub fn is_open(&self, name: &String) -> (r: Option<bool>)
        requires
            self.wf(),
        ensures
            match r {
                Some(b) => has_name(self@, name@) && b == session_of(self@, name@).open,
                None => !has_name(self@, name@),
            },
    {
        match self.find(name) {
            Some(i) => Some(self.entries[i].1.open),
            None => None,
        }
    }

    /// How many interfaces are registered.
    pub fn len(&self) -> (r: usize)
        ensures
            r == self@.len(),
    {
        self.entries.len()
    }

    /// The full snapshot of every registered interface, as one JSON object
    /// keyed by interface name.
    pub fn all_json(&self) -> (r: JsonVal)
        requires
            self.wf(),
        ensures
            r@ == spec_all_json(self@),
    {
        let n = self.entries.len();
        let mut out: Vec<(String, JsonVal)> = Vec::new();
        let mut i: usize = 0;
        while i < n
            invariant
                self.wf(),
                n == self@.len(),
                i <= n,
                out@.len() == i,
                forall|j: int|
                    0 <= j < i ==> (#[trigger] out@[j]).0@ == self@[j].0@ && out@[j].1@
                        == spec_full_json(self@[j].1),
            decreases n - i,
        {
            let name = self.entries[i].0.clone();
            let snapshot = self.entries[i].1.to_json();
            out.push((name, snapshot));
            i = i + 1;
        }
        let r = JsonVal::Obj(out);
        proof {
            assert(r@ matches JsonRep::Obj(s) && s =~= Seq::new(
                self@.len(),
                |i: int| (self@[i].0@, spec_full_json(self@[i].1)),
            ));
        }
        r
    }

    /// The query response for a `get` request: a snapshot per interface,
    /// partial below the client's watermark where one was given for the name,
    /// full otherwise.
    pub fn query_json(&self, watermarks: &Vec<(String, u64)>) -> (r: JsonVal)
        requires
            self.wf(),
        ensures
            r@ == spec_query_json(self@, watermarks@),
    {
        let n = self.entries.len();
        let mut out: Vec<(String, JsonVal)> = Vec::new();
        let mut i: usize = 0;
        while i < n
            invariant
                self.wf(),
                n == self@.len(),
                i <= n,
                out@.len() == i,
                forall|j: int|
                    0 <= j < i ==> (#[trigger] out@[j]).0@ == self@[j].0@ && out@[j].1@ == (match
                        spec_lookup_wm(watermarks@, self@[j].0@) {
                        Some(t) => spec_part_json(self@[j].1, t),
                        None => spec_full_json(self@[j].1),
                    }),
            decreases n - i,
        {
            let name = self.entries[i].0.clone();
            let snapshot = match lookup_wm(watermarks, &name) {
                Some(t) => self.entries[i].1.part_to_json(t),
                None => self.entries[i].1.to_json(),
            };
            out.push((name, snapshot));
            i = i + 1;
        }
        let r = JsonVal::Obj(out);
        proof {
            assert(r@ matches JsonRep::Obj(s) && s =~= Seq::new(
                self@.len(),
                |i: int|
                    (
                        self@[i].0@,
                        match spec_lookup_wm(watermarks@, self@[i].0@) {
                            Some(t) => spec_part_json(self@[i].1, t),
                            None => spec_full_json(self@[i].1),
                        },
                    ),
            ));
        }
        r
    }
}

/// Start is idempotent. A start request that spawned a capture task leaves
/// the named session open — whether it created the session or reopened it —
/// and `start` on an open session changes nothing and spawns nothing, so a
/// second start request for the same name produces one capture task, not
/// two, and does not reset existing history.
pub proof fn lemma_started_session_is_open(
    pre: Seq<(String, InterfaceStatistics)>,
    post: Seq<(String, InterfaceStatistics)>,
    name: Seq<char>,
    mac: Option<u64>,
    now: u64,
)
    requires
        distinct_names(pre),
        !has_name(pre, name) ==> spec_appended_fresh(pre, post, name, mac),
        has_name(pre, name) ==> spec_only_changed(pre, post, name) && spec_reopened(
            session_of(pre, name),
            post[index_of_name(pre, name)].1,
            now,
        ),
    ensures
        distinct_names(post),
        has_name(post, name),
        session_of(post, name).open,
{
    if !has_name(pre, name) {
        let last = post.len() - 1;
        assert forall|i: int, j: int|
            0 <= i < post.len() && 0 <= j < post.len() && i != j implies (#[trigger] post[i]).0@
            != (#[trigger] post[j]).0@ by {
            if i < last && j < last {
                assert(post[i] == pre[i] && post[j] == pre[j]);
            } else if i == last {
                assert(post[j] == pre[j]);
                assert(!((#[trigger] pre[j]).0@ == name));
            } else {
                assert(post[i] == pre[i]);
                assert(!((#[trigger] pre[i]).0@ == name));
            }
        }
        lemma_name_at_witness(post, last);
    } else {
        let idx = index_of_name(pre, name);
        assert(0 <= idx < pre.len() && pre[idx].0@ == name);
        assert forall|i: int, j: int|
            0 <= i < post.len() && 0 <= j < post.len() && i != j implies (#[trigger] post[i]).0@
            != (#[trigger] post[j]).0@ by {
            assert(post[i].0 == pre[i].0);
            assert(post[j].0 == pre[j].0);
        }
        assert(post[idx].0@ == name);
        lemma_name_at_witness(post, idx);
    }
}

/// Finds the first watermark supplied for `name`.
fn lookup_wm(watermarks: &Vec<(String, u64)>, name: &String) -> (r: Option<u64>)
    ensures
        r == spec_lookup_wm(watermarks@, name@),
{
    let n = watermarks.len();
    let mut i: usize = 0;
    proof {
        assert(watermarks@.skip(0) =~= watermarks@);
    }
    while i < n
        invariant
            n == watermarks@.len(),
            i <= n,
            spec_lookup_wm(watermarks@, name@) == spec_lookup_wm(watermarks@.skip(i as int), name@),
        decreases n - i,
    {
        proof {
            assert(watermarks@.skip(i as int).first() == watermarks@[i as int]);
            assert(watermarks@.skip(i as int).drop_first() =~= watermarks@.skip(i as int + 1));
        }
        if watermarks[i].0 == *name {
            return Some(watermarks[i].1);
        }
        i = i + 1;
    }
    proof {
        assert(watermarks@.skip(n as int).len() == 0);
    }
    None
}

} // verus!
