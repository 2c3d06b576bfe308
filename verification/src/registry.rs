//! The Device Handle and the process-wide Device Registry.

use vstd::prelude::*;

use crate::frontend::FrontendId;
use crate::text::str_eq;

verus! {

/// One remote-control receiver: the three path identities of the same
/// physical device, the tuner frontends it serves, and the file descriptor
/// of the opened, exclusively grabbed input-event stream.  The descriptor
/// stays exclusive until the handle's owner releases it.
pub struct RemoteControl {
    pub frontend_ids: Vec<FrontendId>,
    pub lirc_path: String,
    pub sys_rc_path: String,
    pub device_event_path: String,
    pub device_fd: i32,
}

/// The mathematical value of a Device Handle.
#[verifier::ext_equal]
pub struct RemoteControlV {
    pub frontend_ids: Seq<FrontendId>,
    pub lirc_path: Seq<char>,
    pub sys_rc_path: Seq<char>,
    pub device_event_path: Seq<char>,
    pub device_fd: i32,
}

impl View for RemoteControl {
    type V = RemoteControlV;

    open spec fn view(&self) -> RemoteControlV {
        RemoteControlV {
            frontend_ids: self.frontend_ids@,
            lirc_path: self.lirc_path@,
            sys_rc_path: self.sys_rc_path@,
            device_event_path: self.device_event_path@,
            device_fd: self.device_fd,
        }
    }
}

fn copy_frontends(v: &Vec<FrontendId>) -> (r: Vec<FrontendId>)
    ensures
        r@ == v@,
{
    let mut r: Vec<FrontendId> = Vec::new();
    let mut i: usize = 0;
    while i < v.len()
        invariant
            i <= v@.len(),
            r@ == v@.subrange(0, i as int),
        decreases v@.len() - i,
    {
        r.push(v[i]);
        proof {
            assert(r@ =~= v@.subrange(0, i + 1));
        }
        i = i + 1;
    }
    proof {
        assert(v@.subrange(0, v@.len() as int) =~= v@);
    }
    r
}

impl Clone for RemoteControl {
    /// A clone carries the same identities, frontends and descriptor.
    fn clone(&self) -> (res: Self)
        ensures
            res@ == self@,
    {
        let res = RemoteControl {
            frontend_ids: copy_frontends(&self.frontend_ids),
            lirc_path: self.lirc_path.clone(),
            sys_rc_path: self.sys_rc_path.clone(),
            device_event_path: self.device_event_path.clone(),
            device_fd: self.device_fd,
        };
        assert(res@ =~= self@);
        res
    }
}

impl RemoteControl {
    /// Assembles a handle from its resolved path identities, its
    /// frontends, and the descriptor of the opened, grabbed event file.
    pub fn new(
        frontend_ids: Vec<FrontendId>,
        lirc_path: String,
        sys_rc_path: String,
        device_event_path: String,
        device_fd: i32,
    ) -> (r: RemoteControl)
        ensures
            r@.frontend_ids == frontend_ids@,
            r@.lirc_path == lirc_path@,
            r@.sys_rc_path == sys_rc_path@,
            r@.device_event_path == device_event_path@,
            r@.device_fd == device_fd,
    {
        RemoteControl { frontend_ids, lirc_path, sys_rc_path, device_event_path, device_fd }
    }

    /// The frontend used for event attribution: the first associated one.
    pub fn first_frontend(&self) -> (r: Option<FrontendId>)
        ensures
            match r {
                Some(f) => self@.frontend_ids.len() > 0 && f == self@.frontend_ids[0],
                None => self@.frontend_ids.len() == 0,
            },
    {
        if self.frontend_ids.len() > 0 {
            Some(self.frontend_ids[0])
        } else {
            None
        }
    }
}

/// At most one registered handle per distinct lirc path.
pub open spec fn unique_lirc_paths(s: Seq<RemoteControlV>) -> bool {
    forall|i: int, j: int|
        #![trigger s[i], s[j]]
        0 <= i < s.len() && 0 <= j < s.len() && i != j ==> s[i].lirc_path != s[j].lirc_path
}

/// Some registered handle has lirc path `p`.
pub open spec fn holds_path(s: Seq<RemoteControlV>, p: Seq<char>) -> bool {
    exists|i: int| 0 <= i < s.len() && (#[trigger] s[i]).lirc_path == p
}

/// The registry contents with every handle of lirc path `p` removed.
pub open spec fn remove_path(s: Seq<RemoteControlV>, p: Seq<char>) -> Seq<RemoteControlV>
    decreases s.len(),
{
    if s.len() == 0 {
        s
    } else if s.last().lirc_path == p {
        remove_path(s.drop_last(), p)
    } else {
        remove_path(s.drop_last(), p).push(s.last())
    }
}

/// Removal keeps only handles the registry already held, drops every
/// handle with the removed path, and preserves path uniqueness.
pub proof fn lemma_remove_path_props(s: Seq<RemoteControlV>, p: Seq<char>)
    requires
        unique_lirc_paths(s),
    ensures
        unique_lirc_paths(remove_path(s, p)),
        !holds_path(remove_path(s, p), p),
        forall|q: Seq<char>| #[trigger] holds_path(remove_path(s, p), q) ==> holds_path(s, q),
    decreases s.len(),
{
    if s.len() > 0 {
        let t = s.drop_last();
        assert(forall|i: int| 0 <= i < t.len() ==> t[i] == s[i]);
        lemma_remove_path_props(t, p);
        let r = remove_path(s, p);
        if s.last().lirc_path == p {
        } else {
            let rt = remove_path(t, p);
            assert forall|q: Seq<char>| #[trigger] holds_path(r, q) implies holds_path(s, q) by {
                let i = choose|i: int| 0 <= i < r.len() && (#[trigger] r[i]).lirc_path == q;
                if i < rt.len() {
                    assert(holds_path(rt, q));
                } else {
                    assert(r[i] == s.last());
                    assert(s[s.len() - 1].lirc_path == q);
                }
            }
            if holds_path(rt, s.last().lirc_path) {
                let i = choose|i: int|
                    0 <= i < rt.len() && (#[trigger] rt[i]).lirc_path == s.last().lirc_path;
                assert(holds_path(t, s.last().lirc_path));
                let j = choose|j: int|
                    0 <= j < t.len() && (#[trigger] t[j]).lirc_path == s.last().lirc_path;
                assert(s[j].lirc_path == s[s.len() - 1].lirc_path);
                assert(false);
            }
            assert forall|i: int, j: int|
                #![trigger r[i], r[j]]
                0 <= i < r.len() && 0 <= j < r.len() && i != j implies r[i].lirc_path
                != r[j].lirc_path by {
                if i < rt.len() && j < rt.len() {
                } else if i < rt.len() {
                    assert(r[j] == s.last());
                    if r[i].lirc_path == s.last().lirc_path {
                        assert(holds_path(rt, s.last().lirc_path));
                    }
                } else {
                    assert(r[i] == s.last());
                    if j < rt.len() && r[j].lirc_path == s.last().lirc_path {
                        assert(holds_path(rt, s.last().lirc_path));
                    }
                }
            }
        }
    }
}

/// Removing a path that no handle holds changes nothing.
pub proof fn lemma_remove_absent(s: Seq<RemoteControlV>, p: Seq<char>)
    requires
        !holds_path(s, p),
    ensures
        remove_path(s, p) =~= s,
    decreases s.len(),
{
    if s.len() > 0 {
        let t = s.drop_last();
        assert(forall|i: int| 0 <= i < t.len() ==> t[i] == s[i]);
        if holds_path(t, p) {
            let i = choose|i: int| 0 <= i < t.len() && (#[trigger] t[i]).lirc_path == p;
            assert(s[i].lirc_path == p);
            assert(false);
        }
        lemma_remove_absent(t, p);
        assert(s[s.len() - 1].lirc_path != p);
    }
}

/// Constructing a handle for a path the registry does not hold and then
/// removing that path restores the registry's former contents: at the
/// registry level, add followed by remove is a round trip.
pub proof fn lemma_add_remove_round_trip(s: Seq<RemoteControlV>, rc: RemoteControlV)
    requires
        !holds_path(s, rc.lirc_path),
    ensures
        remove_path(s.push(rc), rc.lirc_path) =~= s,
{
    let w = s.push(rc);
    assert(w.last() == rc);
    assert(w.drop_last() =~= s);
    lemma_remove_absent(s, rc.lirc_path);
}

/// The process-wide collection of currently known Device Handles.  The
/// caller owns one instance and shares it between the hotplug watcher and
/// the event poller under a lock; every operation here is short and
/// non-blocking.
pub struct DeviceRegistry {
    remotes: Vec<RemoteControl>,
}

impl View for DeviceRegistry {
    type V = Seq<RemoteControlV>;

    closed spec fn view(&self) -> Seq<RemoteControlV> {
        self.remotes@.map_values(|r: RemoteControl| r@)
    }
}

impl DeviceRegistry {
    /// An empty registry; path uniqueness holds from the start.
    pub fn new() -> (r: DeviceRegistry)
        ensures
            r@.len() == 0,
            unique_lirc_paths(r@),
    {
        let r = DeviceRegistry { remotes: Vec::new() };
        proof {
            assert(r@ =~= Seq::<RemoteControlV>::empty());
        }
        r
    }

    /// How many handles are registered.
    pub fn len(&self) -> (n: usize)
        ensures
            n == self@.len(),
    {
        self.remotes.len()
    }

    /// Whether a handle with lirc path `lirc_path` is registered.
    pub fn has_remote(&self, lirc_path: &str) -> (b: bool)
        ensures
            b == holds_path(self@, lirc_path@),
    {
        let mut i: usize = 0;
        while i < self.remotes.len()
            invariant
                i <= self.remotes@.len(),
                forall|j: int| 0 <= j < i ==> (#[trigger] self@[j]).lirc_path != lirc_path@,
            decreases self.remotes@.len() - i,
        {
            if str_eq(self.remotes[i].lirc_path.as_str(), lirc_path) {
                assert(self@[i as int].lirc_path == lirc_path@);
                return true;
            }
            i = i + 1;
        }
        false
    }

    /// Appends `rc` unless a handle with its lirc path is already
    /// registered; reports whether it was added.  Path uniqueness is
    /// preserved either way.
    pub fn add_remote(&mut self, rc: RemoteControl) -> (added: bool)
        requires
            unique_lirc_paths(old(self)@),
        ensures
            unique_lirc_paths(final(self)@),
            added == !holds_path(old(self)@, rc@.lirc_path),
            added ==> final(self)@ == old(self)@.push(rc@),
            !added ==> final(self)@ == old(self)@,
    {
        if self.has_remote(rc.lirc_path.as_str()) {
            false
        } else {
            let ghost prev = self@;
            let ghost v = rc@;
            self.remotes.push(rc);
            proof {
                assert(self@ =~= prev.push(v));
                assert forall|i: int, j: int|
                    #![trigger self@[i], self@[j]]
                    0 <= i < self@.len() && 0 <= j < self@.len() && i != j implies self@[i].lirc_path
                    != self@[j].lirc_path by {
                    if i < prev.len() && j < prev.len() {
                        assert(prev[i].lirc_path != prev[j].lirc_path);
                    } else if i < prev.len() {
                        if prev[i].lirc_path == v.lirc_path {
                            assert(holds_path(prev, v.lirc_path));
                        }
                    } else if j < prev.len() {
                        if prev[j].lirc_path == v.lirc_path {
                            assert(holds_path(prev, v.lirc_path));
                        }
                    }
                }
            }
            true
        }
    }

    /// Drops every handle whose lirc path is `lirc_path`; a no-op when no
    /// such handle is registered.  Afterwards the path is not registered,
    /// and nothing else changed.
    pub fn remove_disappeared_remote_control(&mut self, lirc_path: &str)
        requires
            unique_lirc_paths(old(self)@),
        ensures
            unique_lirc_paths(final(self)@),
            final(self)@ == remove_path(old(self)@, lirc_path@),
            !holds_path(final(self)@, lirc_path@),
    {
        let ghost prev = self@;
        let mut kept: Vec<RemoteControl> = Vec::new();
        let mut i: usize = 0;
        proof {
            assert(prev.subrange(0, 0) =~= Seq::<RemoteControlV>::empty());
            assert(kept@.map_values(|r: RemoteControl| r@) =~= remove_path(
                prev.subrange(0, 0),
                lirc_path@,
            ));
        }
        while i < self.remotes.len()
            invariant
                i <= self.remotes@.len(),
                prev == self.remotes@.map_values(|r: RemoteControl| r@),
                kept@.map_values(|r: RemoteControl| r@) == remove_path(
                    prev.subrange(0, i as int),
                    lirc_path@,
                ),
            decreases self.remotes@.len() - i,
        {
            proof {
                assert(prev.subrange(0, i + 1).drop_last() =~= prev.subrange(0, i as int));
                assert(prev.subrange(0, i + 1).last() == prev[i as int]);
            }
            if !str_eq(self.remotes[i].lirc_path.as_str(), lirc_path) {
                let ghost kept_prev = kept@.map_values(|r: RemoteControl| r@);
                kept.push(self.remotes[i].clone());
                proof {
                    assert(kept@.map_values(|r: RemoteControl| r@) =~= kept_prev.push(
                        prev[i as int],
                    ));
                }
            }
            i = i + 1;
        }
        proof {
            assert(prev.subrange(0, prev.len() as int) =~= prev);
            lemma_remove_path_props(prev, lirc_path@);
        }
        self.remotes = kept;
    }

    /// A point-in-time copy of the registered handles, for the poller to
    /// build its wait-set without holding the registry lock across
    /// blocking reads.
    pub fn snapshot(&self) -> (r: Vec<RemoteControl>)
        ensures
            r@.len() == self@.len(),
            forall|i: int| 0 <= i < r@.len() ==> (#[trigger] r@[i])@ == self@[i],
    {
        let mut r: Vec<RemoteControl> = Vec::new();
        let mut i: usize = 0;
        while i < self.remotes.len()
            invariant
                i <= self.remotes@.len(),
                r@.len() == i,
                forall|j: int| 0 <= j < i ==> (#[trigger] r@[j])@ == self@[j],
            decreases self.remotes@.len() - i,
        {
            r.push(self.remotes[i].clone());
            i = i + 1;
        }
        r
    }
}

} // verus!
