use vstd::prelude::*;
use crate::error::{janus_error_of, Error, JanusError};

verus! {

/// A session as the contracts see it: its id and the ids of its handles.
pub type SessionView = (u64, Seq<u64>);

/// Index of session `id`, or -1.
pub open spec fn session_index(s: Seq<SessionView>, id: u64) -> int
    decreases s.len(),
{
    if s.len() == 0 {
        -1
    } else if s.last().0 == id {
        s.len() - 1
    } else {
        session_index(s.drop_last(), id)
    }
}

/// No id occurs twice among the sessions, nor among the handles of one.
pub open spec fn graph_wf(s: Seq<SessionView>) -> bool {
    &&& forall|i: int, j: int| 0 <= i < j < s.len() ==> s[i].0 != s[j].0
    &&& forall|i: int, a: int, b: int|
        0 <= i < s.len() && 0 <= a < b < s[i].1.len() ==> s[i].1[a] != s[i].1[b]
}

proof fn lemma_session_index(s: Seq<SessionView>, id: u64)
    ensures
        -1 <= session_index(s, id) < s.len(),
        session_index(s, id) >= 0 ==> s[session_index(s, id)].0 == id,
        session_index(s, id) < 0 ==> forall|j: int| 0 <= j < s.len() ==> s[j].0 != id,
    decreases s.len(),
{
    if s.len() > 0 && s.last().0 != id {
        lemma_session_index(s.drop_last(), id);
        if session_index(s, id) < 0 {
            assert forall|j: int| 0 <= j < s.len() implies s[j].0 != id by {
                if j < s.len() - 1 {
                    assert(s.drop_last()[j] == s[j]);
                }
            }
        }
    }
}

proof fn lemma_session_index_unique(s: Seq<SessionView>, id: u64, i: int)
    requires
        graph_wf(s),
        0 <= i < s.len(),
        s[i].0 == id,
    ensures
        session_index(s, id) == i,
{
    lemma_session_index(s, id);
}

struct SessionEntry {
    id: u64,
    handles: Vec<u64>,
}

/// The sessions of a connection, each with its handles. A connection owns
/// its sessions and a session its handles.
pub struct Graph {
    sessions: Vec<SessionEntry>,
}

impl Graph {
    /// The live sessions with their live handles, in order of creation.
    pub closed spec fn sessions(&self) -> Seq<SessionView> {
        self.sessions@.map_values(|e: SessionEntry| (e.id, e.handles@))
    }

    pub open spec fn wf(&self) -> bool {
        graph_wf(self.sessions())
    }

    /// A connection with no session.
    pub fn new() -> (r: Graph)
        ensures
            r.wf(),
            r.sessions() == Seq::<SessionView>::empty(),
    {
        let r = Graph { sessions: Vec::new() };
        assert(r.sessions() =~= Seq::<SessionView>::empty());
        r
    }

    fn find(&self, id: u64) -> (r: Option<usize>)
        requires
            self.wf(),
        ensures
            match r {
                Some(i) => i < self.sessions().len() && session_index(self.sessions(), id) == i,
                None => session_index(self.sessions(), id) == -1,
            },
    {
        let mut i: usize = 0;
        while i < self.sessions.len()
            invariant
                self.wf(),
                i <= self.sessions@.len(),
                forall|j: int| 0 <= j < i ==> self.sessions()[j].0 != id,
            decreases self.sessions@.len() - i,
        {
            if self.sessions[i].id == id {
                proof {
                    lemma_session_index_unique(self.sessions(), id, i as int);
                }
                return Some(i);
            }
            i = i + 1;
        }
        proof {
            lemma_session_index(self.sessions(), id);
        }
        None
    }

    /// Records the session `id` the server created; `false`, with nothing
    /// changed, where it is live already.
    pub fn add_session(&mut self, id: u64) -> (r: bool)
        requires
            old(self).wf(),
        ensures
            final(self).wf(),
            r == (session_index(old(self).sessions(), id) < 0),
            r ==> final(self).sessions() == old(self).sessions().push((id, Seq::<u64>::empty())),
            !r ==> final(self).sessions() == old(self).sessions(),
    {
        match self.find(id) {
            Some(_) => false,
            None => {
                let ghost before = self.sessions();
                proof {
                    lemma_session_index(before, id);
                }
                self.sessions.push(SessionEntry { id, handles: Vec::new() });
                assert(self.sessions() =~= before.push((id, Seq::<u64>::empty())));
                true
            },
        }
    }

    /// Records the handle `handle_id` attached to session `session_id`. A
    /// session that is not live, never created or destroyed, refuses it with
    /// `SessionNotFound`.
    pub fn attach(&mut self, session_id: u64, handle_id: u64) -> (r: Result<(), Error>)
        requires
            old(self).wf(),
        ensures
            final(self).wf(),
            ({
                let i = session_index(old(self).sessions(), session_id);
                if i < 0 {
                    (r matches Err(Error::JanusError { error, .. }) && error
                        == JanusError::SessionNotFound) && final(self).sessions() == old(
                        self,
                    ).sessions()
                } else if old(self).sessions()[i].1.contains(handle_id) {
                    r is Ok && final(self).sessions() == old(self).sessions()
                } else {
                    r is Ok && final(self).sessions() == old(self).sessions().update(
                        i,
                        (session_id, old(self).sessions()[i].1.push(handle_id)),
                    )
                }
            }),
    {
        match self.find(session_id) {
            None => {
                let error = JanusError::from(458u16);
                assert(error == janus_error_of(458));
                Err(Error::JanusError { error, reason: String::from_str("No such session") })
            },
            Some(i) => {
                let ghost before = self.sessions();
                proof {
                    lemma_session_index(before, session_id);
                }
                let mut known = false;
                let mut j: usize = 0;
                while j < self.sessions[i].handles.len()
                    invariant
                        i < self.sessions@.len(),
                        j <= self.sessions@[i as int].handles@.len(),
                        known == self.sessions@[i as int].handles@.subrange(0, j as int).contains(
                            handle_id,
                        ),
                    decreases self.sessions@[i as int].handles@.len() - j,
                {
                    let ghost hs = self.sessions@[i as int].handles@;
                    if self.sessions[i].handles[j] == handle_id {
                        known = true;
                    }
                    proof {
                        let a = hs.subrange(0, j as int);
                        let b = hs.subrange(0, j + 1);
                        assert(b == a.push(hs[j as int]));
                        if hs[j as int] == handle_id {
                            assert(b[j as int] == handle_id);
                        } else if b.contains(handle_id) {
                            let k = choose|k: int| 0 <= k < b.len() && b[k] == handle_id;
                            assert(a[k] == handle_id);
                        }
                        if a.contains(handle_id) {
                            let k = choose|k: int| 0 <= k < a.len() && a[k] == handle_id;
                            assert(b[k] == handle_id);
                        }
                    }
                    j = j + 1;
                }
                assert(self.sessions@[i as int].handles@.subrange(
                    0,
                    self.sessions@[i as int].handles@.len() as int,
                ) == self.sessions@[i as int].handles@);
                if known {
                    return Ok(());
                }
                let SessionEntry { id, mut handles } = self.sessions.remove(i);
                handles.push(handle_id);
                self.sessions.insert(i, SessionEntry { id, handles });
                assert(self.sessions() =~= before.update(
                    i as int,
                    (session_id, before[i as int].1.push(handle_id)),
                ));
                assert(graph_wf(self.sessions())) by {
                    let s = self.sessions();
                    assert forall|x: int, y: int| 0 <= x < y < s.len() implies s[x].0 != s[y].0 by {
                        assert(s[x].0 == before[x].0);
                        assert(s[y].0 == before[y].0);
                    }
                    assert forall|x: int, a: int, b: int|
                        0 <= x < s.len() && 0 <= a < b < s[x].1.len() implies s[x].1[a]
                        != s[x].1[b] by {
                        if x == i {
                            if b == s[x].1.len() - 1 {
                                assert(before[x].1[a] == s[x].1[a]);
                                assert(!before[x].1.contains(handle_id));
                            } else {
                                assert(before[x].1[a] == s[x].1[a]);
                                assert(before[x].1[b] == s[x].1[b]);
                            }
                        } else {
                            assert(s[x] == before[x]);
                        }
                    }
                }
                Ok(())
            },
        }
    }

    /// Forgets the handle `handle_id` of session `session_id`, once it is
    /// detached; whether it was live.
    pub fn detach(&mut self, session_id: u64, handle_id: u64) -> (r: bool)
        requires
            old(self).wf(),
        ensures
            final(self).wf(),
            ({
                let i = session_index(old(self).sessions(), session_id);
                if i >= 0 && old(self).sessions()[i].1.contains(handle_id) {
                    r && final(self).sessions().len() == old(self).sessions().len()
                        && final(self).sessions()[i].0 == session_id
                        && !final(self).sessions()[i].1.contains(handle_id)
                        && final(self).sessions()[i].1.len() + 1 == old(self).sessions()[i].1.len()
                        && forall|x: int| 0 <= x < old(self).sessions().len() && x != i ==> #[trigger] final(self).sessions()[x] == old(self).sessions()[x]
                } else {
                    !r && final(self).sessions() == old(self).sessions()
                }
            }),
    {
        let i = match self.find(session_id) {
            Some(i) => i,
            None => {
                return false;
            },
        };
        let ghost before = self.sessions();
        proof {
            lemma_session_index(before, session_id);
        }
        let mut j: usize = 0;
        while j < self.sessions[i].handles.len()
            invariant
                i < self.sessions@.len(),
                self.sessions() == before,
                before == old(self).sessions(),
                graph_wf(before),
                i == session_index(before, session_id),
                j <= self.sessions@[i as int].handles@.len(),
                forall|k: int| 0 <= k < j ==> self.sessions@[i as int].handles@[k] != handle_id,
            decreases self.sessions@[i as int].handles@.len() - j,
        {
            if self.sessions[i].handles[j] == handle_id {
                let SessionEntry { id, mut handles } = self.sessions.remove(i);
                let ghost hs = handles@;
                handles.remove(j);
                self.sessions.insert(i, SessionEntry { id, handles });
                proof {
                    let s = self.sessions();
                    assert(hs == before[i as int].1);
                    assert(hs[j as int] == handle_id);
                    assert(s.len() == before.len());
                    assert(s[i as int].0 == before[i as int].0);
                    assert(s[i as int].1 == hs.remove(j as int));
                    assert(before[i as int].1.contains(handle_id));
                    assert(s[i as int].1.len() + 1 == before[i as int].1.len());
                    lemma_session_index(before, session_id);
                    assert(s[i as int].0 == session_id);
                    assert forall|x: int| 0 <= x < before.len() && x != i implies #[trigger] s[x]
                        == before[x] by {}
                    assert(!s[i as int].1.contains(handle_id)) by {
                        if s[i as int].1.contains(handle_id) {
                            let k = choose|k: int| 0 <= k < s[i as int].1.len() && s[i as int].1[k] == handle_id;
                            if k < j {
                                assert(hs[k] == handle_id);
                            } else {
                                assert(hs[k + 1] == handle_id);
                                assert(hs[j as int] != hs[k + 1]);
                            }
                        }
                    }
                    assert(graph_wf(s)) by {
                        assert forall|x: int, y: int| 0 <= x < y < s.len() implies s[x].0 != s[y].0 by {
                            assert(s[x].0 == before[x].0);
                            assert(s[y].0 == before[y].0);
                        }
                        assert forall|x: int, a: int, b: int|
                            0 <= x < s.len() && 0 <= a < b < s[x].1.len() implies s[x].1[a]
                            != s[x].1[b] by {
                            if x == i {
                                let aa = if a < j { a } else { a + 1 };
                                let bb = if b < j { b } else { b + 1 };
                                assert(s[x].1[a] == hs[aa]);
                                assert(s[x].1[b] == hs[bb]);
                            }
                        }
                    }
                }
                return true;
            }
            j = j + 1;
        }
        assert(!before[i as int].1.contains(handle_id));
        false
    }

    /// Destroys session `session_id` and hands out its handles, oldest
    /// first: each receives a terminal `Detached` and its channel closes.
    /// `None` where the session is not live.
    pub fn destroy_session(&mut self, session_id: u64) -> (r: Option<Vec<u64>>)
        requires
            old(self).wf(),
        ensures
            final(self).wf(),
            ({
                let i = session_index(old(self).sessions(), session_id);
                if i >= 0 {
                    r matches Some(hs) && hs@ == old(self).sessions()[i].1
                        && final(self).sessions() == old(self).sessions().remove(i)
                } else {
                    r is None && final(self).sessions() == old(self).sessions()
                }
            }),
    {
        match self.find(session_id) {
            None => None,
            Some(i) => {
                let ghost before = self.sessions();
                let SessionEntry { id: _, handles } = self.sessions.remove(i);
                assert(self.sessions() =~= before.remove(i as int));
                assert(graph_wf(self.sessions())) by {
                    let s = self.sessions();
                    assert forall|x: int, y: int| 0 <= x < y < s.len() implies s[x].0 != s[y].0 by {
                        let xx = if x < i { x } else { x + 1 };
                        let yy = if y < i { y } else { y + 1 };
                        assert(s[x] == before[xx]);
                        assert(s[y] == before[yy]);
                    }
                    assert forall|x: int, a: int, b: int|
                        0 <= x < s.len() && 0 <= a < b < s[x].1.len() implies s[x].1[a]
                        != s[x].1[b] by {
                        let xx = if x < i { x } else { x + 1 };
                        assert(s[x] == before[xx]);
                    }
                }
                Some(handles)
            },
        }
    }
}

} // verus!
