//! Terminal sessions: the table that finds a session's terminal by its id,
//! the shell a new terminal runs, and how sessions are described.
use vstd::prelude::*;
use crate::task::lit;
use crate::text::str_eq;

verus! {

broadcast use vstd::string::group_string_axioms;

/// Ids beside their values; `wf` says each id stands once.
struct Entries<V> {
    ids: Vec<String>,
    items: Vec<V>,
}

impl<V> Entries<V> {
    /// Each id stands once, beside its value.
    spec fn wf(&self) -> bool {
        &&& self.ids@.len() == self.items@.len()
        &&& forall|i: int, j: int|
            0 <= i < j < self.ids@.len() ==> #[trigger] self.ids@[i]@ != #[trigger] self.ids@[j]@
    }

    spec fn as_map(&self) -> Map<Seq<char>, V> {
        Map::new(
            |k: Seq<char>| exists|i: int| 0 <= i < self.ids@.len() && self.ids@[i]@ == k,
            |k: Seq<char>|
                self.items@[choose|i: int| 0 <= i < self.ids@.len() && self.ids@[i]@ == k],
        )
    }

    proof fn lemma_at(&self, i: int)
        requires
            self.wf(),
            0 <= i < self.ids@.len(),
        ensures
            self.as_map().contains_key(self.ids@[i]@),
            self.as_map()[self.ids@[i]@] == self.items@[i],
    {
        let k = self.ids@[i]@;
        let j = choose|j: int| 0 <= j < self.ids@.len() && self.ids@[j]@ == k;
        if j != i {
            if i < j {
                assert(self.ids@[i]@ != self.ids@[j]@);
            } else {
                assert(self.ids@[j]@ != self.ids@[i]@);
            }
        }
    }

    fn new() -> (t: Entries<V>)
        ensures
            t.wf(),
            t.as_map() == Map::<Seq<char>, V>::empty(),
    {
        let t = Entries { ids: Vec::new(), items: Vec::new() };
        assert(t.as_map() =~= Map::<Seq<char>, V>::empty());
        t
    }

    fn position(&self, id: &str) -> (r: Option<usize>)
        requires
            self.wf(),
        ensures
            match r {
                Some(i) => i < self.ids@.len() && self.ids@[i as int]@ == id@,
                None => !self.as_map().contains_key(id@),
            },
    {
        let mut i: usize = 0;
        while i < self.ids.len()
            invariant
                i <= self.ids@.len(),
                forall|k: int| 0 <= k < i ==> self.ids@[k]@ != id@,
            decreases self.ids@.len() - i,
        {
            if str_eq(self.ids[i].as_str(), id) {
                return Some(i);
            }
            i = i + 1;
        }
        None
    }

    fn get(&self, id: &str) -> (r: Option<&V>)
        requires
            self.wf(),
        ensures
            match r {
                Some(v) => self.as_map().contains_key(id@) && *v == self.as_map()[id@],
                None => !self.as_map().contains_key(id@),
            },
    {
        match self.position(id) {
            Some(i) => {
                proof {
                    self.lemma_at(i as int);
                }
                Some(&self.items[i])
            },
            None => None,
        }
    }

    fn insert(&mut self, id: String, v: V)
        requires
            old(self).wf(),
        ensures
            final(self).wf(),
            final(self).as_map() == old(self).as_map().insert(id@, v),
    {
        let ghost old_map = self.as_map();
        let ghost old_ids = self.ids@;
        match self.position(id.as_str()) {
            Some(i) => {
                let ghost old_items = self.items@;
                self.items.set(i, v);
                assert(self.ids@ == old_ids);
                assert forall|k: Seq<char>| #[trigger] self.as_map().contains_key(k) == old_map.insert(id@, v).contains_key(k) by {
                    if old_map.contains_key(k) {
                        let j = choose|j: int| 0 <= j < old_ids.len() && old_ids[j]@ == k;
                        assert(self.ids@[j]@ == k);
                    }
                    if k == id@ {
                        assert(self.ids@[i as int]@ == k);
                    }
                }
                assert forall|k: Seq<char>| #[trigger] self.as_map().contains_key(k) implies self.as_map()[k] == old_map.insert(id@, v)[k] by {
                    let j = choose|j: int| 0 <= j < self.ids@.len() && self.ids@[j]@ == k;
                    self.lemma_at(j);
                    if k != id@ {
                        assert(j != i);
                        assert(old_map.contains_key(k)) by {
                            assert(old_ids[j]@ == k);
                        }
                        assert(old_items[j] == self.items@[j]);
                    }
                }
                assert(self.as_map() =~= old_map.insert(id@, v));
            },
            None => {
                let ghost old_items = self.items@;
                self.ids.push(id);
                self.items.push(v);
                assert forall|i: int, j: int|
                    0 <= i < j < self.ids@.len() implies #[trigger] self.ids@[i]@ != #[trigger] self.ids@[j]@ by {
                    if j == self.ids@.len() - 1 {
                        if self.ids@[i]@ == self.ids@[j]@ {
                            assert(old_ids[i]@ == self.ids@[j]@);
                            assert(old_map.contains_key(self.ids@[j]@));
                        }
                    } else {
                        assert(old_ids[i] == self.ids@[i] && old_ids[j] == self.ids@[j]);
                    }
                }
                assert forall|k: Seq<char>| #[trigger] self.as_map().contains_key(k) == old_map.insert(id@, v).contains_key(k) by {
                    if old_map.contains_key(k) {
                        let j = choose|j: int| 0 <= j < old_ids.len() && old_ids[j]@ == k;
                        assert(self.ids@[j]@ == k);
                    }
                    if k == id@ {
                        assert(self.ids@[old_ids.len() as int]@ == k);
                    }
                    if self.as_map().contains_key(k) {
                        let j = choose|j: int| 0 <= j < self.ids@.len() && self.ids@[j]@ == k;
                        if j < old_ids.len() {
                            assert(old_ids[j]@ == k);
                        }
                    }
                }
                assert forall|k: Seq<char>| #[trigger] self.as_map().contains_key(k) implies self.as_map()[k] == old_map.insert(id@, v)[k] by {
                    let j = choose|j: int| 0 <= j < self.ids@.len() && self.ids@[j]@ == k;
                    self.lemma_at(j);
                    if j < old_ids.len() {
                        assert(old_ids[j]@ == k);
                        assert(k != id@);
                        let jj = choose|jj: int| 0 <= jj < old_ids.len() && old_ids[jj]@ == k;
                        if jj != j {
                            if jj < j {
                                assert(self.ids@[jj]@ != self.ids@[j]@);
                            } else {
                                assert(self.ids@[j]@ != self.ids@[jj]@);
                            }
                        }
                        assert(old_items[j] == self.items@[j]);
                    }
                }
                assert(self.as_map() =~= old_map.insert(id@, v));
            },
        }
    }

    fn remove(&mut self, id: &str) -> (r: Option<V>)
        requires
            old(self).wf(),
        ensures
            final(self).wf(),
            final(self).as_map() == old(self).as_map().remove(id@),
            match r {
                Some(v) => old(self).as_map().contains_key(id@) && v == old(self).as_map()[id@],
                None => !old(self).as_map().contains_key(id@),
            },
    {
        let ghost old_map = self.as_map();
        let ghost old_ids = self.ids@;
        let ghost old_items = self.items@;
        match self.position(id) {
            None => {
                assert(self.as_map() =~= old_map.remove(id@));
                None
            },
            Some(i) => {
                proof {
                    self.lemma_at(i as int);
                }
                self.ids.remove(i);
                let v = self.items.remove(i);
                assert forall|a: int, b: int|
                    0 <= a < b < self.ids@.len() implies #[trigger] self.ids@[a]@ != #[trigger] self.ids@[b]@ by {
                    let oa = if a < i { a } else { a + 1 };
                    let ob = if b < i { b } else { b + 1 };
                    assert(self.ids@[a] == old_ids[oa] && self.ids@[b] == old_ids[ob]);
                }
                assert forall|k: Seq<char>| #[trigger] self.as_map().contains_key(k) == old_map.remove(id@).contains_key(k) by {
                    if self.as_map().contains_key(k) {
                        let j = choose|j: int| 0 <= j < self.ids@.len() && self.ids@[j]@ == k;
                        let oj = if j < i { j } else { j + 1 };
                        assert(old_ids[oj]@ == k);
                        assert(oj != i);
                        if k == id@ {
                            if oj < i {
                                assert(old_ids[oj]@ != old_ids[i as int]@);
                            } else {
                                assert(old_ids[i as int]@ != old_ids[oj]@);
                            }
                        }
                    }
                    if old_map.contains_key(k) && k != id@ {
                        let j = choose|j: int| 0 <= j < old_ids.len() && old_ids[j]@ == k;
                        assert(j != i);
                        let nj = if j < i { j } else { j - 1 };
                        assert(self.ids@[nj]@ == k);
                    }
                }
                assert forall|k: Seq<char>| #[trigger] self.as_map().contains_key(k) implies self.as_map()[k] == old_map.remove(id@)[k] by {
                    let j = choose|j: int| 0 <= j < self.ids@.len() && self.ids@[j]@ == k;
                    self.lemma_at(j);
                    let oj = if j < i { j } else { j + 1 };
                    assert(old_ids[oj]@ == k);
                    assert(self.items@[j] == old_items[oj]);
                    let jj = choose|jj: int| 0 <= jj < old_ids.len() && old_ids[jj]@ == k;
                    if jj != oj {
                        if jj < oj {
                            assert(old_ids[jj]@ != old_ids[oj]@);
                        } else {
                            assert(old_ids[oj]@ != old_ids[jj]@);
                        }
                    }
                }
                assert(self.as_map() =~= old_map.remove(id@));
                Some(v)
            },
        }
    }
}


/// Values of type `V` kept under text ids, each id at most once.
pub struct SessionTable<V> {
    entries: Entries<V>,
}

impl<V> SessionTable<V> {
    #[verifier::type_invariant]
    spec fn inv(&self) -> bool {
        self.entries.wf()
    }

    /// The table as a map from ids to values.
    pub closed spec fn as_map(&self) -> Map<Seq<char>, V> {
        self.entries.as_map()
    }

    /// An empty table.
    pub fn new() -> (t: SessionTable<V>)
        ensures
            t.as_map() == Map::<Seq<char>, V>::empty(),
    {
        SessionTable { entries: Entries::new() }
    }

    fn take(&mut self) -> (e: Entries<V>)
        ensures
            e.wf(),
            e.as_map() == old(self).as_map(),
    {
        proof {
            use_type_invariant(&*self);
        }
        let mut t = SessionTable::new();
        std::mem::swap(self, &mut t);
        proof {
            use_type_invariant(&t);
        }
        let SessionTable { entries } = t;
        entries
    }

    /// The value kept under `id`.
    pub fn get(&self, id: &str) -> (r: Option<&V>)
        ensures
            match r {
                Some(v) => self.as_map().contains_key(id@) && *v == self.as_map()[id@],
                None => !self.as_map().contains_key(id@),
            },
    {
        proof {
            use_type_invariant(self);
        }
        self.entries.get(id)
    }

    /// Keeps `v` under `id`, in place of any value kept there before.
    pub fn insert(&mut self, id: String, v: V)
        ensures
            final(self).as_map() == old(self).as_map().insert(id@, v),
    {
        let mut e = self.take();
        e.insert(id, v);
        *self = SessionTable { entries: e };
    }

    /// Forgets the value kept under `id`, answering it.
    pub fn remove(&mut self, id: &str) -> (r: Option<V>)
        ensures
            final(self).as_map() == old(self).as_map().remove(id@),
            match r {
                Some(v) => old(self).as_map().contains_key(id@) && v == old(self).as_map()[id@],
                None => !old(self).as_map().contains_key(id@),
            },
    {
        let mut e = self.take();
        let r = e.remove(id);
        *self = SessionTable { entries: e };
        r
    }
}

/// The open terminals: each session's terminal handle `M` and input `W`;
/// both tables always hold the same sessions.
pub struct PtyState<M, W> {
    masters: SessionTable<M>,
    writers: SessionTable<W>,
}

impl<M, W> PtyState<M, W> {
    #[verifier::type_invariant]
    spec fn same_sessions(&self) -> bool {
        self.masters.as_map().dom() == self.writers.as_map().dom()
    }

    /// The terminal handles by session id.
    pub closed spec fn masters_map(&self) -> Map<Seq<char>, M> {
        self.masters.as_map()
    }

    /// The terminal inputs by session id.
    pub closed spec fn writers_map(&self) -> Map<Seq<char>, W> {
        self.writers.as_map()
    }

    /// The ids of the open sessions.
    pub open spec fn sessions(&self) -> Set<Seq<char>> {
        self.writers_map().dom()
    }

    /// No open terminals.
    pub fn new() -> (s: PtyState<M, W>)
        ensures
            s.masters_map() == Map::<Seq<char>, M>::empty(),
            s.writers_map() == Map::<Seq<char>, W>::empty(),
            s.sessions() == Set::<Seq<char>>::empty(),
    {
        let s = PtyState { masters: SessionTable::new(), writers: SessionTable::new() };
        assert(s.masters.as_map().dom() =~= s.writers.as_map().dom());
        s
    }

    fn take(&mut self) -> (r: (SessionTable<M>, SessionTable<W>))
        ensures
            r.0.as_map() == old(self).masters_map(),
            r.1.as_map() == old(self).writers_map(),
            r.0.as_map().dom() == r.1.as_map().dom(),
    {
        proof {
            use_type_invariant(&*self);
        }
        let mut t = PtyState::new();
        std::mem::swap(self, &mut t);
        proof {
            use_type_invariant(&t);
        }
        let PtyState { masters, writers } = t;
        (masters, writers)
    }

    /// Keeps a new session's terminal and input under its id.
    pub fn register(&mut self, session_id: String, master: M, writer: W)
        ensures
            final(self).masters_map() == old(self).masters_map().insert(session_id@, master),
            final(self).writers_map() == old(self).writers_map().insert(session_id@, writer),
            final(self).sessions() == old(self).sessions().insert(session_id@),
            final(self).masters_map().dom() == final(self).sessions(),
    {
        let (mut masters, mut writers) = self.take();
        let id2 = session_id.clone();
        masters.insert(session_id, master);
        writers.insert(id2, writer);
        assert(masters.as_map().dom() =~= writers.as_map().dom());
        *self = PtyState { masters, writers };
    }

    /// The input of a session, or "Session not found".
    pub fn allow_pty_write(&self, session_id: &str) -> (r: Result<&W, String>)
        ensures
            self.masters_map().dom() == self.sessions(),
            match r {
                Ok(w) => self.sessions().contains(session_id@) && *w == self.writers_map()[session_id@],
                Err(e) => !self.sessions().contains(session_id@) && e@ == "Session not found"@,
            },
    {
        proof {
            use_type_invariant(self);
        }
        match self.writers.get(session_id) {
            Some(w) => Ok(w),
            None => Err(lit("Session not found")),
        }
    }

    /// The terminal of a session, to resize it, or "Session not found".
    pub fn allow_pty_resize(&self, session_id: &str) -> (r: Result<&M, String>)
        ensures
            self.masters_map().dom() == self.sessions(),
            match r {
                Ok(m) => self.sessions().contains(session_id@) && *m == self.masters_map()[session_id@],
                Err(e) => !self.sessions().contains(session_id@) && e@ == "Session not found"@,
            },
    {
        proof {
            use_type_invariant(self);
        }
        match self.masters.get(session_id) {
            Some(m) => Ok(m),
            None => Err(lit("Session not found")),
        }
    }

    /// Forgets a session; closing an unknown one is no error.
    pub fn allow_pty_close(&mut self, session_id: &str)
        ensures
            final(self).masters_map() == old(self).masters_map().remove(session_id@),
            final(self).writers_map() == old(self).writers_map().remove(session_id@),
            final(self).sessions() == old(self).sessions().remove(session_id@),
            final(self).masters_map().dom() == final(self).sessions(),
    {
        let (mut masters, mut writers) = self.take();
        masters.remove(session_id);
        writers.remove(session_id);
        assert(masters.as_map().dom() =~= writers.as_map().dom());
        *self = PtyState { masters, writers };
    }
}

/// One change to the open sessions.
pub enum SessionOp {
    /// `register` under this id (`allow_pty_spawn`).
    Open(Seq<char>),
    /// `allow_pty_close` of this id.
    Close(Seq<char>),
}

/// The sessions open after the changes `ops`, from no sessions at all; the
/// state after `new` and those calls has exactly these (see the contracts
/// of `new`, `register` and `allow_pty_close`).
pub open spec fn sessions_after(ops: Seq<SessionOp>) -> Set<Seq<char>>
    decreases ops.len(),
{
    if ops.len() == 0 {
        Set::empty()
    } else {
        let s = sessions_after(ops.drop_last());
        match ops.last() {
            SessionOp::Open(id) => s.insert(id),
            SessionOp::Close(id) => s.remove(id),
        }
    }
}

/// Some change opened `id` and no later one closed it.
pub open spec fn still_open(ops: Seq<SessionOp>, id: Seq<char>) -> bool {
    exists|i: int|
        0 <= i < ops.len() && #[trigger] ops[i] == SessionOp::Open(id) && forall|j: int|
            i < j < ops.len() ==> #[trigger] ops[j] != SessionOp::Close(id)
}

/// A session is found exactly while it is open: after any changes, a
/// session id is known (and writing to it or resizing it finds it) if and
/// only if it was opened and not closed since. A session never opened, or
/// closed after its last opening, answers "Session not found".
pub proof fn law_session_history(ops: Seq<SessionOp>, id: Seq<char>)
    ensures
        sessions_after(ops).contains(id) <==> still_open(ops, id),
    decreases ops.len(),
{
    if ops.len() > 0 {
        let pre = ops.drop_last();
        let n = ops.len() - 1;
        law_session_history(pre, id);
        if still_open(pre, id) {
            let i = choose|i: int|
                0 <= i < pre.len() && #[trigger] pre[i] == SessionOp::Open(id) && forall|j: int|
                    i < j < pre.len() ==> #[trigger] pre[j] != SessionOp::Close(id);
            assert(ops[i] == SessionOp::Open(id));
        }
        match ops.last() {
            SessionOp::Open(x) => {
                if x == id {
                    assert(ops[n] == SessionOp::Open(id));
                    assert(still_open(ops, id));
                } else if still_open(ops, id) {
                    let i = choose|i: int|
                        0 <= i < ops.len() && #[trigger] ops[i] == SessionOp::Open(id) && forall|j: int|
                            i < j < ops.len() ==> #[trigger] ops[j] != SessionOp::Close(id);
                    assert(i < n);
                    assert(pre[i] == SessionOp::Open(id));
                    assert forall|j: int| i < j < pre.len() implies #[trigger] pre[j] != SessionOp::Close(id) by {
                        assert(ops[j] == pre[j]);
                    }
                    assert(still_open(pre, id));
                } else if still_open(pre, id) {
                    let i = choose|i: int|
                        0 <= i < pre.len() && #[trigger] pre[i] == SessionOp::Open(id) && forall|j: int|
                            i < j < pre.len() ==> #[trigger] pre[j] != SessionOp::Close(id);
                    assert forall|j: int| i < j < ops.len() implies #[trigger] ops[j] != SessionOp::Close(id) by {
                        if j < n {
                            assert(ops[j] == pre[j]);
                        }
                    }
                    assert(ops[i] == SessionOp::Open(id));
                }
            },
            SessionOp::Close(x) => {
                if x == id {
                    if still_open(ops, id) {
                        let i = choose|i: int|
                            0 <= i < ops.len() && #[trigger] ops[i] == SessionOp::Open(id) && forall|j: int|
                                i < j < ops.len() ==> #[trigger] ops[j] != SessionOp::Close(id);
                        assert(i != n);
                        assert(ops[n] != SessionOp::Close(id));
                    }
                } else if still_open(ops, id) {
                    let i = choose|i: int|
                        0 <= i < ops.len() && #[trigger] ops[i] == SessionOp::Open(id) && forall|j: int|
                            i < j < ops.len() ==> #[trigger] ops[j] != SessionOp::Close(id);
                    assert(i < n);
                    assert(pre[i] == SessionOp::Open(id));
                    assert forall|j: int| i < j < pre.len() implies #[trigger] pre[j] != SessionOp::Close(id) by {
                        assert(ops[j] == pre[j]);
                    }
                    assert(still_open(pre, id));
                } else if still_open(pre, id) {
                    let i = choose|i: int|
                        0 <= i < pre.len() && #[trigger] pre[i] == SessionOp::Open(id) && forall|j: int|
                            i < j < pre.len() ==> #[trigger] pre[j] != SessionOp::Close(id);
                    assert forall|j: int| i < j < ops.len() implies #[trigger] ops[j] != SessionOp::Close(id) by {
                        if j < n {
                            assert(ops[j] == pre[j]);
                        }
                    }
                    assert(ops[i] == SessionOp::Open(id));
                }
            },
        }
    }
}

/// The open sessions after one change to `s`.
pub open spec fn apply_op(s: Set<Seq<char>>, op: SessionOp) -> Set<Seq<char>> {
    match op {
        SessionOp::Open(id) => s.insert(id),
        SessionOp::Close(id) => s.remove(id),
    }
}

/// Every state the terminals reach holds the sessions opened and not closed
/// since, and no other: for states each taken from the one before by the
/// change that `register` or `allow_pty_close` makes (see their contracts),
/// starting from the empty state of `new`, the last one knows `id` if and
/// only if `id` is still open. Writing to or resizing any other id (one
/// never opened, or closed since) therefore answers "Session not found".
pub proof fn law_reached_states<M, W>(states: Seq<PtyState<M, W>>, ops: Seq<SessionOp>, id: Seq<char>)
    requires
        states.len() == ops.len() + 1,
        states[0].sessions() == Set::<Seq<char>>::empty(),
        forall|k: int|
            #![trigger ops[k]]
            0 <= k < ops.len() ==> states[k + 1].sessions() == apply_op(states[k].sessions(), ops[k]),
    ensures
        states.last().sessions() == sessions_after(ops),
        states.last().sessions().contains(id) <==> still_open(ops, id),
    decreases ops.len(),
{
    if ops.len() > 0 {
        let n = ops.len() - 1;
        let pre = states.drop_last();
        assert forall|k: int| 0 <= k < ops.drop_last().len() implies #[trigger] pre[k + 1].sessions()
            == apply_op(pre[k].sessions(), ops.drop_last()[k]) by {
            assert(ops.drop_last()[k] == ops[k]);
        }
        law_reached_states(pre, ops.drop_last(), id);
        assert(ops[n] == ops.last());
        assert(states.last() == states[n + 1]);
        assert(pre.last() == states[n]);
    }
    law_session_history(ops, id);
}

/// A session opened on a terminal of the given size.
pub struct PTYSession {
    pub id: String,
    pub rows: u16,
    pub cols: u16,
}

/// The shell a new terminal runs: the configured one where it is set, else
/// PowerShell on Windows and bash elsewhere.
pub open spec fn pty_shell_text(configured: Option<Seq<char>>, windows: bool) -> Seq<char> {
    match configured {
        Some(s) => s,
        None => if windows {
            "powershell.exe"@
        } else {
            "/bin/bash"@
        },
    }
}

/// Picks the shell of a new terminal from the configured one (`COMSPEC` on
/// Windows, `SHELL` elsewhere).
pub fn pty_shell(configured: Option<String>, windows: bool) -> (r: String)
    ensures
        r@ == pty_shell_text(
            match configured {
                Some(s) => Some(s@),
                None => None,
            },
            windows,
        ),
{
    match configured {
        Some(s) => s,
        None => if windows {
            lit("powershell.exe")
        } else {
            lit("/bin/bash")
        },
    }
}

/// A registered session is found again: after `register`, writing to and
/// resizing it give the session's input and terminal, and other sessions
/// keep theirs.
pub proof fn law_registered_session_found<M, W>(
    before: PtyState<M, W>,
    after: PtyState<M, W>,
    id: Seq<char>,
    master: M,
    writer: W,
    other: Seq<char>,
)
    requires
        after.masters_map() == before.masters_map().insert(id, master),
        after.writers_map() == before.writers_map().insert(id, writer),
    ensures
        after.sessions().contains(id) && after.writers_map()[id] == writer && after.masters_map()[id] == master,
        other != id ==> (after.sessions().contains(other) == before.sessions().contains(other)),
        other != id && before.sessions().contains(other) ==> after.writers_map()[other] == before.writers_map()[other],
{
}

} // verus!
