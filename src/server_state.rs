use vstd::prelude::*;
use vstd::string::StringExecFns;

use crate::ids::{fresh_id, id_text, uuid_text};
use crate::value::{canonical, value_to_mcp_string, Value};

verus! {

/// One live, registered instance. `S` is the handle of its outbound frame queue.
pub struct StudioConnection<S> {
    pub sender: S,
    pub place_id: u64,
    pub place_name: String,
    pub game_id: u64,
    pub job_id: String,
    pub place_version: u64,
    pub creator_id: u64,
    pub creator_type: String,
    /// RFC 3339 text of the moment the instance registered.
    pub connected_at: String,
}

/// What a listing shows of one connection.
pub struct StudioInfo {
    pub studio_id: String,
    pub place_id: u64,
    pub place_name: String,
    pub game_id: u64,
    pub job_id: String,
    pub place_version: u64,
    pub creator_id: u64,
    pub creator_type: String,
    pub connected_at: String,
}

/// The first frame an instance sends after it connects.
pub struct RegistrationMessage {
    pub msg_type: String,
    pub place_id: u64,
    pub place_name: String,
    pub game_id: u64,
    pub job_id: String,
    pub place_version: u64,
    pub creator_id: u64,
    pub creator_type: String,
}

/// Per-session state: the connection the session is explicitly bound to, if any.
#[derive(Clone, Copy, PartialEq, Eq, Debug)]
pub struct SessionState {
    pub selected_studio_id: Option<u128>,
}

/// One in-flight command: its completion handle and the connection it was sent to.
pub struct PendingRequest<C> {
    pub sender: C,
    pub connection_id: u128,
}

/// A decoded response frame.
pub struct RunCommandResponse {
    pub success: bool,
    pub response: Value,
    pub id: u128,
}

/// A connection offered for selection: its identity and display name.
pub struct Candidate {
    pub studio_id: u128,
    pub place_name: String,
}

/// Why a session could not be routed to a connection.
pub enum ResolveError {
    /// The session is bound to a connection that is gone.
    StaleSelection(u128),
    /// No connection is live.
    NoneConnected,
    /// Several connections are live and the session is bound to none; they are listed.
    Ambiguous(Vec<Candidate>),
}

/// The registries: live connections, sessions and pending requests.
///
/// Connections and pending requests are kept in the order they were added.
pub struct AppState<S, C> {
    connections: Vec<(u128, StudioConnection<S>)>,
    sessions: Vec<(String, SessionState)>,
    output_map: Vec<(u128, PendingRequest<C>)>,
}

/// The identities of a list of connections, in order.
pub open spec fn ids_of<S>(conns: Seq<(u128, StudioConnection<S>)>) -> Seq<u128> {
    conns.map_values(|c: (u128, StudioConnection<S>)| c.0)
}

/// The correlation identities of a list of pending requests, in order.
pub open spec fn request_ids<C>(ps: Seq<(u128, PendingRequest<C>)>) -> Seq<u128> {
    ps.map_values(|p: (u128, PendingRequest<C>)| p.0)
}

/// The pending requests that connection `id` does not own, in order.
pub open spec fn kept<C>(ps: Seq<(u128, PendingRequest<C>)>, id: u128) -> Seq<(u128, PendingRequest<C>)>
    decreases ps.len(),
{
    if ps.len() == 0 {
        seq![]
    } else if ps.last().1.connection_id != id {
        kept(ps.drop_last(), id).push(ps.last())
    } else {
        kept(ps.drop_last(), id)
    }
}

/// The completion handles of the pending requests that connection `id` owns, in order.
pub open spec fn orphans<C>(ps: Seq<(u128, PendingRequest<C>)>, id: u128) -> Seq<C>
    decreases ps.len(),
{
    if ps.len() == 0 {
        seq![]
    } else if ps.last().1.connection_id == id {
        orphans(ps.drop_last(), id).push(ps.last().1.sender)
    } else {
        orphans(ps.drop_last(), id)
    }
}

/// Connection `c` is what registration `reg` describes, with queue `sender`, registered at `at`.
pub open spec fn registered<S>(c: StudioConnection<S>, reg: RegistrationMessage, sender: S, at: Seq<char>) -> bool {
    &&& c.sender == sender
    &&& c.place_id == reg.place_id
    &&& c.place_name@ == reg.place_name@
    &&& c.game_id == reg.game_id
    &&& c.job_id@ == reg.job_id@
    &&& c.place_version == reg.place_version
    &&& c.creator_id == reg.creator_id
    &&& c.creator_type@ == reg.creator_type@
    &&& c.connected_at@ == at
}

/// `outcome` is what `response` reports: its payload's canonical text, `Ok` on success.
pub open spec fn canonical_outcome(outcome: Result<String, String>, response: RunCommandResponse) -> bool {
    &&& outcome is Ok == response.success
    &&& outcome_text(outcome) == canonical(response.response)
}

/// The text a completion carries.
pub open spec fn outcome_text(r: Result<String, String>) -> Seq<char> {
    match r {
        Ok(t) => t@,
        Err(t) => t@,
    }
}

proof fn lemma_no_dup_push(s: Seq<u128>, x: u128)
    requires
        s.no_duplicates(),
        !s.contains(x),
    ensures
        s.push(x).no_duplicates(),
{
    assert forall|a: int, b: int| 0 <= a < s.len() + 1 && 0 <= b < s.len() + 1 && a != b implies s.push(x)[a]
        != s.push(x)[b] by {
        if a == s.len() {
            assert(s[b] != x);
        } else if b == s.len() {
            assert(s[a] != x);
        }
    }
}

/// What the teardown of connection `id` keeps: the requests others own, and no others;
/// each pending request is either kept or handed back for failing, never both.
pub proof fn lemma_kept<C>(ps: Seq<(u128, PendingRequest<C>)>, id: u128)
    ensures
        forall|e: (u128, PendingRequest<C>)| kept(ps, id).contains(e) <==> (ps.contains(e) && e.1.connection_id != id),
        kept(ps, id).len() + orphans(ps, id).len() == ps.len(),
        request_ids(ps).no_duplicates() ==> request_ids(kept(ps, id)).no_duplicates(),
    decreases ps.len(),
{
    if ps.len() > 0 {
        let d = ps.drop_last();
        lemma_kept(d, id);
        assert(ps =~= d.push(ps.last()));
        assert forall|e: (u128, PendingRequest<C>)| ps.contains(e) <==> (d.contains(e) || e == ps.last()) by {
            if ps.contains(e) {
                let j = choose|j: int| 0 <= j < ps.len() && ps[j] == e;
                if j < d.len() {
                    assert(d[j] == e);
                }
            }
            if d.contains(e) {
                let j = choose|j: int| 0 <= j < d.len() && d[j] == e;
                assert(ps[j] == e);
            }
            if e == ps.last() {
                assert(ps[ps.len() - 1] == e);
            }
        }
        if ps.last().1.connection_id != id {
            let k = kept(d, id);
            assert forall|e: (u128, PendingRequest<C>)| k.push(ps.last()).contains(e) <==> (k.contains(e) || e == ps.last()) by {
                if k.push(ps.last()).contains(e) {
                    let j = choose|j: int| 0 <= j < k.len() + 1 && k.push(ps.last())[j] == e;
                    if j < k.len() {
                        assert(k[j] == e);
                    }
                }
                if k.contains(e) {
                    let j = choose|j: int| 0 <= j < k.len() && k[j] == e;
                    assert(k.push(ps.last())[j] == e);
                }
                if e == ps.last() {
                    assert(k.push(ps.last())[k.len() as int] == e);
                }
            }
            if request_ids(ps).no_duplicates() {
                assert(request_ids(d) =~= request_ids(ps).drop_last());
                assert forall|a: int, b: int| 0 <= a < d.len() && 0 <= b < d.len() && a != b implies request_ids(d)[a] != request_ids(d)[b] by {
                    assert(request_ids(ps)[a] != request_ids(ps)[b]);
                }
                assert(request_ids(k.push(ps.last())) =~= request_ids(k).push(ps.last().0));
                if request_ids(k).contains(ps.last().0) {
                    let j = choose|j: int| 0 <= j < request_ids(k).len() && request_ids(k)[j] == ps.last().0;
                    assert(k.contains(k[j]));
                    assert(d.contains(k[j]));
                    let m = choose|m: int| 0 <= m < d.len() && d[m] == k[j];
                    assert(request_ids(ps)[m] == request_ids(ps)[ps.len() - 1]);
                }
                lemma_no_dup_push(request_ids(k), ps.last().0);
            }
        } else {
            if request_ids(ps).no_duplicates() {
                assert(request_ids(d) =~= request_ids(ps).drop_last());
                assert forall|a: int, b: int| 0 <= a < d.len() && 0 <= b < d.len() && a != b implies request_ids(d)[a] != request_ids(d)[b] by {
                    assert(request_ids(ps)[a] != request_ids(ps)[b]);
                }
            }
        }
    }
}

/// The candidates list exactly the connections, in order.
pub open spec fn lists_connections<S>(c: Seq<Candidate>, conns: Seq<(u128, StudioConnection<S>)>) -> bool {
    &&& c.len() == conns.len()
    &&& forall|i: int|
        0 <= i < c.len() ==> #[trigger] c[i].studio_id == conns[i].0 && c[i].place_name@
            == conns[i].1.place_name@
}

/// `info` describes connection `c` under identity `id`.
pub open spec fn describes<S>(info: StudioInfo, id: u128, c: StudioConnection<S>) -> bool {
    &&& info.studio_id@ == uuid_text(id)
    &&& info.place_id == c.place_id
    &&& info.place_name@ == c.place_name@
    &&& info.game_id == c.game_id
    &&& info.job_id@ == c.job_id@
    &&& info.place_version == c.place_version
    &&& info.creator_id == c.creator_id
    &&& info.creator_type@ == c.creator_type@
    &&& info.connected_at@ == c.connected_at@
}

/// The result of routing a session bound to `selected` among the live `ids`, where
/// `Err(None)` stands for the ambiguous case, whose listing is stated apart.
pub open spec fn resolution(ids: Seq<u128>, selected: Option<u128>) -> Result<u128, Option<ResolveKind>> {
    match selected {
        Some(id) => if ids.contains(id) {
            Ok(id)
        } else {
            Err(Some(ResolveKind::Stale(id)))
        },
        None => if ids.len() == 0 {
            Err(Some(ResolveKind::NoneConnected))
        } else if ids.len() == 1 {
            Ok(ids[0])
        } else {
            Err(None)
        },
    }
}

/// An unbound session is refused when no connection is live, is routed to the only
/// live connection when there is one, and is refused with a listing when there are two
/// or more.
pub proof fn lemma_unbound_resolution(ids: Seq<u128>)
    ensures
        ids.len() == 0 ==> resolution(ids, None) == Err::<u128, Option<ResolveKind>>(Some(ResolveKind::NoneConnected)),
        ids.len() == 1 ==> resolution(ids, None) == Ok::<u128, Option<ResolveKind>>(ids[0]),
        ids.len() >= 2 ==> resolution(ids, None) == Err::<u128, Option<ResolveKind>>(None),
{
}

/// A bound session is routed to its connection while that is live, and is refused as
/// stale once it is gone, whatever else is live.
pub proof fn lemma_bound_resolution(ids: Seq<u128>, id: u128)
    ensures
        ids.contains(id) ==> resolution(ids, Some(id)) == Ok::<u128, Option<ResolveKind>>(id),
        !ids.contains(id) ==> resolution(ids, Some(id)) == Err::<u128, Option<ResolveKind>>(Some(ResolveKind::Stale(id))),
{
}

/// The resolution failures that carry no listing.
pub ghost enum ResolveKind {
    Stale(u128),
    NoneConnected,
}

/// `e` is the error that `resolution` describes for live connections `conns`.
pub open spec fn is_resolve_error<S>(
    e: ResolveError,
    conns: Seq<(u128, StudioConnection<S>)>,
    selected: Option<u128>,
) -> bool {
    match resolution(ids_of(conns), selected) {
        Ok(_) => false,
        Err(Some(ResolveKind::Stale(id))) => e == ResolveError::StaleSelection(id),
        Err(Some(ResolveKind::NoneConnected)) => e == ResolveError::NoneConnected,
        Err(None) => match e {
            ResolveError::Ambiguous(c) => lists_connections(c@, conns),
            _ => false,
        },
    }
}

impl<S, C> AppState<S, C> {
    /// Identities of the live connections, in order of registration.
    pub open spec fn live_ids(&self) -> Seq<u128> {
        ids_of(self.connections_view())
    }

    pub closed spec fn connections_view(&self) -> Seq<(u128, StudioConnection<S>)> {
        self.connections@
    }

    /// Correlation identities of the pending requests, in order of dispatch.
    pub open spec fn pending_ids(&self) -> Seq<u128> {
        request_ids(self.pending_view())
    }

    pub closed spec fn pending_view(&self) -> Seq<(u128, PendingRequest<C>)> {
        self.output_map@
    }

    pub open spec fn session_keys(&self) -> Seq<Seq<char>> {
        self.sessions_view().map_values(|e: (String, SessionState)| e.0@)
    }

    pub closed spec fn sessions_view(&self) -> Seq<(String, SessionState)> {
        self.sessions@
    }

    /// The selection of session `key`; a session never seen has none.
    pub open spec fn selection_of(&self, key: Seq<char>) -> Option<u128> {
        let ss = self.sessions_view();
        if exists|i: int| 0 <= i < ss.len() && #[trigger] ss[i].0@ == key {
            let i = choose|i: int| 0 <= i < ss.len() && #[trigger] ss[i].0@ == key;
            ss[i].1.selected_studio_id
        } else {
            None
        }
    }

    /// Identities are unique in each registry.
    pub open spec fn wf(&self) -> bool {
        &&& self.live_ids().no_duplicates()
        &&& self.pending_ids().no_duplicates()
        &&& self.session_keys().no_duplicates()
    }

    pub fn new() -> (r: Self)
        ensures
            r.wf(),
            r.connections_view().len() == 0,
            r.pending_view().len() == 0,
            r.sessions_view().len() == 0,
    {
        let r = AppState { connections: Vec::new(), sessions: Vec::new(), output_map: Vec::new() };
        proof {
            assert(r.live_ids() =~= Seq::<u128>::empty());
            assert(r.pending_ids() =~= Seq::<u128>::empty());
            assert(r.session_keys() =~= Seq::<Seq<char>>::empty());
        }
        r
    }

    /// Position of connection `id`, if it is live.
    fn find_connection(&self, id: u128) -> (r: Option<usize>)
        ensures
            match r {
                Some(i) => i < self.connections@.len() && self.connections@[i as int].0 == id,
                None => !self.live_ids().contains(id),
            },
    {
        let mut i: usize = 0;
        while i < self.connections.len()
            invariant
                i <= self.connections@.len(),
                forall|j: int| 0 <= j < i ==> self.connections@[j].0 != id,
            decreases self.connections.len() - i,
        {
            if self.connections[i].0 == id {
                return Some(i);
            }
            i = i + 1;
        }
        proof {
            if self.live_ids().contains(id) {
                let j = choose|j: int| 0 <= j < self.live_ids().len() && self.live_ids()[j] == id;
                assert(self.connections@[j].0 == id);
            }
        }
        None
    }

    /// The live connections as selection candidates.
    fn candidates(&self) -> (r: Vec<Candidate>)
        ensures
            lists_connections(r@, self.connections@),
    {
        let mut r: Vec<Candidate> = Vec::new();
        let mut i: usize = 0;
        while i < self.connections.len()
            invariant
                i <= self.connections@.len(),
                lists_connections(r@, self.connections@.take(i as int)),
            decreases self.connections.len() - i,
        {
            let c = &self.connections[i];
            r.push(Candidate { studio_id: c.0, place_name: c.1.place_name.clone() });
            i = i + 1;
        }
        assert(self.connections@.take(i as int) =~= self.connections@);
        r
    }

    /// Routes a session: its explicit selection if that connection is live, else the
    /// single live connection; fails when the selection is stale, when none is live,
    /// or when several are live and none is selected.
    pub fn resolve_studio_id(&self, session: &SessionState) -> (r: Result<u128, ResolveError>)
        ensures
            match resolution(self.live_ids(), session.selected_studio_id) {
                Ok(id) => r == Ok::<u128, ResolveError>(id),
                Err(_) => r is Err && is_resolve_error(r->Err_0, self.connections_view(), session.selected_studio_id),
            },
    {
        if let Some(studio_id) = session.selected_studio_id {
            if let Some(i) = self.find_connection(studio_id) {
                assert(self.live_ids()[i as int] == studio_id);
                return Ok(studio_id);
            }
            return Err(ResolveError::StaleSelection(studio_id));
        }
        let n = self.connections.len();
        if n == 0 {
            Err(ResolveError::NoneConnected)
        } else if n == 1 {
            Ok(self.connections[0].0)
        } else {
            Err(ResolveError::Ambiguous(self.candidates()))
        }
    }

    proof fn lemma_selection_at(&self, i: int)
        requires
            self.wf(),
            0 <= i < self.sessions_view().len(),
        ensures
            self.selection_of(self.sessions_view()[i].0@) == self.sessions_view()[i].1.selected_studio_id,
    {
        let ss = self.sessions_view();
        let key = ss[i].0@;
        assert(ss[i].0@ == key);
        assert forall|j: int| 0 <= j < ss.len() && #[trigger] ss[j].0@ == key implies j == i by {
            assert(self.session_keys()[j] == ss[j].0@);
            assert(self.session_keys()[i] == ss[i].0@);
        }
    }

    proof fn lemma_selection_absent(&self, key: Seq<char>)
        requires
            !self.session_keys().contains(key),
        ensures
            self.selection_of(key) == None::<u128>,
    {
        let ss = self.sessions_view();
        if exists|i: int| 0 <= i < ss.len() && #[trigger] ss[i].0@ == key {
            let i = choose|i: int| 0 <= i < ss.len() && #[trigger] ss[i].0@ == key;
            assert(self.session_keys()[i] == key);
        }
    }

    /// Position of session `key`, if it was seen.
    fn find_session(&self, key: &String) -> (r: Option<usize>)
        requires
            self.wf(),
        ensures
            match r {
                Some(i) => {
                    &&& i < self.sessions_view().len()
                    &&& self.sessions_view()[i as int].0@ == key@
                    &&& self.selection_of(key@) == self.sessions_view()[i as int].1.selected_studio_id
                },
                None => !self.session_keys().contains(key@) && self.selection_of(key@) == None::<u128>,
            },
    {
        let mut i: usize = 0;
        while i < self.sessions.len()
            invariant
                self.wf(),
                i <= self.sessions@.len(),
                forall|j: int| 0 <= j < i ==> self.sessions@[j].0@ != key@,
            decreases self.sessions.len() - i,
        {
            if self.sessions[i].0 == *key {
                proof {
                    self.lemma_selection_at(i as int);
                }
                return Some(i);
            }
            i = i + 1;
        }
        proof {
            if self.session_keys().contains(key@) {
                let j = choose|j: int| 0 <= j < self.session_keys().len() && self.session_keys()[j] == key@;
                assert(self.sessions@[j].0@ == key@);
            }
            self.lemma_selection_absent(key@);
        }
        None
    }

    /// Sets the selection of session `key`, creating the session if it was never seen.
    fn set_selection(&mut self, key: &String, target: Option<u128>)
        requires
            old(self).wf(),
        ensures
            final(self).wf(),
            final(self).selection_of(key@) == target,
            forall|k: Seq<char>| k != key@ ==> final(self).selection_of(k) == old(self).selection_of(k),
            final(self).session_keys() == (if old(self).session_keys().contains(key@) {
                old(self).session_keys()
            } else {
                old(self).session_keys().push(key@)
            }),
            final(self).connections_view() == old(self).connections_view(),
            final(self).pending_view() == old(self).pending_view(),
            !old(self).session_keys().contains(key@) ==> {
                &&& final(self).sessions_view().len() == old(self).sessions_view().len() + 1
                &&& final(self).sessions_view().drop_last() == old(self).sessions_view()
                &&& final(self).sessions_view().last().0@ == key@
                &&& final(self).sessions_view().last().1 == SessionState { selected_studio_id: target }
            },
    {
        let ghost pre = *self;
        let found = self.find_session(key);
        match found {
            Some(i) => {
                self.sessions.set(i, (key.clone(), SessionState { selected_studio_id: target }));
                proof {
                    assert(pre.session_keys()[i as int] == key@);
                    assert(self.session_keys() =~= pre.session_keys());
                    self.lemma_selection_at(i as int);
                    assert forall|k: Seq<char>| k != key@ implies self.selection_of(k) == pre.selection_of(k) by {
                        if self.session_keys().contains(k) {
                            let j = choose|j: int| 0 <= j < self.session_keys().len() && self.session_keys()[j] == k;
                            self.lemma_selection_at(j);
                            pre.lemma_selection_at(j);
                        } else {
                            self.lemma_selection_absent(k);
                            pre.lemma_selection_absent(k);
                        }
                    }
                }
            },
            None => {
                self.sessions.push((key.clone(), SessionState { selected_studio_id: target }));
                proof {
                    assert(self.sessions_view().drop_last() =~= pre.sessions_view());
                    assert(self.session_keys() =~= pre.session_keys().push(key@));
                    let n = pre.sessions_view().len() as int;
                    self.lemma_selection_at(n);
                    assert forall|k: Seq<char>| k != key@ implies self.selection_of(k) == pre.selection_of(k) by {
                        if pre.session_keys().contains(k) {
                            let j = choose|j: int| 0 <= j < pre.session_keys().len() && pre.session_keys()[j] == k;
                            self.lemma_selection_at(j);
                            pre.lemma_selection_at(j);
                        } else {
                            assert(!self.session_keys().contains(k));
                            self.lemma_selection_absent(k);
                            pre.lemma_selection_absent(k);
                        }
                    }
                }
            },
        }
    }

    /// The listing entry of connection `i`.
    fn info_at(&self, i: usize) -> (r: StudioInfo)
        requires
            i < self.connections_view().len(),
        ensures
            describes(r, self.connections_view()[i as int].0, self.connections_view()[i as int].1),
    {
        let e = &self.connections[i];
        e.1.to_info(e.0)
    }

    /// Every live connection, in order of registration.
    pub fn list_studios(&self) -> (r: Vec<StudioInfo>)
        ensures
            r@.len() == self.connections_view().len(),
            forall|i: int|
                0 <= i < r@.len() ==> describes(
                    #[trigger] r@[i],
                    self.connections_view()[i].0,
                    self.connections_view()[i].1,
                ),
    {
        let mut r: Vec<StudioInfo> = Vec::new();
        let mut i: usize = 0;
        while i < self.connections.len()
            invariant
                i <= self.connections@.len(),
                r@.len() == i,
                forall|j: int|
                    0 <= j < i ==> describes(#[trigger] r@[j], self.connections@[j].0, self.connections@[j].1),
            decreases self.connections.len() - i,
        {
            let info = self.info_at(i);
            r.push(info);
            i = i + 1;
        }
        r
    }

    /// What session `session_id` is bound to: nothing, a live connection (described),
    /// or a connection that is gone.
    pub fn get_studio(&self, session_id: &str) -> (r: StudioSelection)
        requires
            self.wf(),
        ensures
            match self.selection_of(session_id@) {
                None => r is NoneSelected,
                Some(id) => if self.live_ids().contains(id) {
                    r is Selected && exists|i: int|
                        0 <= i < self.connections_view().len() && self.connections_view()[i].0 == id
                            && describes(r->Selected_0, id, #[trigger] self.connections_view()[i].1)
                } else {
                    r == StudioSelection::Disconnected(id)
                },
            },
    {
        let key = String::from_str(session_id);
        let studio_id = match self.find_session(&key) {
            None => return StudioSelection::NoneSelected,
            Some(i) => match self.sessions[i].1.selected_studio_id {
                None => return StudioSelection::NoneSelected,
                Some(id) => id,
            },
        };
        match self.find_connection(studio_id) {
            Some(i) => {
                assert(self.live_ids()[i as int] == studio_id);
                StudioSelection::Selected(self.info_at(i))
            },
            None => StudioSelection::Disconnected(studio_id),
        }
    }

    /// Binds session `session_id` to connection `target`, or clears its binding when
    /// `target` is `None`. A target that is not live is refused with the live
    /// connections listed, and nothing changes. Returns the bound connection's listing.
    pub fn bind(&mut self, session_id: &str, target: Option<u128>) -> (r: Result<Option<StudioInfo>, SelectError>)
        requires
            old(self).wf(),
        ensures
            final(self).wf(),
            final(self).connections_view() == old(self).connections_view(),
            final(self).pending_view() == old(self).pending_view(),
            match target {
                None => r is Ok && r->Ok_0 is None && final(self).selection_of(session_id@) == None::<u128>,
                Some(id) => if old(self).live_ids().contains(id) {
                    &&& r is Ok && r->Ok_0 is Some
                    &&& final(self).selection_of(session_id@) == Some(id)
                    &&& exists|i: int|
                        0 <= i < old(self).connections_view().len() && old(self).connections_view()[i].0 == id
                            && describes(r->Ok_0->0, id, #[trigger] old(self).connections_view()[i].1)
                } else {
                    &&& r is Err && r->Err_0 is UnknownStudio
                    &&& r->Err_0->UnknownStudio_0 == id
                    &&& lists_connections(r->Err_0->UnknownStudio_1@, old(self).connections_view())
                    &&& *final(self) == *old(self)
                },
            },
            r is Ok ==> forall|k: Seq<char>| k != session_id@ ==> final(self).selection_of(k) == old(self).selection_of(k),
    {
        let key = String::from_str(session_id);
        match target {
            None => {
                self.set_selection(&key, None);
                Ok(None)
            },
            Some(id) => match self.find_connection(id) {
                None => Err(SelectError::UnknownStudio(id, self.candidates())),
                Some(i) => {
                    assert(self.live_ids()[i as int] == id);
                    let info = self.info_at(i);
                    self.set_selection(&key, Some(id));
                    Ok(Some(info))
                },
            },
        }
    }

    /// Admits a registered instance under identity `studio_id`, unless that identity is
    /// already live; returns whether it was admitted.
    pub fn register_with_id(
        &mut self,
        studio_id: u128,
        registration: RegistrationMessage,
        sender: S,
        connected_at: String,
    ) -> (r: bool)
        requires
            old(self).wf(),
        ensures
            final(self).wf(),
            r == !old(self).live_ids().contains(studio_id),
            r ==> {
                &&& final(self).connections_view().len() == old(self).connections_view().len() + 1
                &&& final(self).connections_view().drop_last() == old(self).connections_view()
                &&& final(self).connections_view().last().0 == studio_id
                &&& registered(final(self).connections_view().last().1, registration, sender, connected_at@)
            },
            !r ==> *final(self) == *old(self),
            final(self).pending_view() == old(self).pending_view(),
            final(self).sessions_view() == old(self).sessions_view(),
    {
        if let Some(i) = self.find_connection(studio_id) {
            assert(self.live_ids()[i as int] == studio_id);
            return false;
        }
        let ghost pre = *self;
        let conn = StudioConnection {
            sender,
            place_id: registration.place_id,
            place_name: registration.place_name,
            game_id: registration.game_id,
            job_id: registration.job_id,
            place_version: registration.place_version,
            creator_id: registration.creator_id,
            creator_type: registration.creator_type,
            connected_at,
        };
        self.connections.push((studio_id, conn));
        proof {
            assert(self.connections_view().drop_last() =~= pre.connections_view());
            assert(self.live_ids() =~= pre.live_ids().push(studio_id));
            lemma_no_dup_push(pre.live_ids(), studio_id);
        }
        true
    }

    /// Admits a registered instance under a freshly minted identity; `None` only when
    /// the minted identity happened to be live already, and then nothing changed.
    pub fn register(&mut self, registration: RegistrationMessage, sender: S, connected_at: String) -> (r: Option<u128>)
        requires
            old(self).wf(),
        ensures
            final(self).wf(),
            match r {
                Some(id) => {
                    &&& !old(self).live_ids().contains(id)
                    &&& final(self).connections_view().drop_last() == old(self).connections_view()
                    &&& final(self).connections_view().len() == old(self).connections_view().len() + 1
                    &&& final(self).connections_view().last().0 == id
                    &&& registered(final(self).connections_view().last().1, registration, sender, connected_at@)
                },
                None => *final(self) == *old(self),
            },
            r is None ==> old(self).live_ids().len() > 0,
            final(self).pending_view() == old(self).pending_view(),
            final(self).sessions_view() == old(self).sessions_view(),
    {
        let studio_id = fresh_id();
        if self.register_with_id(studio_id, registration, sender, connected_at) {
            Some(studio_id)
        } else {
            None
        }
    }

    /// The outbound queue of connection `studio_id`, if it is live.
    pub fn sender_of(&self, studio_id: u128) -> (r: Option<&S>)
        ensures
            match r {
                Some(s) => exists|i: int|
                    0 <= i < self.connections_view().len() && self.connections_view()[i].0 == studio_id
                        && *s == #[trigger] self.connections_view()[i].1.sender,
                None => !self.live_ids().contains(studio_id),
            },
    {
        match self.find_connection(studio_id) {
            Some(i) => {
                let r = &self.connections[i].1.sender;
                assert(self.connections_view()[i as int].0 == studio_id);
                assert(*r == self.connections_view()[i as int].1.sender);
                Some(r)
            },
            None => None,
        }
    }

    /// Routes a command of session `session` and records it as pending under
    /// `request_id`, owned by the chosen connection, whose identity is returned. On
    /// failure nothing is recorded: the routing failed, or `request_id` is pending.
    pub fn begin_dispatch_with_id(&mut self, session: &SessionState, request_id: u128, completion: C) -> (r: Result<u128, DispatchError>)
        requires
            old(self).wf(),
        ensures
            final(self).wf(),
            final(self).pending_ids().no_duplicates(),
            match resolution(old(self).live_ids(), session.selected_studio_id) {
                Ok(target) => if old(self).pending_ids().contains(request_id) {
                    r is Err && r->Err_0 is DuplicateId && *final(self) == *old(self)
                } else {
                    &&& r == Ok::<u128, DispatchError>(target)
                    &&& final(self).pending_view() == old(self).pending_view().push(
                        (request_id, PendingRequest { sender: completion, connection_id: target }),
                    )
                    &&& final(self).connections_view() == old(self).connections_view()
                    &&& final(self).sessions_view() == old(self).sessions_view()
                },
                Err(_) => {
                    &&& r is Err && r->Err_0 is Resolve
                    &&& is_resolve_error(r->Err_0->Resolve_0, old(self).connections_view(), session.selected_studio_id)
                    &&& *final(self) == *old(self)
                },
            },
    {
        let target = match self.resolve_studio_id(session) {
            Ok(t) => t,
            Err(e) => return Err(DispatchError::Resolve(e)),
        };
        if let Some(i) = self.find_pending(request_id) {
            assert(self.pending_ids()[i as int] == request_id);
            return Err(DispatchError::DuplicateId);
        }
        let ghost pre = *self;
        self.output_map.push((request_id, PendingRequest { sender: completion, connection_id: target }));
        proof {
            assert(self.pending_ids() =~= pre.pending_ids().push(request_id));
            lemma_no_dup_push(pre.pending_ids(), request_id);
        }
        Ok(target)
    }

    /// As `begin_dispatch_with_id`, under a freshly minted correlation identity, which is
    /// returned with the chosen connection's.
    pub fn begin_dispatch(&mut self, session: &SessionState, completion: C) -> (r: Result<(u128, u128), DispatchError>)
        requires
            old(self).wf(),
        ensures
            final(self).wf(),
            final(self).pending_ids().no_duplicates(),
            match r {
                Ok((request_id, target)) => {
                    &&& resolution(old(self).live_ids(), session.selected_studio_id) == Ok::<u128, Option<ResolveKind>>(target)
                    &&& !old(self).pending_ids().contains(request_id)
                    &&& final(self).pending_view() == old(self).pending_view().push(
                        (request_id, PendingRequest { sender: completion, connection_id: target }),
                    )
                    &&& final(self).connections_view() == old(self).connections_view()
                    &&& final(self).sessions_view() == old(self).sessions_view()
                },
                Err(DispatchError::Resolve(e)) => is_resolve_error(e, old(self).connections_view(), session.selected_studio_id)
                    && *final(self) == *old(self),
                Err(DispatchError::DuplicateId) => *final(self) == *old(self),
            },
            resolution(old(self).live_ids(), session.selected_studio_id) is Err <==> r is Err && r->Err_0 is Resolve,
            r is Err && r->Err_0 is DuplicateId ==> old(self).pending_ids().len() > 0,
            old(self).pending_view().len() == 0 && resolution(old(self).live_ids(), session.selected_studio_id) is Ok
                ==> r is Ok,
    {
        let request_id = fresh_id();
        match self.begin_dispatch_with_id(session, request_id, completion) {
            Ok(target) => Ok((request_id, target)),
            Err(e) => Err(e),
        }
    }

    /// Position of pending request `request_id`, if it is pending.
    fn find_pending(&self, request_id: u128) -> (r: Option<usize>)
        ensures
            match r {
                Some(i) => i < self.pending_view().len() && self.pending_view()[i as int].0 == request_id,
                None => !self.pending_ids().contains(request_id),
            },
    {
        let mut i: usize = 0;
        while i < self.output_map.len()
            invariant
                i <= self.output_map@.len(),
                forall|j: int| 0 <= j < i ==> self.output_map@[j].0 != request_id,
            decreases self.output_map.len() - i,
        {
            if self.output_map[i].0 == request_id {
                return Some(i);
            }
            i = i + 1;
        }
        proof {
            if self.pending_ids().contains(request_id) {
                let j = choose|j: int| 0 <= j < self.pending_ids().len() && self.pending_ids()[j] == request_id;
                assert(self.output_map@[j].0 == request_id);
            }
        }
        None
    }

    /// Removes pending request `request_id` and hands it back; a request that is not
    /// pending (never was, or already removed) gives `None` and changes nothing.
    pub fn complete(&mut self, request_id: u128) -> (r: Option<PendingRequest<C>>)
        requires
            old(self).wf(),
        ensures
            final(self).wf(),
            match r {
                Some(p) => exists|i: int|
                    0 <= i < old(self).pending_view().len() && old(self).pending_view()[i].0 == request_id
                        && p == #[trigger] old(self).pending_view()[i].1
                        && final(self).pending_view() == old(self).pending_view().remove(i),
                None => !old(self).pending_ids().contains(request_id) && *final(self) == *old(self),
            },
            old(self).pending_ids().contains(request_id) <==> r is Some,
            !final(self).pending_ids().contains(request_id),
            final(self).connections_view() == old(self).connections_view(),
            final(self).sessions_view() == old(self).sessions_view(),
    {
        match self.find_pending(request_id) {
            None => None,
            Some(i) => {
                let ghost pre = *self;
                assert(pre.pending_ids()[i as int] == request_id);
                let e = self.output_map.remove(i);
                proof {
                    let ids = pre.pending_ids();
                    assert(self.pending_ids() =~= ids.remove(i as int));
                    assert forall|a: int, b: int|
                        0 <= a < ids.len() - 1 && 0 <= b < ids.len() - 1 && a != b implies ids.remove(i as int)[a]
                        != ids.remove(i as int)[b] by {
                        let a2 = if a < i { a } else { a + 1 };
                        let b2 = if b < i { b } else { b + 1 };
                        assert(ids[a2] != ids[b2]);
                    }
                    if self.pending_ids().contains(request_id) {
                        let j = choose|j: int| 0 <= j < self.pending_ids().len() && self.pending_ids()[j] == request_id;
                        let j2 = if j < i { j } else { j + 1 };
                        assert(ids[j2] == ids[i as int]);
                    }
                }
                Some(e.1)
            },
        }
    }

    /// Handles a response frame: the request it answers is removed and handed back with
    /// its outcome, the canonical text of the payload, `Ok` when the instance reports
    /// success. A response to a request that is not pending gives `None` and changes nothing.
    pub fn deliver_response(&mut self, response: RunCommandResponse) -> (r: Option<(C, Result<String, String>)>)
        requires
            old(self).wf(),
        ensures
            final(self).wf(),
            old(self).pending_ids().contains(response.id) <==> r is Some,
            match r {
                Some((c, outcome)) => {
                    &&& exists|i: int|
                        0 <= i < old(self).pending_view().len() && old(self).pending_view()[i].0 == response.id
                            && c == #[trigger] old(self).pending_view()[i].1.sender
                            && final(self).pending_view() == old(self).pending_view().remove(i)
                    &&& canonical_outcome(outcome, response)
                },
                None => *final(self) == *old(self),
            },
            final(self).connections_view() == old(self).connections_view(),
            final(self).sessions_view() == old(self).sessions_view(),
    {
        match self.complete(response.id) {
            None => None,
            Some(pending) => {
                let text = value_to_mcp_string(response.response);
                if response.success {
                    Some((pending.sender, Ok(text)))
                } else {
                    Some((pending.sender, Err(text)))
                }
            },
        }
    }

    /// Tears connection `studio_id` down: it leaves the registry, every pending request
    /// it owns is removed, and their completion handles are handed back, in order, to be
    /// failed. Requests other connections own stay as they were.
    pub fn disconnect(&mut self, studio_id: u128) -> (r: Vec<C>)
        requires
            old(self).wf(),
        ensures
            final(self).wf(),
            !final(self).live_ids().contains(studio_id),
            old(self).live_ids().contains(studio_id) ==> exists|i: int|
                0 <= i < old(self).connections_view().len() && old(self).connections_view()[i].0 == studio_id
                    && #[trigger] final(self).connections_view() == old(self).connections_view().remove(i),
            !old(self).live_ids().contains(studio_id) ==> final(self).connections_view() == old(self).connections_view(),
            final(self).pending_view() == kept(old(self).pending_view(), studio_id),
            r@ == orphans(old(self).pending_view(), studio_id),
            final(self).sessions_view() == old(self).sessions_view(),
    {
        let ghost pre = *self;
        if let Some(i) = self.find_connection(studio_id) {
            self.connections.remove(i);
            proof {
                let ids = pre.live_ids();
                assert(self.live_ids() =~= ids.remove(i as int));
                assert forall|a: int, b: int|
                    0 <= a < ids.len() - 1 && 0 <= b < ids.len() - 1 && a != b implies ids.remove(i as int)[a]
                    != ids.remove(i as int)[b] by {
                    let a2 = if a < i { a } else { a + 1 };
                    let b2 = if b < i { b } else { b + 1 };
                    assert(ids[a2] != ids[b2]);
                }
                assert(ids[i as int] == studio_id);
                if self.live_ids().contains(studio_id) {
                    let j = choose|j: int| 0 <= j < self.live_ids().len() && self.live_ids()[j] == studio_id;
                    let j2 = if j < i { j } else { j + 1 };
                    assert(ids[j2] == ids[i as int]);
                }
            }
        }
        let ghost ps = pre.pending_view();
        let ghost mid = self.connections@;
        let ghost mut k: int = 0;
        let mut failed: Vec<C> = Vec::new();
        let mut i: usize = 0;
        while i < self.output_map.len()
            invariant
                self.connections@ == mid,
                self.sessions@ == pre.sessions_view(),
                0 <= k <= ps.len(),
                self.output_map@ == kept(ps.take(k), studio_id) + ps.skip(k),
                i == kept(ps.take(k), studio_id).len(),
                failed@ == orphans(ps.take(k), studio_id),
            decreases self.output_map.len() - i,
        {
            proof {
                assert(ps.take(k + 1).drop_last() =~= ps.take(k));
                assert(self.output_map@[i as int] == ps[k]);
            }
            if self.output_map[i].1.connection_id == studio_id {
                let e = self.output_map.remove(i);
                failed.push(e.1.sender);
                proof {
                    assert(self.output_map@ =~= kept(ps.take(k + 1), studio_id) + ps.skip(k + 1));
                }
            } else {
                proof {
                    assert(self.output_map@ =~= kept(ps.take(k + 1), studio_id) + ps.skip(k + 1));
                }
                i = i + 1;
            }
            proof {
                k = k + 1;
            }
        }
        proof {
            assert(ps.take(k) =~= ps);
            assert(self.output_map@ =~= kept(ps, studio_id));
            lemma_kept(ps, studio_id);
        }
        failed
    }

    /// How many requests are pending.
    pub fn pending_count(&self) -> (r: usize)
        ensures
            r == self.pending_view().len(),
    {
        self.output_map.len()
    }

    /// Whether request `request_id` is pending.
    pub fn is_pending(&self, request_id: u128) -> (r: bool)
        ensures
            r == self.pending_ids().contains(request_id),
    {
        match self.find_pending(request_id) {
            Some(i) => {
                assert(self.pending_ids()[i as int] == request_id);
                true
            },
            None => false,
        }
    }

    /// How many connections are live.
    pub fn studio_count(&self) -> (r: usize)
        ensures
            r == self.connections_view().len(),
    {
        self.connections.len()
    }
}

} // verus!

verus! {

/// Why a command could not be dispatched.
pub enum DispatchError {
    /// The session could not be routed to a connection.
    Resolve(ResolveError),
    /// The correlation identity is already pending.
    DuplicateId,
}

/// What a session is bound to.
pub enum StudioSelection {
    NoneSelected,
    Selected(StudioInfo),
    /// The bound connection is gone.
    Disconnected(u128),
}

/// Why a binding was refused.
pub enum SelectError {
    /// The text is not a connection identity.
    InvalidId(String),
    /// No live connection has this identity; the live ones are listed.
    UnknownStudio(u128, Vec<Candidate>),
}

impl<S> StudioConnection<S> {
    /// The listing entry of this connection under identity `studio_id`.
    pub fn to_info(&self, studio_id: u128) -> (r: StudioInfo)
        ensures
            describes(r, studio_id, *self),
    {
        StudioInfo {
            studio_id: id_text(studio_id),
            place_id: self.place_id,
            place_name: self.place_name.clone(),
            game_id: self.game_id,
            job_id: self.job_id.clone(),
            place_version: self.place_version,
            creator_id: self.creator_id,
            creator_type: self.creator_type.clone(),
            connected_at: self.connected_at.clone(),
        }
    }
}

/// The state of session `mcp_session_id`, which is created unbound when it was never seen.
pub fn get_or_create_session<S, C>(state: &mut AppState<S, C>, mcp_session_id: &str) -> (r: SessionState)
    requires
        old(state).wf(),
    ensures
        final(state).wf(),
        r.selected_studio_id == old(state).selection_of(mcp_session_id@),
        final(state).session_keys().contains(mcp_session_id@),
        forall|k: Seq<char>| #[trigger] final(state).selection_of(k) == old(state).selection_of(k),
        final(state).connections_view() == old(state).connections_view(),
        final(state).pending_view() == old(state).pending_view(),
        old(state).session_keys().contains(mcp_session_id@) ==> *final(state) == *old(state),
        !old(state).session_keys().contains(mcp_session_id@) ==> {
            &&& r.selected_studio_id is None
            &&& final(state).session_keys() == old(state).session_keys().push(mcp_session_id@)
            &&& final(state).sessions_view().drop_last() == old(state).sessions_view()
            &&& final(state).sessions_view().last().0@ == mcp_session_id@
            &&& final(state).sessions_view().last().1 == SessionState { selected_studio_id: None }
        },
{
    let key = String::from_str(mcp_session_id);
    match state.find_session(&key) {
        Some(i) => {
            assert(state.session_keys()[i as int] == mcp_session_id@);
            SessionState { selected_studio_id: state.sessions[i].1.selected_studio_id }
        },
        None => {
            state.set_selection(&key, None);
            assert(state.session_keys()[state.session_keys().len() - 1] == mcp_session_id@);
            SessionState { selected_studio_id: None }
        },
    }
}

/// Binds session `session_id` to the connection named by the text `studio_id`, or
/// clears its binding when there is none. A text that is not an identity is refused.
pub fn set_studio<S, C>(state: &mut AppState<S, C>, session_id: &str, studio_id: Option<&str>) -> (r: Result<Option<StudioInfo>, SelectError>)
    requires
        old(state).wf(),
    ensures
        final(state).wf(),
        final(state).connections_view() == old(state).connections_view(),
        final(state).pending_view() == old(state).pending_view(),
        r is Ok ==> forall|k: Seq<char>| k != session_id@ ==> final(state).selection_of(k) == old(state).selection_of(k),
        match studio_id {
            None => r is Ok && r->Ok_0 is None && final(state).selection_of(session_id@) == None::<u128>,
            Some(t) => match crate::ids::parsed_id(t@) {
                None => r is Err && r->Err_0 is InvalidId && r->Err_0->InvalidId_0@ == t@ && *final(state) == *old(state),
                Some(id) => if old(state).live_ids().contains(id) {
                    &&& r is Ok && r->Ok_0 is Some
                    &&& final(state).selection_of(session_id@) == Some(id)
                    &&& exists|i: int|
                        0 <= i < old(state).connections_view().len() && old(state).connections_view()[i].0 == id
                            && describes(r->Ok_0->0, id, #[trigger] old(state).connections_view()[i].1)
                } else {
                    &&& r is Err && r->Err_0 is UnknownStudio
                    &&& r->Err_0->UnknownStudio_0 == id
                    &&& lists_connections(r->Err_0->UnknownStudio_1@, old(state).connections_view())
                    &&& *final(state) == *old(state)
                },
            },
        },
{
    match studio_id {
        None => state.bind(session_id, None),
        Some(t) => match crate::ids::parse_id(t) {
            None => Err(SelectError::InvalidId(String::from_str(t))),
            Some(id) => state.bind(session_id, Some(id)),
        },
    }
}

} // verus!
