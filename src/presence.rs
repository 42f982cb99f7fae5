use vstd::prelude::*;
use crate::notification::{Notification, NotificationModel, NotificationReason, ReasonModel};
use crate::status::{name_or_id, opt_chars, shown_name, Status, StatusModel};
use crate::registry::State;
use crate::table::Table;

verus! {

/// Configuration of one push-pinging entity.
pub struct Config {
    /// The name to show; the entity's id when absent.
    pub name: Option<String>,
    /// How long after a ping the entity counts as offline unless it pings
    /// again, in milliseconds; no deadline when absent.
    pub timeout_ms: Option<u64>,
}

/// What is known of one entity that has pinged at least once.
#[derive(Clone, Copy, PartialEq, Eq, Structural, Debug)]
pub struct PresenceState {
    /// When the entity last pinged (milliseconds since the Unix epoch).
    pub last_seen: i64,
    /// Whether its deadline has passed since that ping.
    pub marked_offline: bool,
}

/// A deferred check: once `delay_ms` have passed, ask whether `item_id` is
/// still at the ping of `seen_at`. `item_name` is the name the entity had at
/// that ping, which its `WentOffline` notification carries.
pub struct OfflineCheck {
    pub item_id: String,
    pub item_name: String,
    pub seen_at: i64,
    pub delay_ms: u64,
}

/// What a ping asks of the caller: notifications to send, in order, and
/// possibly a deferred offline check to run.
pub struct PingOutcome {
    pub notifications: Vec<Notification>,
    pub check: Option<OfflineCheck>,
}

/// The state right after a ping at `now`.
pub open spec fn pinged(now: i64) -> PresenceState {
    PresenceState { last_seen: now, marked_offline: false }
}

/// The reasons a ping raises, given what was known of the entity before it.
pub open spec fn ping_reasons(before: Option<PresenceState>) -> Seq<ReasonModel> {
    match before {
        None => seq![ReasonModel::WentOnline],
        Some(s) => if s.marked_offline {
            seq![ReasonModel::WentOnline, ReasonModel::Seen]
        } else {
            seq![ReasonModel::Seen]
        },
    }
}

/// Whether a deferred check captured at `seen_at` declares the entity
/// offline: only if no later ping replaced that one and it is not offline yet.
pub open spec fn check_fires(state: Option<PresenceState>, seen_at: i64) -> bool {
    match state {
        Some(s) => s.last_seen == seen_at && !s.marked_offline,
        None => false,
    }
}

/// The state after a deferred check captured at `seen_at`.
pub open spec fn after_check(state: Option<PresenceState>, seen_at: i64) -> Option<PresenceState> {
    if check_fires(state, seen_at) {
        Some(PresenceState { last_seen: state.unwrap().last_seen, marked_offline: true })
    } else {
        state
    }
}

/// Notifications about `id`, shown as `name`, for each of `reasons` in turn.
pub open spec fn notes_for(name: Seq<char>, id: Seq<char>, reasons: Seq<ReasonModel>) -> Seq<NotificationModel> {
    reasons.map_values(|r: ReasonModel| NotificationModel { item_name: name, item_id: id, reason: r })
}

/// The views of a list of notifications.
pub open spec fn note_models(l: Seq<Notification>) -> Seq<NotificationModel> {
    l.map_values(|n: Notification| n@)
}

/// Presence of push-pinging entities: each ping marks its entity online, and a
/// deferred check per ping marks it offline if no later ping came.
pub struct DataminerStatusProvider {
    config: Table<Config>,
    states: Table<PresenceState>,
}

impl DataminerStatusProvider {
    /// The configured entities.
    pub closed spec fn config(&self) -> Map<Seq<char>, Config> {
        self.config@
    }

    /// The entities that have pinged, with what is known of each.
    pub closed spec fn presence(&self) -> Map<Seq<char>, PresenceState> {
        self.states@
    }

    /// Well-formedness of the tracker's tables.
    pub closed spec fn wf(&self) -> bool {
        self.config.wf() && self.states.wf()
    }

    /// The name under which `id` is shown.
    pub open spec fn name_of(&self, id: Seq<char>) -> Seq<char> {
        if self.config().contains_key(id) {
            shown_name(opt_chars(self.config()[id].name), id)
        } else {
            id
        }
    }

    /// The status that is reported for `id`, if it is reported at all.
    pub open spec fn status_of(&self, id: Seq<char>) -> Option<StatusModel> {
        if self.presence().contains_key(id) {
            Some(
                StatusModel {
                    name: self.name_of(id),
                    is_online: !self.presence()[id].marked_offline,
                    last_seen: Some(self.presence()[id].last_seen),
                },
            )
        } else if self.config().contains_key(id) {
            Some(StatusModel { name: self.name_of(id), is_online: false, last_seen: None })
        } else {
            None
        }
    }

    /// Whether `id`'s deadline has passed at `now`: it has a timeout, and at
    /// least that long has gone by since its last ping.
    pub open spec fn overdue(&self, id: Seq<char>, now: i64) -> bool {
        &&& self.presence().contains_key(id)
        &&& self.config().contains_key(id)
        &&& self.config()[id].timeout_ms matches Some(t) && now - self.presence()[id].last_seen >= t
    }

    /// The status reported for `id` at time `now`: as `status_of`, but offline
    /// once its deadline has passed, whether or not its check has run yet.
    pub open spec fn status_at(&self, id: Seq<char>, now: i64) -> Option<StatusModel> {
        match self.status_of(id) {
            Some(s) => Some(
                StatusModel { name: s.name, is_online: s.is_online && !self.overdue(id, now), last_seen: s.last_seen },
            ),
            None => None,
        }
    }

    /// The status reported for `id`, at `now` when it is given.
    pub open spec fn status_when(&self, id: Seq<char>, now: Option<i64>) -> Option<StatusModel> {
        match now {
            Some(n) => self.status_at(id, n),
            None => self.status_of(id),
        }
    }

    pub fn new(config: Table<Config>) -> (r: DataminerStatusProvider)
        requires
            config.wf(),
        ensures
            r.wf(),
            r.config() == config@,
            r.presence() == Map::<Seq<char>, PresenceState>::empty(),
    {
        DataminerStatusProvider { config, states: Table::new() }
    }

    /// Replaces the configuration; what is known of each entity stays.
    pub fn update_config(&mut self, config: Table<Config>)
        requires
            old(self).wf(),
            config.wf(),
        ensures
            final(self).wf(),
            final(self).config() == config@,
            final(self).presence() == old(self).presence(),
    {
        self.config = config;
    }

    fn name_for(&self, id: &String) -> (r: String)
        requires
            self.wf(),
        ensures
            r@ == self.name_of(id@),
    {
        match self.config.get(id) {
            Some(c) => name_or_id(&c.name, id),
            None => id.clone(),
        }
    }

    /// Records a ping of `id` at `now`.
    pub fn ping(&mut self, id: &String, now: i64) -> (r: PingOutcome)
        requires
            old(self).wf(),
        ensures
            final(self).wf(),
            final(self).config() == old(self).config(),
            final(self).presence() == old(self).presence().insert(id@, pinged(now)),
            final(self).status_of(id@) == Some(
                StatusModel { name: old(self).name_of(id@), is_online: true, last_seen: Some(now) },
            ),
            note_models(r.notifications@) == notes_for(
                old(self).name_of(id@),
                id@,
                ping_reasons(old(self).presence().get(id@)),
            ),
            match r.check {
                Some(c) => old(self).config().contains_key(id@) && old(self).config()[id@].timeout_ms
                    == Some(c.delay_ms) && c.item_id@ == id@ && c.item_name@ == old(self).name_of(id@)
                    && c.seen_at == now,
                None => !old(self).config().contains_key(id@) || old(self).config()[id@].timeout_ms is None,
            },
    {
        let name = self.name_for(id);
        let name_at_ping = name.clone();
        let mut notifications: Vec<Notification> = Vec::new();
        let ghost before = self.presence().get(id@);
        match self.states.get(id) {
            None => {
                notifications.push(Notification::new(name, id.clone(), NotificationReason::WentOnline));
            },
            Some(s) => {
                if s.marked_offline {
                    notifications.push(Notification::new(name.clone(), id.clone(), NotificationReason::WentOnline));
                }
                notifications.push(Notification::new(name, id.clone(), NotificationReason::Seen));
            },
        }
        proof {
            assert(note_models(notifications@) =~= notes_for(self.name_of(id@), id@, ping_reasons(before)));
        }
        self.states.insert(id.clone(), pinged_state(now));
        let check = match self.config.get(id) {
            Some(c) => match c.timeout_ms {
                Some(t) => Some(OfflineCheck { item_id: id.clone(), item_name: name_at_ping, seen_at: now, delay_ms: t }),
                None => None,
            },
            None => None,
        };
        PingOutcome { notifications, check }
    }

    /// Runs a deferred check: if no ping came after the one it was captured
    /// at, and the entity is not offline yet, marks it offline and returns the
    /// `WentOffline` notification to send, under the name the entity had at
    /// that ping.
    pub fn check_offline(&mut self, check: &OfflineCheck) -> (r: Option<Notification>)
        requires
            old(self).wf(),
        ensures
            final(self).wf(),
            final(self).config() == old(self).config(),
            check_fires(old(self).presence().get(check.item_id@), check.seen_at) ==> final(self).presence()
                == old(self).presence().insert(
                check.item_id@,
                PresenceState { last_seen: check.seen_at, marked_offline: true },
            ),
            !check_fires(old(self).presence().get(check.item_id@), check.seen_at) ==> final(self).presence()
                == old(self).presence(),
            r matches Some(n) ==> check_fires(old(self).presence().get(check.item_id@), check.seen_at)
                && n@ == (NotificationModel {
                item_name: check.item_name@,
                item_id: check.item_id@,
                reason: ReasonModel::WentOffline,
            }),
            r is None ==> !check_fires(old(self).presence().get(check.item_id@), check.seen_at),
    {
        let fires = match self.states.get(&check.item_id) {
            Some(s) => s.last_seen == check.seen_at && !s.marked_offline,
            None => false,
        };
        if fires {
            self.states.insert(
                check.item_id.clone(),
                PresenceState { last_seen: check.seen_at, marked_offline: true },
            );
            Some(Notification::new(check.item_name.clone(), check.item_id.clone(), NotificationReason::WentOffline))
        } else {
            None
        }
    }

    /// The status of every entity that has pinged or is configured, from the
    /// offline marks alone.
    pub fn current_stati(&self) -> (r: Table<Status>)
        requires
            self.wf(),
        ensures
            r.wf(),
            r@.dom() == self.presence().dom().union(self.config().dom()),
            forall|id: Seq<char>| #[trigger] r@.contains_key(id) ==> Some(r@[id]@) == self.status_of(id),
    {
        self.collect_stati(None)
    }

    /// The status of every entity that has pinged or is configured, at time
    /// `now`: an entity is never online once its timeout has passed since its
    /// last ping.
    pub fn stati_at(&self, now: i64) -> (r: Table<Status>)
        requires
            self.wf(),
        ensures
            r.wf(),
            r@.dom() == self.presence().dom().union(self.config().dom()),
            forall|id: Seq<char>| #[trigger] r@.contains_key(id) ==> Some(r@[id]@) == self.status_at(id, now),
            forall|id: Seq<char>|
                #[trigger] r@.contains_key(id) && r@[id]@.is_online ==> (r@[id]@.last_seen matches Some(ls) && (
                self.config().contains_key(id) ==> (self.config()[id].timeout_ms matches Some(t) ==> now - ls < t))),
    {
        self.collect_stati(Some(now))
    }

    /// Whether an entity last seen at `last_seen` is past its deadline at `now`.
    fn is_overdue(&self, id: &String, last_seen: i64, now: Option<i64>) -> (r: bool)
        requires
            self.wf(),
            self.presence().contains_key(id@),
            self.presence()[id@].last_seen == last_seen,
        ensures
            r == (now matches Some(n) && self.overdue(id@, n)),
    {
        match now {
            None => false,
            Some(n) => match self.config.get(id) {
                Some(c) => match c.timeout_ms {
                    Some(t) => (n as i128) - (last_seen as i128) >= t as i128,
                    None => false,
                },
                None => false,
            },
        }
    }

    fn collect_stati(&self, now: Option<i64>) -> (r: Table<Status>)
        requires
            self.wf(),
        ensures
            r.wf(),
            r@.dom() == self.presence().dom().union(self.config().dom()),
            forall|id: Seq<char>| #[trigger] r@.contains_key(id) ==> Some(r@[id]@) == self.status_when(id, now),
    {
        proof {
            self.states.lemma_keys();
            self.config.lemma_keys();
        }
        let ghost sk = self.states.keys();
        let ghost ck = self.config.keys();
        let mut r: Table<Status> = Table::new();
        let mut i: usize = 0;
        while i < self.states.len()
            invariant
                self.states.wf(),
                self.config.wf(),
                r.wf(),
                sk == self.states.keys(),
                0 <= i <= sk.len(),
                forall|id: Seq<char>| #[trigger] r@.contains_key(id) <==> exists|m: int| 0 <= m < i && sk[m] == id,
                forall|id: Seq<char>| #[trigger] r@.contains_key(id) ==> Some(r@[id]@) == self.status_when(id, now),
            decreases sk.len() - i,
        {
            let (id, s) = self.states.entry(i);
            proof {
                self.states.lemma_position(i as int);
            }
            let late = self.is_overdue(id, s.last_seen, now);
            let st = Status { name: self.name_for(id), is_online: !s.marked_offline && !late, last_seen: Some(s.last_seen) };
            let ghost k = id@;
            r.insert(id.clone(), st);
            proof {
                assert forall|id2: Seq<char>| #[trigger] r@.contains_key(id2) <==> exists|m: int| 0 <= m < i + 1 && sk[m] == id2 by {
                    if id2 == k {
                        assert(sk[i as int] == id2);
                    }
                }
            }
            i = i + 1;
        }
        let mut j: usize = 0;
        while j < self.config.len()
            invariant
                self.states.wf(),
                self.config.wf(),
                r.wf(),
                sk == self.states.keys(),
                ck == self.config.keys(),
                0 <= j <= ck.len(),
                self.states@.dom() == sk.to_set(),
                self.config@.dom() == ck.to_set(),
                forall|id: Seq<char>| #[trigger] r@.contains_key(id) <==> (sk.contains(id)
                    || exists|m: int| 0 <= m < j && ck[m] == id),
                forall|id: Seq<char>| #[trigger] r@.contains_key(id) ==> Some(r@[id]@) == self.status_when(id, now),
            decreases ck.len() - j,
        {
            let (id, _c) = self.config.entry(j);
            let ghost k = id@;
            if !r.contains_key(id) {
                proof {
                    assert(!sk.contains(k));
                    assert(!self.states@.contains_key(k));
                }
                let st = Status { name: self.name_for(id), is_online: false, last_seen: None };
                r.insert(id.clone(), st);
            }
            proof {
                assert forall|id2: Seq<char>| #[trigger] r@.contains_key(id2) <==> (sk.contains(id2)
                    || exists|m: int| 0 <= m < j + 1 && ck[m] == id2) by {
                    if id2 == k {
                        assert(ck[j as int] == id2);
                    }
                }
            }
            j = j + 1;
        }
        proof {
            assert forall|id: Seq<char>| #[trigger] r@.contains_key(id) <==> (self.presence().contains_key(id) || self.config().contains_key(id)) by {
                if self.config().contains_key(id) {
                    assert(ck.to_set().contains(id));
                    let m = choose|m: int| 0 <= m < ck.len() && ck[m] == id;
                }
                if self.presence().contains_key(id) {
                    assert(sk.to_set().contains(id));
                }
            }
            assert(r@.dom() =~= self.presence().dom().union(self.config().dom()));
        }
        r
    }
}

/// After a ping, the status report shows the entity online: every table that
/// `current_stati` can return for the tracker the ping left behind holds the
/// entity, online, last seen at the ping.
pub proof fn lemma_ping_then_reported_online(
    before: DataminerStatusProvider,
    after: DataminerStatusProvider,
    id: Seq<char>,
    now: i64,
    report: Table<Status>,
)
    requires
        after.wf(),
        after.config() == before.config(),
        after.presence() == before.presence().insert(id, pinged(now)),
        call_ensures(DataminerStatusProvider::current_stati, (&after,), report),
    ensures
        report@.contains_key(id),
        report@[id]@.is_online,
        report@[id]@.last_seen == Some(now),
{
    assert(report@.dom().contains(id));
}

/// The same through the registry: when the push-ping provider `pid` has just
/// handled a ping of `id`, the merged report that `State::all_stati` gives
/// with `current_stati` as its query holds `id` under `pid`, online.
pub proof fn lemma_registry_reports_pinged_online<V, N>(
    state: State<V, DataminerStatusProvider, N>,
    pid: Seq<char>,
    before: DataminerStatusProvider,
    id: Seq<char>,
    now: i64,
    report: Table<Table<Status>>,
)
    requires
        state.status().contains_key(pid),
        state.status()[pid].wf(),
        state.status()[pid].config() == before.config(),
        state.status()[pid].presence() == before.presence().insert(id, pinged(now)),
        report@.dom() == state.status().dom(),
        forall|p: Seq<char>|
            #[trigger] report@.contains_key(p) ==> call_ensures(
                DataminerStatusProvider::current_stati,
                (&state.status()[p],),
                report@[p],
            ),
    ensures
        report@.contains_key(pid),
        report@[pid]@.contains_key(id),
        report@[pid]@[id]@.is_online,
{
    assert(report@.contains_key(pid));
    lemma_ping_then_reported_online(before, state.status()[pid], id, now, report@[pid]);
}

/// A ping that no later ping follows takes its entity offline exactly once:
/// the check captured at that ping fires, and after it no check fires again
/// before the next ping.
pub proof fn lemma_unanswered_ping_goes_offline_once(now: i64, other_seen_at: i64)
    ensures
        check_fires(Some(pinged(now)), now),
        after_check(Some(pinged(now)), now) == Some(PresenceState { last_seen: now, marked_offline: true }),
        !check_fires(after_check(Some(pinged(now)), now), other_seen_at),
{
}

/// A ping after the one at `seen_at` cancels the check captured at `seen_at`:
/// that check no longer fires.
pub proof fn lemma_later_ping_cancels_check(seen_at: i64, later: i64)
    requires
        seen_at < later,
    ensures
        !check_fires(Some(pinged(later)), seen_at),
        after_check(Some(pinged(later)), seen_at) == Some(pinged(later)),
{
}

/// Between two pings at most one check fires: two `WentOffline` notifications
/// always have a ping, and so a `WentOnline`, between them.
pub proof fn lemma_no_second_offline_without_ping(state: Option<PresenceState>, first: i64, second: i64)
    ensures
        !(check_fires(state, first) && check_fires(after_check(state, first), second)),
{
}

/// A ping of an entity marked offline raises `WentOnline` before `Seen`.
pub proof fn lemma_ping_after_offline_goes_online(state: PresenceState)
    requires
        state.marked_offline,
    ensures
        ping_reasons(Some(state)) == seq![ReasonModel::WentOnline, ReasonModel::Seen],
{
}

/// The state right after a ping at `now`.
fn pinged_state(now: i64) -> (r: PresenceState)
    ensures
        r == pinged(now),
{
    PresenceState { last_seen: now, marked_offline: false }
}

} // verus!
