use vstd::prelude::*;
use crate::notification::{Notification, NotificationReason, ReasonModel};
use crate::presence::{note_models, notes_for};
use crate::status::{name_or_id, opt_chars, shown_name, Status, StatusModel};
use crate::table::Table;

verus! {

/// The probe interval used when none is configured: one hour.
pub const DEFAULT_INTERVAL_MS: u64 = 3600000;

/// The probe interval used when none is configured.
pub fn hourly() -> (r: u64)
    ensures
        r == DEFAULT_INTERVAL_MS,
{
    DEFAULT_INTERVAL_MS
}

/// The port a Java-edition game server listens on when none is configured.
pub fn java_default_port() -> (r: u16)
    ensures
        r == 25565,
{
    25565
}

/// The item id of a Java-edition game server: `java.` and its id.
pub fn java_item_id(id: &String) -> (r: String)
    ensures
        r@ == "java."@ + id@,
{
    let mut r = "java.".to_string();
    r.append(id.as_str());
    r
}

/// The name of a game server: its configured name unless that is empty, else
/// its id.
pub fn java_name(name: &String, id: &String) -> (r: String)
    ensures
        r@ == if name@.len() == 0 {
            id@
        } else {
            name@
        },
{
    if name.as_str().is_empty() {
        id.clone()
    } else {
        name.clone()
    }
}

/// Configuration of one polled server.
pub struct Config {
    /// The name to show; the server's id when absent.
    pub name: Option<String>,
    pub url: String,
    /// Time between the end of one probe and the start of the next.
    pub interval_ms: u64,
    /// Response codes that count as healthy whatever else holds.
    pub accepted_stati: Vec<u16>,
    /// Response codes that count as unhealthy unless accepted.
    pub rejected_stati: Vec<u16>,
}

/// The mathematical value of a [`Config`]; the code lists are sets.
pub struct ConfigModel {
    pub name: Option<Seq<char>>,
    pub url: Seq<char>,
    pub interval_ms: u64,
    pub accepted_stati: Set<u16>,
    pub rejected_stati: Set<u16>,
}

impl View for Config {
    type V = ConfigModel;

    open spec fn view(&self) -> ConfigModel {
        ConfigModel {
            name: opt_chars(self.name),
            url: self.url@,
            interval_ms: self.interval_ms,
            accepted_stati: self.accepted_stati@.to_set(),
            rejected_stati: self.rejected_stati@.to_set(),
        }
    }
}

impl Default for Config {
    /// A placeholder server, probed hourly and judged by the response code.
    fn default() -> (r: Config)
        ensures
            r@ == (ConfigModel {
                name: None,
                url: "https://example.com"@,
                interval_ms: DEFAULT_INTERVAL_MS,
                accepted_stati: Set::empty(),
                rejected_stati: Set::empty(),
            }),
    {
        Config::new(None, "https://example.com".to_string())
    }
}

/// Whether a response code is an HTTP client or server error.
pub open spec fn is_error_code(code: u16) -> bool {
    400 <= code <= 599
}

/// Whether a probe counts as healthy: a response arrived (`code` is its
/// status) and its code is accepted, or neither rejected nor an error code.
pub open spec fn is_healthy(c: ConfigModel, code: Option<u16>) -> bool {
    match code {
        None => false,
        Some(k) => c.accepted_stati.contains(k) || (!c.rejected_stati.contains(k) && !is_error_code(k)),
    }
}

fn contains_code(list: &Vec<u16>, code: u16) -> (r: bool)
    ensures
        r == list@.contains(code),
{
    let mut i: usize = 0;
    while i < list.len()
        invariant
            0 <= i <= list.len(),
            forall|j: int| 0 <= j < i ==> list@[j] != code,
        decreases list.len() - i,
    {
        if list[i] == code {
            return true;
        }
        i = i + 1;
    }
    false
}

/// Whether every code of `a` is in `b`.
fn codes_within(a: &Vec<u16>, b: &Vec<u16>) -> (r: bool)
    ensures
        r == a@.to_set().subset_of(b@.to_set()),
{
    let mut i: usize = 0;
    while i < a.len()
        invariant
            0 <= i <= a.len(),
            forall|j: int| 0 <= j < i ==> b@.contains(#[trigger] a@[j]),
        decreases a.len() - i,
    {
        if !contains_code(b, a[i]) {
            proof {
                assert(a@.to_set().contains(a@[i as int]));
            }
            return false;
        }
        i = i + 1;
    }
    proof {
        assert forall|k: u16| #[trigger] a@.to_set().contains(k) implies b@.to_set().contains(k) by {
            let j = choose|j: int| 0 <= j < a.len() && a@[j] == k;
        }
    }
    true
}

fn same_codes(a: &Vec<u16>, b: &Vec<u16>) -> (r: bool)
    ensures
        r == (a@.to_set() == b@.to_set()),
{
    let r = codes_within(a, b) && codes_within(b, a);
    proof {
        if r {
            assert(a@.to_set() =~= b@.to_set());
        }
    }
    r
}

fn same_name(a: &Option<String>, b: &Option<String>) -> (r: bool)
    ensures
        r == (opt_chars(*a) == opt_chars(*b)),
{
    match a {
        Some(x) => match b {
            Some(y) => *x == *y,
            None => false,
        },
        None => b.is_none(),
    }
}

impl Config {
    /// A configuration that probes `url` hourly and judges by the response
    /// code alone.
    pub fn new(name: Option<String>, url: String) -> (r: Config)
        ensures
            r@ == (ConfigModel {
                name: opt_chars(name),
                url: url@,
                interval_ms: DEFAULT_INTERVAL_MS,
                accepted_stati: Set::empty(),
                rejected_stati: Set::empty(),
            }),
    {
        let r = Config {
            name,
            url,
            interval_ms: DEFAULT_INTERVAL_MS,
            accepted_stati: Vec::new(),
            rejected_stati: Vec::new(),
        };
        assert(r.accepted_stati@.to_set() =~= Set::empty());
        assert(r.rejected_stati@.to_set() =~= Set::empty());
        r
    }

    /// Whether two configurations are the same.
    pub fn same_as(&self, o: &Config) -> (r: bool)
        ensures
            r == (self@ == o@),
    {
        same_name(&self.name, &o.name) && self.url == o.url && self.interval_ms == o.interval_ms
            && same_codes(&self.accepted_stati, &o.accepted_stati) && same_codes(
            &self.rejected_stati,
            &o.rejected_stati,
        )
    }

    /// Classifies a probe: `code` is the response status, absent when the
    /// request failed.
    pub fn classify(&self, code: Option<u16>) -> (r: bool)
        ensures
            r == is_healthy(self@, code),
    {
        match code {
            None => false,
            Some(k) => {
                if contains_code(&self.accepted_stati, k) {
                    true
                } else if contains_code(&self.rejected_stati, k) {
                    false
                } else {
                    !(400 <= k && k <= 599)
                }
            },
        }
    }
}

/// What is known of one polled server.
#[derive(Clone, Copy, PartialEq, Eq, Structural, Debug)]
pub struct PollState {
    pub is_online: bool,
    pub last_seen: Option<i64>,
}

/// The state of a server that has not been probed yet.
pub open spec fn unprobed() -> PollState {
    PollState { is_online: false, last_seen: None }
}

/// The reasons one probe raises, given whether the server counted as online.
pub open spec fn probe_reasons(was_online: bool, healthy: bool) -> Seq<ReasonModel> {
    if healthy {
        if was_online {
            seq![ReasonModel::Seen]
        } else {
            seq![ReasonModel::WentOnline, ReasonModel::Seen]
        }
    } else if was_online {
        seq![ReasonModel::WentOffline]
    } else {
        seq![]
    }
}

/// The state after one probe at `now`.
pub open spec fn after_probe(s: PollState, healthy: bool, now: i64) -> PollState {
    if healthy {
        PollState { is_online: true, last_seen: Some(now) }
    } else {
        PollState { is_online: false, last_seen: s.last_seen }
    }
}

/// A task that the caller must start, restart or stop.
#[derive(PartialEq, Eq, Debug)]
pub enum TaskAction {
    /// Start probing this server.
    Start(String),
    /// Its configuration changed: stop the running probe task and start anew.
    Restart(String),
    /// It was removed: stop its probe task.
    Stop(String),
}

/// The mathematical value of a [`TaskAction`].
pub enum TaskActionModel {
    Start(Seq<char>),
    Restart(Seq<char>),
    Stop(Seq<char>),
}

impl View for TaskAction {
    type V = TaskActionModel;

    open spec fn view(&self) -> TaskActionModel {
        match self {
            TaskAction::Start(s) => TaskActionModel::Start(s@),
            TaskAction::Restart(s) => TaskActionModel::Restart(s@),
            TaskAction::Stop(s) => TaskActionModel::Stop(s@),
        }
    }
}

/// The views of a list of task actions.
pub open spec fn action_models(l: Seq<TaskAction>) -> Seq<TaskActionModel> {
    l.map_values(|a: TaskAction| a@)
}

proof fn lemma_push_no_duplicates<A>(s: Seq<A>, x: A)
    requires
        s.no_duplicates(),
        !s.contains(x),
    ensures
        s.push(x).no_duplicates(),
{
    assert forall|a: int, b: int| 0 <= a < b < s.push(x).len() implies s.push(x)[a] != s.push(x)[b] by {
        if b == s.len() {
            assert(s.contains(s[a]));
        }
    }
}

/// Polled servers: each probe result moves its server between healthy and
/// unhealthy, with the notifications that the move raises.
pub struct ServerStatusProvider {
    config: Table<Config>,
    states: Table<PollState>,
}

impl ServerStatusProvider {
    /// The configured servers.
    pub closed spec fn config(&self) -> Map<Seq<char>, ConfigModel> {
        self.config@.map_values(|c: Config| c@)
    }

    /// What is known of each configured server.
    pub closed spec fn states(&self) -> Map<Seq<char>, PollState> {
        self.states@
    }

    /// Well-formedness: the tables are sound and hold the same servers.
    pub closed spec fn wf(&self) -> bool {
        &&& self.config.wf()
        &&& self.states.wf()
        &&& self.config@.dom() == self.states@.dom()
    }

    /// The name under which `id` is shown.
    pub open spec fn name_of(&self, id: Seq<char>) -> Seq<char> {
        shown_name(self.config()[id].name, id)
    }

    /// A monitor of no servers, to which `update_config` adds them.
    pub fn new() -> (r: ServerStatusProvider)
        ensures
            r.wf(),
            r.config() == Map::<Seq<char>, ConfigModel>::empty(),
            r.states() == Map::<Seq<char>, PollState>::empty(),
    {
        let r = ServerStatusProvider { config: Table::new(), states: Table::new() };
        assert(r.config() =~= Map::<Seq<char>, ConfigModel>::empty());
        r
    }

    /// The configuration of server `id`.
    pub fn server_config(&self, id: &String) -> (r: Option<&Config>)
        requires
            self.wf(),
        ensures
            r matches Some(c) ==> self.config().contains_key(id@) && c@ == self.config()[id@],
            r is None ==> !self.config().contains_key(id@),
    {
        self.config.get(id)
    }

    /// Records the result of one probe of `id` at `now` and returns the
    /// notifications it raises, in order. A server that is no longer
    /// configured is left alone.
    pub fn record_probe(&mut self, id: &String, healthy: bool, now: i64) -> (r: Vec<Notification>)
        requires
            old(self).wf(),
        ensures
            final(self).wf(),
            final(self).config() == old(self).config(),
            old(self).states().contains_key(id@) ==> final(self).states() == old(self).states().insert(
                id@,
                after_probe(old(self).states()[id@], healthy, now),
            ) && note_models(r@) == notes_for(
                old(self).name_of(id@),
                id@,
                probe_reasons(old(self).states()[id@].is_online, healthy),
            ),
            !old(self).states().contains_key(id@) ==> final(self).states() == old(self).states() && r@.len()
                == 0,
    {
        let mut out: Vec<Notification> = Vec::new();
        let (was_online, last_seen, name) = match self.states.get(id) {
            None => {
                return out;
            },
            Some(s) => {
                let name = match self.config.get(id) {
                    Some(c) => name_or_id(&c.name, id),
                    None => id.clone(),
                };
                (s.is_online, s.last_seen, name)
            },
        };
        let ghost reasons = probe_reasons(was_online, healthy);
        if healthy {
            if !was_online {
                out.push(Notification::new(name.clone(), id.clone(), NotificationReason::WentOnline));
            }
            out.push(Notification::new(name, id.clone(), NotificationReason::Seen));
            self.states.insert(id.clone(), PollState { is_online: true, last_seen: Some(now) });
        } else {
            if was_online {
                out.push(Notification::new(name, id.clone(), NotificationReason::WentOffline));
            }
            self.states.insert(id.clone(), PollState { is_online: false, last_seen });
        }
        proof {
            assert(note_models(out@) =~= notes_for(old(self).name_of(id@), id@, reasons));
            assert(self.states@.dom() =~= self.config@.dom());
        }
        out
    }

    /// The status reported for each configured server.
    pub fn current_stati(&self) -> (r: Table<Status>)
        requires
            self.wf(),
        ensures
            r.wf(),
            r@.dom() == self.states().dom(),
            forall|id: Seq<char>| #[trigger] r@.contains_key(id) ==> r@[id]@ == (StatusModel {
                name: self.name_of(id),
                is_online: self.states()[id].is_online,
                last_seen: self.states()[id].last_seen,
            }),
    {
        let ghost sk = self.states.keys();
        proof {
            self.states.lemma_keys();
        }
        let mut r: Table<Status> = Table::new();
        let mut i: usize = 0;
        while i < self.states.len()
            invariant
                self.wf(),
                r.wf(),
                sk == self.states.keys(),
                self.states@.dom() == sk.to_set(),
                0 <= i <= sk.len(),
                forall|id: Seq<char>| #[trigger] r@.contains_key(id) <==> exists|m: int| 0 <= m < i && sk[m] == id,
                forall|id: Seq<char>| #[trigger] r@.contains_key(id) ==> r@[id]@ == (StatusModel {
                    name: self.name_of(id),
                    is_online: self.states()[id].is_online,
                    last_seen: self.states()[id].last_seen,
                }),
            decreases sk.len() - i,
        {
            let (id, s) = self.states.entry(i);
            let ghost k = id@;
            proof {
                assert(sk.to_set().contains(k));
            }
            let name = match self.config.get(id) {
                Some(c) => name_or_id(&c.name, id),
                None => id.clone(),
            };
            r.insert(id.clone(), Status { name, is_online: s.is_online, last_seen: s.last_seen });
            proof {
                assert forall|id2: Seq<char>| #[trigger] r@.contains_key(id2) <==> exists|m: int| 0 <= m < i + 1 && sk[m] == id2 by {
                    if id2 == k {
                        assert(sk[i as int] == id2);
                    }
                }
            }
            i = i + 1;
        }
        proof {
            assert forall|id: Seq<char>| #[trigger] r@.contains_key(id) <==> self.states().contains_key(id) by {
                if self.states().contains_key(id) {
                    assert(sk.to_set().contains(id));
                }
            }
            assert(r@.dom() =~= self.states().dom());
        }
        r
    }

    /// Replaces the configuration. A server that stays keeps what is known of
    /// it; a new one starts unprobed. Returns the probe tasks to start (new
    /// servers), restart (changed configuration) and stop (removed servers).
    pub fn update_config(&mut self, config: Table<Config>) -> (r: Vec<TaskAction>)
        requires
            old(self).wf(),
            config.wf(),
        ensures
            final(self).wf(),
            final(self).config() == config@.map_values(|c: Config| c@),
            final(self).states().dom() == config@.dom(),
            forall|id: Seq<char>| #[trigger] final(self).states().contains_key(id) ==> final(self).states()[id] == (
            if old(self).states().contains_key(id) {
                old(self).states()[id]
            } else {
                unprobed()
            }),
            forall|id: Seq<char>|
                #![trigger action_models(r@).contains(TaskActionModel::Start(id))]
                action_models(r@).contains(TaskActionModel::Start(id)) <==> (!old(self).config().contains_key(id)
                    && config@.contains_key(id)),
            forall|id: Seq<char>|
                #![trigger action_models(r@).contains(TaskActionModel::Restart(id))]
                action_models(r@).contains(TaskActionModel::Restart(id)) <==> (old(self).config().contains_key(id)
                    && config@.contains_key(id) && old(self).config()[id] != config@[id]@),
            forall|id: Seq<char>|
                #![trigger action_models(r@).contains(TaskActionModel::Stop(id))]
                action_models(r@).contains(TaskActionModel::Stop(id)) <==> (old(self).config().contains_key(id)
                    && !config@.contains_key(id)),
            action_models(r@).no_duplicates(),
    {
        let ghost nk = config.keys();
        let ghost ok = self.config.keys();
        proof {
            config.lemma_keys();
            self.config.lemma_keys();
        }
        let mut actions: Vec<TaskAction> = Vec::new();
        let mut states: Table<PollState> = Table::new();
        let mut i: usize = 0;
        while i < config.len()
            invariant
                self.wf(),
                config.wf(),
                states.wf(),
                nk == config.keys(),
                ok == self.config.keys(),
                config@.dom() == nk.to_set(),
                self.config@.dom() == ok.to_set(),
                0 <= i <= nk.len(),
                nk.no_duplicates(),
                action_models(actions@).no_duplicates(),
                forall|id: Seq<char>| #[trigger] states@.contains_key(id) <==> exists|m: int| 0 <= m < i && nk[m] == id,
                forall|id: Seq<char>| #[trigger] states@.contains_key(id) ==> states@[id] == (
                if self.states().contains_key(id) {
                    self.states()[id]
                } else {
                    unprobed()
                }),
                forall|id: Seq<char>|
                    #![trigger action_models(actions@).contains(TaskActionModel::Start(id))]
                    action_models(actions@).contains(TaskActionModel::Start(id)) <==> (!self.config().contains_key(id)
                        && exists|m: int| 0 <= m < i && nk[m] == id),
                forall|id: Seq<char>|
                    #![trigger action_models(actions@).contains(TaskActionModel::Restart(id))]
                    action_models(actions@).contains(TaskActionModel::Restart(id)) <==> (self.config().contains_key(id)
                        && (exists|m: int| 0 <= m < i && nk[m] == id) && self.config()[id] != config@[id]@),
                forall|id: Seq<char>|
                    #![trigger action_models(actions@).contains(TaskActionModel::Stop(id))]
                    !action_models(actions@).contains(TaskActionModel::Stop(id)),
            decreases nk.len() - i,
        {
            let (id, c) = config.entry(i);
            let ghost k = id@;
            let ghost before = action_models(actions@);
            proof {
                assert(nk[i as int] == k);
                assert forall|m: int| 0 <= m < i implies nk[m] != k by {}
                assert(!before.contains(TaskActionModel::Start(k)));
                assert(!before.contains(TaskActionModel::Restart(k)));
            }
            match self.config.get(id) {
                Some(old_c) => {
                    let s = *self.states.get(id).unwrap();
                    states.insert(id.clone(), s);
                    if !old_c.same_as(c) {
                        actions.push(TaskAction::Restart(id.clone()));
                    }
                },
                None => {
                    proof {
                        assert(!self.states@.contains_key(k));
                    }
                    states.insert(id.clone(), PollState { is_online: false, last_seen: None });
                    actions.push(TaskAction::Start(id.clone()));
                },
            }
            proof {
                let after = action_models(actions@);
                if after != before {
                    assert(after =~= before.push(after.last()));
                    lemma_push_no_duplicates(before, after.last());
                }
                assert(after == before || (after.len() == before.len() + 1 && after.drop_last() =~= before));
                assert forall|a: TaskActionModel| #[trigger] after.contains(a) <==> (before.contains(a) || (after != before && a == after.last())) by {
                    if after != before {
                        if before.contains(a) {
                            let m = choose|m: int| 0 <= m < before.len() && before[m] == a;
                            assert(after[m] == a);
                        }
                        if after.contains(a) && a != after.last() {
                            let m = choose|m: int| 0 <= m < after.len() && after[m] == a;
                            assert(before[m] == a);
                        }
                    }
                }
            }
            i = i + 1;
        }
        let mut j: usize = 0;
        while j < self.config.len()
            invariant
                self.wf(),
                config.wf(),
                states.wf(),
                nk == config.keys(),
                ok == self.config.keys(),
                config@.dom() == nk.to_set(),
                self.config@.dom() == ok.to_set(),
                0 <= j <= ok.len(),
                ok.no_duplicates(),
                action_models(actions@).no_duplicates(),
                forall|id: Seq<char>| #[trigger] states@.contains_key(id) <==> config@.contains_key(id),
                forall|id: Seq<char>| #[trigger] states@.contains_key(id) ==> states@[id] == (
                if self.states().contains_key(id) {
                    self.states()[id]
                } else {
                    unprobed()
                }),
                forall|id: Seq<char>|
                    #![trigger action_models(actions@).contains(TaskActionModel::Start(id))]
                    action_models(actions@).contains(TaskActionModel::Start(id)) <==> (!self.config().contains_key(id)
                        && config@.contains_key(id)),
                forall|id: Seq<char>|
                    #![trigger action_models(actions@).contains(TaskActionModel::Restart(id))]
                    action_models(actions@).contains(TaskActionModel::Restart(id)) <==> (self.config().contains_key(id)
                        && config@.contains_key(id) && self.config()[id] != config@[id]@),
                forall|id: Seq<char>|
                    #![trigger action_models(actions@).contains(TaskActionModel::Stop(id))]
                    action_models(actions@).contains(TaskActionModel::Stop(id)) <==> (!config@.contains_key(id)
                        && exists|m: int| 0 <= m < j && ok[m] == id),
            decreases ok.len() - j,
        {
            let (id, _c) = self.config.entry(j);
            let ghost k = id@;
            let ghost before = action_models(actions@);
            proof {
                assert(ok[j as int] == k);
                assert forall|m: int| 0 <= m < j implies ok[m] != k by {}
                assert(!before.contains(TaskActionModel::Stop(k)));
            }
            if !config.contains_key(id) {
                actions.push(TaskAction::Stop(id.clone()));
            }
            proof {
                let after = action_models(actions@);
                if after != before {
                    assert(after =~= before.push(after.last()));
                    lemma_push_no_duplicates(before, after.last());
                }
                assert(after == before || (after.len() == before.len() + 1 && after.drop_last() =~= before));
                assert forall|a: TaskActionModel| #[trigger] after.contains(a) <==> (before.contains(a) || (after != before && a == after.last())) by {
                    if after != before {
                        if before.contains(a) {
                            let m = choose|m: int| 0 <= m < before.len() && before[m] == a;
                            assert(after[m] == a);
                        }
                        if after.contains(a) && a != after.last() {
                            let m = choose|m: int| 0 <= m < after.len() && after[m] == a;
                            assert(before[m] == a);
                        }
                    }
                }
            }
            j = j + 1;
        }
        proof {
            assert forall|id: Seq<char>| #[trigger] self.config().contains_key(id) <==> exists|m: int| 0 <= m < ok.len() && ok[m] == id by {
                if self.config().contains_key(id) {
                    assert(ok.to_set().contains(id));
                }
            }
            assert(states@.dom() =~= config@.dom());
        }
        self.config = config;
        self.states = states;
        proof {
            assert(self.config() =~= self.config@.map_values(|c: Config| c@));
        }
        actions
    }
}

/// An unhealthy server raises no second `WentOffline`: after a probe that
/// raised one, another failing probe raises nothing.
pub proof fn lemma_no_repeated_offline(s: PollState, first: bool, now: i64)
    requires
        probe_reasons(s.is_online, first).contains(ReasonModel::WentOffline),
    ensures
        probe_reasons(after_probe(s, first, now).is_online, false) == Seq::<ReasonModel>::empty(),
{
    if first {
        assert(probe_reasons(s.is_online, first).contains(ReasonModel::WentOffline) ==> false) by {
            if probe_reasons(s.is_online, first).contains(ReasonModel::WentOffline) {
                let k = choose|k: int| 0 <= k < probe_reasons(s.is_online, first).len() && probe_reasons(s.is_online, first)[k] == ReasonModel::WentOffline;
            }
        }
    }
}

} // verus!
