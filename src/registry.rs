use vstd::prelude::*;
use crate::filter::{contains_string, string_models};
use crate::notification::Notification;
use crate::table::Table;

verus! {

/// The untyped configuration of all providers: one block per provider id and
/// kind, and the ids that are disabled. `V` is the type of a block.
pub struct RawConfig<V> {
    pub status: Table<V>,
    pub notifications: Table<V>,
    pub disabled_status: Vec<String>,
    pub disabled_notifications: Vec<String>,
}

impl<V> RawConfig<V> {
    pub open spec fn wf(&self) -> bool {
        self.status.wf() && self.notifications.wf()
    }

    /// The status provider ids that are disabled.
    pub open spec fn status_disabled(&self) -> Set<Seq<char>> {
        string_models(self.disabled_status@).to_set()
    }

    /// The notification provider ids that are disabled.
    pub open spec fn notifications_disabled(&self) -> Set<Seq<char>> {
        string_models(self.disabled_notifications@).to_set()
    }

    /// A configuration with no blocks and nothing disabled.
    pub fn empty() -> (r: RawConfig<V>)
        ensures
            r.wf(),
            r.status@ == Map::<Seq<char>, V>::empty(),
            r.notifications@ == Map::<Seq<char>, V>::empty(),
            r.status_disabled() == Set::<Seq<char>>::empty(),
            r.notifications_disabled() == Set::<Seq<char>>::empty(),
    {
        let r = RawConfig {
            status: Table::new(),
            notifications: Table::new(),
            disabled_status: Vec::new(),
            disabled_notifications: Vec::new(),
        };
        assert(r.status_disabled() =~= Set::<Seq<char>>::empty());
        assert(r.notifications_disabled() =~= Set::<Seq<char>>::empty());
        r
    }
}

/// The block of `id` in `blocks`, as handed to a provider's constructor.
pub open spec fn block_of<'a, V>(blocks: &'a Map<Seq<char>, V>, id: Seq<char>) -> Option<&'a V> {
    if blocks.contains_key(id) {
        Some(&blocks[id])
    } else {
        None
    }
}

/// A provider with this id is registered already.
#[derive(Debug)]
pub struct DuplicateProviderError {
    pub id: String,
}

/// What registering a provider id does.
pub enum Admission {
    /// The id is taken: registration fails.
    Duplicate,
    /// The id is disabled: registration succeeds and does nothing.
    Disabled,
    /// The provider is constructed and added.
    Admit,
}

/// What registering `id` does, given the registered ids and the disabled ids.
pub open spec fn admission<P>(registered: Map<Seq<char>, P>, disabled: Set<Seq<char>>, id: Seq<char>) -> Admission {
    if registered.contains_key(id) {
        Admission::Duplicate
    } else if disabled.contains(id) {
        Admission::Disabled
    } else {
        Admission::Admit
    }
}

/// Where a request goes, by its path segments.
#[derive(PartialEq, Eq, Debug)]
pub enum RouteTarget {
    /// Reload the configuration.
    ReloadConfig,
    /// The status provider named by the first segment; `rest` is the rest.
    StatusProvider { id: String, rest: Vec<String> },
    /// Each notification provider in turn, with the whole path, until one
    /// takes it; not found if none does.
    NotificationProviders,
}

/// What becomes of a request.
#[derive(PartialEq, Eq, Debug)]
pub enum Dispatch<R> {
    /// Reload the configuration.
    ReloadConfig,
    /// A provider answered.
    Answered(R),
    /// No provider took the request.
    NotFound,
}

/// Whether a request path is the reload request.
pub open spec fn is_reload(path: Seq<String>) -> bool {
    path.len() == 1 && path[0]@ == "reload_config"@
}

/// The path after its first segment, as character sequences.
pub open spec fn tail_of(path: Seq<String>) -> Seq<Seq<char>> {
    string_models(path.subrange(1, path.len() as int))
}

/// The live set of status providers (`S`) and notification providers (`N`),
/// keyed by provider id, with the raw configuration they are built from.
pub struct State<V, S, N> {
    config: RawConfig<V>,
    status_providers: Table<S>,
    notification_providers: Table<N>,
}

impl<V, S, N> State<V, S, N> {
    /// The raw configuration in force.
    pub closed spec fn raw(&self) -> RawConfig<V> {
        self.config
    }

    /// The registered status providers.
    pub closed spec fn status(&self) -> Map<Seq<char>, S> {
        self.status_providers@
    }

    /// The registered notification providers.
    pub closed spec fn notification(&self) -> Map<Seq<char>, N> {
        self.notification_providers@
    }

    /// The ids of the notification providers, in order of registration.
    pub closed spec fn notification_order(&self) -> Seq<Seq<char>> {
        self.notification_providers.keys()
    }

    pub closed spec fn wf(&self) -> bool {
        self.config.wf() && self.status_providers.wf() && self.notification_providers.wf()
    }

    /// A registry with no providers, built from `config`.
    pub fn new(config: RawConfig<V>) -> (r: Self)
        requires
            config.wf(),
        ensures
            r.wf(),
            r.raw() == config,
            r.status() == Map::<Seq<char>, S>::empty(),
            r.notification() == Map::<Seq<char>, N>::empty(),
    {
        State { config, status_providers: Table::new(), notification_providers: Table::new() }
    }

    /// Registers the status provider `id`, built by `make` from its block of
    /// the configuration (absent if it has none). Fails if `id` is taken; does
    /// nothing if `id` is disabled.
    pub fn register_status_provider<F: FnOnce(Option<&V>) -> S>(&mut self, id: String, make: F) -> (r: Result<
        (),
        DuplicateProviderError,
    >)
        requires
            old(self).wf(),
            forall|c: Option<&V>| make.requires((c,)),
        ensures
            final(self).wf(),
            final(self).raw() == old(self).raw(),
            final(self).notification() == old(self).notification(),
            match admission(old(self).status(), old(self).raw().status_disabled(), id@) {
                Admission::Duplicate => r matches Err(e) && e.id@ == id@ && final(self).status() == old(
                    self,
                ).status(),
                Admission::Disabled => r is Ok && final(self).status() == old(self).status(),
                Admission::Admit => r is Ok && exists|s: S|
                    make.ensures((block_of(&old(self).raw().status@, id@),), s) && final(self).status()
                        == old(self).status().insert(id@, s),
            },
    {
        if self.status_providers.contains_key(&id) {
            return Err(DuplicateProviderError { id });
        }
        if contains_string(&self.config.disabled_status, &id) {
            return Ok(());
        }
        let provider = make(self.config.status.get(&id));
        self.status_providers.insert(id, provider);
        Ok(())
    }

    /// Registers the notification provider `id`, built by `make` from its
    /// block of the configuration. Fails if `id` is taken; does nothing if
    /// `id` is disabled.
    pub fn register_notification_provider<F: FnOnce(Option<&V>) -> N>(&mut self, id: String, make: F) -> (r:
        Result<(), DuplicateProviderError>)
        requires
            old(self).wf(),
            forall|c: Option<&V>| make.requires((c,)),
        ensures
            final(self).wf(),
            final(self).raw() == old(self).raw(),
            final(self).status() == old(self).status(),
            match admission(old(self).notification(), old(self).raw().notifications_disabled(), id@) {
                Admission::Duplicate => r matches Err(e) && e.id@ == id@ && final(self).notification() == old(
                    self,
                ).notification(),
                Admission::Disabled => r is Ok && final(self).notification() == old(self).notification(),
                Admission::Admit => r is Ok && exists|n: N|
                    make.ensures((block_of(&old(self).raw().notifications@, id@),), n)
                        && final(self).notification() == old(self).notification().insert(id@, n),
            },
    {
        if self.notification_providers.contains_key(&id) {
            return Err(DuplicateProviderError { id });
        }
        if contains_string(&self.config.disabled_notifications, &id) {
            return Ok(());
        }
        let provider = make(self.config.notifications.get(&id));
        self.notification_providers.insert(id, provider);
        Ok(())
    }

    /// Removes the status provider `id` and hands it back.
    pub fn unregister_status_provider(&mut self, id: &String) -> (r: Option<S>)
        requires
            old(self).wf(),
        ensures
            final(self).wf(),
            final(self).raw() == old(self).raw(),
            final(self).notification() == old(self).notification(),
            final(self).status() == old(self).status().remove(id@),
            r == old(self).status().get(id@),
    {
        self.status_providers.remove(id)
    }

    /// Removes the notification provider `id` and hands it back.
    pub fn unregister_notification_provider(&mut self, id: &String) -> (r: Option<N>)
        requires
            old(self).wf(),
        ensures
            final(self).wf(),
            final(self).raw() == old(self).raw(),
            final(self).status() == old(self).status(),
            final(self).notification() == old(self).notification().remove(id@),
            r == old(self).notification().get(id@),
    {
        self.notification_providers.remove(id)
    }

    /// Puts `config` in force and removes every provider that it disables.
    /// The providers that stay are then to be reconfigured, each with its own
    /// block (see `status_block` and `notification_block`).
    pub fn reload_config(&mut self, config: RawConfig<V>)
        requires
            old(self).wf(),
            config.wf(),
        ensures
            final(self).wf(),
            final(self).raw() == config,
            final(self).status() == old(self).status().remove_keys(config.status_disabled()),
            final(self).notification() == old(self).notification().remove_keys(config.notifications_disabled()),
    {
        let ghost old_status = self.status_providers@;
        let ghost old_notification = self.notification_providers@;
        let mut i: usize = 0;
        while i < config.disabled_status.len()
            invariant
                self.status_providers.wf(),
                self.notification_providers.wf(),
                self.config.wf(),
                self.notification_providers@ == old_notification,
                0 <= i <= config.disabled_status.len(),
                self.status_providers@ == old_status.remove_keys(
                    string_models(config.disabled_status@.subrange(0, i as int)).to_set(),
                ),
            decreases config.disabled_status.len() - i,
        {
            self.status_providers.remove(&config.disabled_status[i]);
            proof {
                let before = string_models(config.disabled_status@.subrange(0, i as int));
                let after = string_models(config.disabled_status@.subrange(0, i + 1));
                assert(after =~= before.push(config.disabled_status@[i as int]@));
                assert(after.to_set() =~= before.to_set().insert(config.disabled_status@[i as int]@)) by {
                    assert forall|k: Seq<char>| #[trigger] after.to_set().contains(k) <==> (before.to_set().contains(k) || k == config.disabled_status@[i as int]@) by {
                        if before.to_set().contains(k) {
                            let m = choose|m: int| 0 <= m < before.len() && before[m] == k;
                            assert(after[m] == k);
                        }
                        if k == config.disabled_status@[i as int]@ {
                            assert(after[after.len() - 1] == k);
                        }
                        if after.to_set().contains(k) && k != config.disabled_status@[i as int]@ {
                            let m = choose|m: int| 0 <= m < after.len() && after[m] == k;
                            assert(before[m] == k);
                        }
                    }
                }
                assert(self.status_providers@ =~= old_status.remove_keys(after.to_set()));
            }
            i = i + 1;
        }
        proof {
            assert(config.disabled_status@.subrange(0, i as int) =~= config.disabled_status@);
        }
        let mut j: usize = 0;
        while j < config.disabled_notifications.len()
            invariant
                self.status_providers.wf(),
                self.notification_providers.wf(),
                self.config.wf(),
                self.status_providers@ == old_status.remove_keys(config.status_disabled()),
                0 <= j <= config.disabled_notifications.len(),
                self.notification_providers@ == old_notification.remove_keys(
                    string_models(config.disabled_notifications@.subrange(0, j as int)).to_set(),
                ),
            decreases config.disabled_notifications.len() - j,
        {
            self.notification_providers.remove(&config.disabled_notifications[j]);
            proof {
                let before = string_models(config.disabled_notifications@.subrange(0, j as int));
                let after = string_models(config.disabled_notifications@.subrange(0, j + 1));
                assert(after =~= before.push(config.disabled_notifications@[j as int]@));
                assert(after.to_set() =~= before.to_set().insert(config.disabled_notifications@[j as int]@)) by {
                    assert forall|k: Seq<char>| #[trigger] after.to_set().contains(k) <==> (before.to_set().contains(k) || k == config.disabled_notifications@[j as int]@) by {
                        if before.to_set().contains(k) {
                            let m = choose|m: int| 0 <= m < before.len() && before[m] == k;
                            assert(after[m] == k);
                        }
                        if k == config.disabled_notifications@[j as int]@ {
                            assert(after[after.len() - 1] == k);
                        }
                        if after.to_set().contains(k) && k != config.disabled_notifications@[j as int]@ {
                            let m = choose|m: int| 0 <= m < after.len() && after[m] == k;
                            assert(before[m] == k);
                        }
                    }
                }
                assert(self.notification_providers@ =~= old_notification.remove_keys(after.to_set()));
            }
            j = j + 1;
        }
        proof {
            assert(config.disabled_notifications@.subrange(0, j as int) =~= config.disabled_notifications@);
        }
        self.config = config;
    }

    /// The configuration block of status provider `id`.
    pub fn status_block(&self, id: &String) -> (r: Option<&V>)
        requires
            self.wf(),
        ensures
            r == block_of(&self.raw().status@, id@),
    {
        self.config.status.get(id)
    }

    /// The configuration block of notification provider `id`.
    pub fn notification_block(&self, id: &String) -> (r: Option<&V>)
        requires
            self.wf(),
        ensures
            r == block_of(&self.raw().notifications@, id@),
    {
        self.config.notifications.get(id)
    }

    /// Whether status provider `id` is disabled by the configuration in force.
    pub fn is_status_disabled(&self, id: &String) -> (r: bool)
        ensures
            r == self.raw().status_disabled().contains(id@),
    {
        contains_string(&self.config.disabled_status, id)
    }

    /// The registered status providers, in order of registration.
    pub fn status_providers(&self) -> (r: &Table<S>)
        requires
            self.wf(),
        ensures
            r.wf(),
            r@ == self.status(),
    {
        &self.status_providers
    }

    /// The registered notification providers, in order of registration.
    pub fn notification_providers(&self) -> (r: &Table<N>)
        requires
            self.wf(),
        ensures
            r.wf(),
            r@ == self.notification(),
    {
        &self.notification_providers
    }

    /// Asks every status provider for its statuses (`query` asks one) and
    /// returns the answers keyed by provider id.
    pub fn all_stati<T, F: Fn(&S) -> T>(&self, query: F) -> (r: Table<T>)
        requires
            self.wf(),
            forall|id: Seq<char>| #[trigger] self.status().contains_key(id) ==> query.requires((&self.status()[id],)),
        ensures
            r.wf(),
            r@.dom() == self.status().dom(),
            forall|id: Seq<char>| #[trigger] r@.contains_key(id) ==> query.ensures((&self.status()[id],), r@[id]),
    {
        let ghost sk = self.status_providers.keys();
        proof {
            self.status_providers.lemma_keys();
        }
        let mut r: Table<T> = Table::new();
        let mut i: usize = 0;
        while i < self.status_providers.len()
            invariant
                self.wf(),
                r.wf(),
                sk == self.status_providers.keys(),
                self.status_providers@.dom() == sk.to_set(),
                forall|id: Seq<char>| #[trigger] self.status().contains_key(id) ==> query.requires((&self.status()[id],)),
                0 <= i <= sk.len(),
                forall|id: Seq<char>| #[trigger] r@.contains_key(id) <==> exists|m: int| 0 <= m < i && sk[m] == id,
                forall|id: Seq<char>| #[trigger] r@.contains_key(id) ==> query.ensures((&self.status()[id],), r@[id]),
            decreases sk.len() - i,
        {
            let (id, provider) = self.status_providers.entry(i);
            let ghost k = id@;
            proof {
                self.status_providers.lemma_position(i as int);
                assert(self.status().contains_key(k));
            }
            let answer = query(provider);
            r.insert(id.clone(), answer);
            proof {
                assert forall|id2: Seq<char>| #[trigger] r@.contains_key(id2) <==> exists|m: int| 0 <= m < i + 1 && sk[m] == id2 by {
                    if id2 == k {
                        assert(sk[i as int] == id2);
                    }
                }
            }
            i = i + 1;
        }
        proof {
            assert forall|id: Seq<char>| #[trigger] r@.contains_key(id) <==> self.status().contains_key(id) by {
                if self.status().contains_key(id) {
                    assert(sk.to_set().contains(id));
                }
            }
            assert(r@.dom() =~= self.status().dom());
        }
        r
    }

    /// Hands `message`, raised by provider `source_type_id`, to every
    /// notification provider: `deliver` is called once on each, in order of
    /// registration, and its results are returned in that order.
    pub fn send_notification<T, F: Fn(&String, &N, &Notification) -> T>(
        &self,
        source_type_id: &String,
        message: &Notification,
        deliver: F,
    ) -> (r: Vec<T>)
        requires
            self.wf(),
            forall|id: Seq<char>|
                #[trigger] self.notification().contains_key(id) ==> deliver.requires(
                    (source_type_id, &self.notification()[id], message),
                ),
        ensures
            r@.len() == self.notification().len(),
            forall|i: int|
                0 <= i < r@.len() ==> #[trigger] deliver.ensures(
                    (source_type_id, &self.notification()[self.notification_order()[i]], message),
                    r@[i],
                ),
            forall|id: Seq<char>|
                self.notification().contains_key(id) ==> exists|i: int|
                    0 <= i < r@.len() && #[trigger] self.notification_order()[i] == id,
    {
        let ghost nk = self.notification_providers.keys();
        proof {
            self.notification_providers.lemma_keys();
            nk.unique_seq_to_set();
            assert(self.notification().dom() == nk.to_set());
        }
        let mut r: Vec<T> = Vec::new();
        let mut i: usize = 0;
        while i < self.notification_providers.len()
            invariant
                self.wf(),
                nk == self.notification_providers.keys(),
                forall|id: Seq<char>|
                    #[trigger] self.notification().contains_key(id) ==> deliver.requires(
                        (source_type_id, &self.notification()[id], message),
                    ),
                0 <= i <= nk.len(),
                r@.len() == i,
                forall|m: int|
                    0 <= m < i ==> #[trigger] deliver.ensures(
                        (source_type_id, &self.notification()[nk[m]], message),
                        r@[m],
                    ),
            decreases nk.len() - i,
        {
            let (_id, provider) = self.notification_providers.entry(i);
            proof {
                self.notification_providers.lemma_position(i as int);
                assert(self.notification().contains_key(nk[i as int]));
            }
            let out = deliver(source_type_id, provider, message);
            r.push(out);
            i = i + 1;
        }
        proof {
            assert forall|id: Seq<char>| self.notification().contains_key(id) implies exists|m: int|
                0 <= m < r@.len() && #[trigger] self.notification_order()[m] == id by {
                assert(nk.to_set().contains(id));
                let m = choose|m: int| 0 <= m < nk.len() && nk[m] == id;
                assert(self.notification_order()[m] == id);
            }
        }
        r
    }
}

impl<V, S, N> State<V, S, N> {
    /// Where a request for `path` goes: a lone `reload_config` segment reloads
    /// the configuration; a first segment that names a status provider goes to
    /// that provider; anything else is offered to the notification providers.
    pub fn route(&self, path: &Vec<String>) -> (r: RouteTarget)
        requires
            self.wf(),
        ensures
            path@.len() == 1 && path@[0]@ == "reload_config"@ ==> r is ReloadConfig,
            !(path@.len() == 1 && path@[0]@ == "reload_config"@) && path@.len() > 0 && self.status().contains_key(
                path@[0]@,
            ) ==> (r matches RouteTarget::StatusProvider { id, rest } && id@ == path@[0]@ && string_models(rest@) == string_models(path@.subrange(1, path@.len() as int))),
            !(path@.len() == 1 && path@[0]@ == "reload_config"@) && !(path@.len() > 0
                && self.status().contains_key(path@[0]@)) ==> r is NotificationProviders,
    {
        let reload = "reload_config".to_string();
        if path.len() == 1 && path[0] == reload {
            return RouteTarget::ReloadConfig;
        }
        if path.len() > 0 && self.status_providers.contains_key(&path[0]) {
            let mut rest: Vec<String> = Vec::new();
            let mut i: usize = 1;
            while i < path.len()
                invariant
                    1 <= i <= path@.len(),
                    string_models(rest@) == string_models(path@.subrange(1, i as int)),
                decreases path@.len() - i,
            {
                rest.push(path[i].clone());
                proof {
                    assert(string_models(path@.subrange(1, i + 1)) =~= string_models(path@.subrange(1, i as int)).push(path@[i as int]@));
                }
                i = i + 1;
            }
            return RouteTarget::StatusProvider { id: path[0].clone(), rest };
        }
        RouteTarget::NotificationProviders
    }
}

impl<V, S, N> State<V, S, N> {
    /// Whether the first segment of `path` names a status provider (and the
    /// path is not the reload request).
    pub open spec fn names_status(&self, path: Seq<String>) -> bool {
        !is_reload(path) && path.len() > 0 && self.status().contains_key(path[0]@)
    }

    /// Whether the status provider named by the first segment of `path`
    /// declined it: asked with the rest of the path, it gave no answer.
    pub open spec fn status_declined<R, FS: Fn(&S, &Vec<String>) -> Option<R>>(&self, path: &Vec<String>, ask_status: FS) -> bool {
        exists|rest: &Vec<String>|
            string_models(rest@) == tail_of(path@) && #[trigger] ask_status.ensures(
                (&self.status()[path@[0]@], rest),
                None,
            )
    }

    /// Whether the status provider named by `path` answered `a`.
    pub open spec fn status_answered<R, FS: Fn(&S, &Vec<String>) -> Option<R>>(
        &self,
        path: &Vec<String>,
        ask_status: FS,
        a: R,
    ) -> bool {
        self.names_status(path@) && exists|rest: &Vec<String>|
            string_models(rest@) == tail_of(path@) && #[trigger] ask_status.ensures(
                (&self.status()[path@[0]@], rest),
                Some(a),
            )
    }

    /// Whether `a` is the answer of the first notification provider that
    /// answered `path`, after any named status provider declined it.
    pub open spec fn notification_answered<R, FS: Fn(&S, &Vec<String>) -> Option<R>, FN: Fn(&N, &Vec<String>) -> Option<R>>(
        &self,
        path: &Vec<String>,
        ask_status: FS,
        ask_notification: FN,
        a: R,
    ) -> bool {
        &&& self.names_status(path@) ==> self.status_declined(path, ask_status)
        &&& exists|i: int|
            0 <= i < self.notification_order().len() && #[trigger] ask_notification.ensures(
                (&self.notification()[self.notification_order()[i]], path),
                Some(a),
            ) && forall|j: int|
                0 <= j < i ==> #[trigger] ask_notification.ensures(
                    (&self.notification()[self.notification_order()[j]], path),
                    None,
                )
    }

    /// Handles a request: the reload request reloads; a path whose first
    /// segment names a status provider goes to that provider with the rest of
    /// the path (`ask_status`); if it does not answer, or no status provider
    /// is named, each notification provider in order of registration is
    /// offered the whole path (`ask_notification`) until one answers.
    pub fn handle<R, FS: Fn(&S, &Vec<String>) -> Option<R>, FN: Fn(&N, &Vec<String>) -> Option<R>>(
        &self,
        path: &Vec<String>,
        ask_status: FS,
        ask_notification: FN,
    ) -> (r: Dispatch<R>)
        requires
            self.wf(),
            forall|id: Seq<char>, rest: &Vec<String>|
                self.status().contains_key(id) ==> #[trigger] ask_status.requires((&self.status()[id], rest)),
            forall|id: Seq<char>|
                #[trigger] self.notification().contains_key(id) ==> ask_notification.requires(
                    (&self.notification()[id], path),
                ),
        ensures
            is_reload(path@) <==> r is ReloadConfig,
            r is NotFound ==> (self.names_status(path@) ==> self.status_declined(path, ask_status)) && forall|i: int|
                0 <= i < self.notification_order().len() ==> #[trigger] ask_notification.ensures(
                    (&self.notification()[self.notification_order()[i]], path),
                    None,
                ),
            r matches Dispatch::Answered(a) ==> self.status_answered(path, ask_status, a)
                || self.notification_answered(path, ask_status, ask_notification, a),
    {
        match self.route(path) {
            RouteTarget::ReloadConfig => {
                return Dispatch::ReloadConfig;
            },
            RouteTarget::StatusProvider { id, rest } => {
                let p = self.status_providers.get(&id).unwrap();
                proof {
                    assert(self.status().contains_key(id@));
                }
                let answer = ask_status(p, &rest);
                proof {
                    assert(string_models(rest@) == tail_of(path@));
                    assert(ask_status.ensures((&self.status()[path@[0]@], &rest), answer));
                }
                match answer {
                    Some(a) => {
                        proof {
                            assert(self.names_status(path@));
                            assert(self.status_answered(path, ask_status, a));
                        }
                        return Dispatch::Answered(a);
                    },
                    None => {
                        proof {
                            assert(self.status_declined(path, ask_status));
                        }
                    },
                }
            },
            RouteTarget::NotificationProviders => {},
        }
        let ghost nk = self.notification_providers.keys();
        let mut i: usize = 0;
        while i < self.notification_providers.len()
            invariant
                self.wf(),
                nk == self.notification_order(),
                0 <= i <= nk.len(),
                !is_reload(path@),
                self.names_status(path@) ==> self.status_declined(path, ask_status),
                forall|id: Seq<char>|
                    #[trigger] self.notification().contains_key(id) ==> ask_notification.requires(
                        (&self.notification()[id], path),
                    ),
                forall|j: int|
                    0 <= j < i ==> #[trigger] ask_notification.ensures((&self.notification()[nk[j]], path), None),
            decreases nk.len() - i,
        {
            let (_id, p) = self.notification_providers.entry(i);
            proof {
                self.notification_providers.lemma_position(i as int);
                assert(self.notification().contains_key(nk[i as int]));
            }
            let answer = ask_notification(p, path);
            proof {
                assert(ask_notification.ensures((&self.notification()[nk[i as int]], path), answer));
            }
            if let Some(a) = answer {
                proof {
                    assert(ask_notification.ensures((&self.notification()[self.notification_order()[i as int]], path), Some(a)));
                    assert(self.notification_answered(path, ask_status, ask_notification, a));
                }
                return Dispatch::Answered(a);
            }
            i = i + 1;
        }
        Dispatch::NotFound
    }
}

/// A decoded configuration block, or the fallback when the block is absent or
/// does not decode: a malformed block never fails a registration or reload.
pub fn config_or_default<C, E>(decoded: Option<Result<C, E>>, fallback: C) -> (r: C)
    ensures
        r == match decoded {
            Some(Ok(c)) => c,
            _ => fallback,
        },
{
    match decoded {
        Some(Ok(c)) => c,
        _ => fallback,
    }
}

/// Once `id` is registered, registering `id` again is refused, and the
/// registered provider is the one that came first.
pub proof fn lemma_second_registration_fails<P>(
    registered: Map<Seq<char>, P>,
    disabled: Set<Seq<char>>,
    id: Seq<char>,
    first: P,
)
    ensures
        admission(registered.insert(id, first), disabled, id) is Duplicate,
        registered.insert(id, first)[id] == first,
{
}

/// Each provider is given its own block: two configurations that differ in
/// the block of `changed` alone (a malformed one, say) give every other
/// provider the same block.
pub proof fn lemma_blocks_are_independent<V>(
    a: Map<Seq<char>, V>,
    b: Map<Seq<char>, V>,
    changed: Seq<char>,
    id: Seq<char>,
)
    requires
        a.remove(changed) == b.remove(changed),
        id != changed,
    ensures
        block_of(&a, id) == block_of(&b, id),
{
    assert(a.remove(changed).contains_key(id) == a.contains_key(id));
    assert(b.remove(changed).contains_key(id) == b.contains_key(id));
    if a.contains_key(id) {
        assert(a.remove(changed)[id] == a[id]);
        assert(b.remove(changed)[id] == b[id]);
    }
}

} // verus!
