use vstd::prelude::*;
use crate::notification::Notification;
use crate::registry::{admission, Admission, State, block_of};
use crate::table::Table;

verus! {

/// Which registry a provider belongs to.
#[derive(Clone, Copy, PartialEq, Eq, Structural, Debug)]
pub enum ProviderType {
    Status,
    Notification,
}

/// The capability a provider holds: it names the provider and its kind, and
/// acts on the registry only as that provider.
#[derive(Debug)]
pub struct StateHandle {
    id: String,
    ty: ProviderType,
}

impl Clone for StateHandle {
    fn clone(&self) -> (r: Self)
        ensures
            r.holder() == self.holder(),
            r.kind() == self.kind(),
    {
        StateHandle { id: self.id.clone(), ty: self.ty }
    }
}

impl StateHandle {
    /// The id of the provider that holds the handle, as a string.
    pub closed spec fn source(&self) -> &String {
        &self.id
    }

    /// The id of the provider that holds the handle.
    pub open spec fn holder(&self) -> Seq<char> {
        self.source()@
    }

    /// The kind of the provider that holds the handle.
    pub closed spec fn kind(&self) -> ProviderType {
        self.ty
    }

    pub fn new(id: String, ty: ProviderType) -> (r: StateHandle)
        ensures
            r.holder() == id@,
            r.kind() == ty,
    {
        StateHandle { id, ty }
    }

    pub fn id(&self) -> (r: &String)
        ensures
            r@ == self.holder(),
    {
        &self.id
    }

    /// Hands `notification` to every notification provider, with the holder's
    /// id as its source: `deliver` is called once per provider, in order of
    /// registration.
    pub fn send_notification<V, S, N, T, F: Fn(&String, &N, &Notification) -> T>(
        &self,
        state: &State<V, S, N>,
        notification: &Notification,
        deliver: F,
    ) -> (r: Vec<T>)
        requires
            state.wf(),
            forall|id: Seq<char>|
                #[trigger] state.notification().contains_key(id) ==> deliver.requires(
                    (self.source(), &state.notification()[id], notification),
                ),
        ensures
            r@.len() == state.notification().len(),
            forall|i: int|
                0 <= i < r@.len() ==> #[trigger] deliver.ensures(
                    (self.source(), &state.notification()[state.notification_order()[i]], notification),
                    r@[i],
                ),
            forall|id: Seq<char>|
                state.notification().contains_key(id) ==> exists|i: int|
                    0 <= i < r@.len() && #[trigger] state.notification_order()[i] == id,
    {
        state.send_notification(&self.id, notification, deliver)
    }

    /// The statuses of every status provider.
    pub fn all_stati<V, S, N, T, F: Fn(&S) -> T>(&self, state: &State<V, S, N>, query: F) -> (r: Table<T>)
        requires
            state.wf(),
            forall|id: Seq<char>| #[trigger] state.status().contains_key(id) ==> query.requires((&state.status()[id],)),
        ensures
            r.wf(),
            r@.dom() == state.status().dom(),
            forall|id: Seq<char>| #[trigger] r@.contains_key(id) ==> query.ensures((&state.status()[id],), r@[id]),
    {
        state.all_stati(query)
    }

    /// Removes the holder from its registry; the other registry is untouched.
    pub fn remove_self<V, S, N>(self, state: &mut State<V, S, N>)
        requires
            old(state).wf(),
        ensures
            final(state).wf(),
            final(state).raw() == old(state).raw(),
            self.kind() is Status ==> final(state).status() == old(state).status().remove(self.holder())
                && final(state).notification() == old(state).notification(),
            self.kind() is Notification ==> final(state).notification() == old(state).notification().remove(
                self.holder(),
            ) && final(state).status() == old(state).status(),
    {
        match self.ty {
            ProviderType::Status => {
                state.unregister_status_provider(&self.id);
            },
            ProviderType::Notification => {
                state.unregister_notification_provider(&self.id);
            },
        }
    }

    /// Makes sure that notification provider `id` is registered, building it
    /// with `make` if it is not: a provider registered already stays as it is,
    /// and a taken id is no failure here.
    pub fn add_dependency_notification_provider<V, S, N, F: FnOnce(Option<&V>) -> N>(
        state: &mut State<V, S, N>,
        id: String,
        make: F,
    )
        requires
            old(state).wf(),
            forall|c: Option<&V>| make.requires((c,)),
        ensures
            final(state).wf(),
            final(state).raw() == old(state).raw(),
            final(state).status() == old(state).status(),
            match admission(old(state).notification(), old(state).raw().notifications_disabled(), id@) {
                Admission::Admit => exists|n: N|
                    make.ensures((block_of(&old(state).raw().notifications@, id@),), n)
                        && final(state).notification() == old(state).notification().insert(id@, n),
                _ => final(state).notification() == old(state).notification(),
            },
    {
        let _ = state.register_notification_provider(id, make);
    }

    /// Makes sure that status provider `id` is registered, building it with
    /// `make` if it is not.
    pub fn add_dependency_status_provider<V, S, N, F: FnOnce(Option<&V>) -> S>(
        state: &mut State<V, S, N>,
        id: String,
        make: F,
    )
        requires
            old(state).wf(),
            forall|c: Option<&V>| make.requires((c,)),
        ensures
            final(state).wf(),
            final(state).raw() == old(state).raw(),
            final(state).notification() == old(state).notification(),
            match admission(old(state).status(), old(state).raw().status_disabled(), id@) {
                Admission::Admit => exists|s: S|
                    make.ensures((block_of(&old(state).raw().status@, id@),), s) && final(state).status()
                        == old(state).status().insert(id@, s),
                _ => final(state).status() == old(state).status(),
            },
    {
        let _ = state.register_status_provider(id, make);
    }
}

/// Asking twice for the same dependency registers it at most once: once the
/// id is registered, a further request changes nothing.
pub proof fn lemma_dependency_is_idempotent<P>(registered: Map<Seq<char>, P>, disabled: Set<Seq<char>>, id: Seq<char>, first: P)
    ensures
        !(admission(registered.insert(id, first), disabled, id) is Admit),
{
}

} // verus!
