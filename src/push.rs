use vstd::prelude::*;
use crate::notification::{Notification, NotificationModel, NotificationReason, ReasonModel};
use crate::status::{Status, StatusModel};
use crate::table::Table;

verus! {

/// The path prefix under which the status report and the live-update stream
/// are served when none is configured.
pub fn default_route() -> (r: String)
    ensures
        r@ == "api/"@,
{
    "api/".to_string()
}

/// What a request to the status-report provider asks for.
#[derive(PartialEq, Eq, Debug)]
pub enum ApiEndpoint {
    /// The status report of every provider.
    AllStati,
    /// A subscription to live updates.
    Live,
}

/// Whether `path` is `route` followed by exactly `tail`.
pub open spec fn is_under(route: Seq<Seq<char>>, path: Seq<Seq<char>>, tail: Seq<char>) -> bool {
    &&& path.len() == route.len() + 1
    &&& path.subrange(0, route.len() as int) == route
    &&& path[route.len() as int] == tail
}

/// The views of a list of strings.
pub open spec fn segment_models(l: Seq<String>) -> Seq<Seq<char>> {
    l.map_values(|s: String| s@)
}

/// The endpoint that `path` names under the provider's `route` (both as path
/// segments): `all_stati` or `all_statuses` for the report, `ws` for live
/// updates, none for anything else.
pub fn api_endpoint(route: &Vec<String>, path: &Vec<String>) -> (r: Option<ApiEndpoint>)
    ensures
        r == if is_under(segment_models(route@), segment_models(path@), "all_stati"@) || is_under(
            segment_models(route@),
            segment_models(path@),
            "all_statuses"@,
        ) {
            Some(ApiEndpoint::AllStati)
        } else if is_under(segment_models(route@), segment_models(path@), "ws"@) {
            Some(ApiEndpoint::Live)
        } else {
            None
        },
{
    let ghost rs = segment_models(route@);
    let ghost ps = segment_models(path@);
    if path.len() == 0 || path.len() - 1 != route.len() {
        return None;
    }
    let mut i: usize = 0;
    while i < route.len()
        invariant
            rs == segment_models(route@),
            ps == segment_models(path@),
            path@.len() == route@.len() + 1,
            0 <= i <= route@.len(),
            forall|j: int| 0 <= j < i ==> ps[j] == rs[j],
        decreases route@.len() - i,
    {
        if path[i] != route[i] {
            proof {
                assert(ps.subrange(0, rs.len() as int)[i as int] != rs[i as int]);
            }
            return None;
        }
        i = i + 1;
    }
    proof {
        assert(ps.subrange(0, rs.len() as int) =~= rs);
    }
    let last = &path[route.len()];
    let all_stati = "all_stati".to_string();
    let all_statuses = "all_statuses".to_string();
    let ws = "ws".to_string();
    if *last == all_stati || *last == all_statuses {
        Some(ApiEndpoint::AllStati)
    } else if *last == ws {
        Some(ApiEndpoint::Live)
    } else {
        None
    }
}

/// A change of an item's presence, as live-update subscribers receive it.
#[derive(PartialEq, Eq, Debug)]
pub struct StatusUpdate {
    pub type_id: String,
    pub id: String,
    pub new_status: bool,
}

/// A message pushed to live-update subscribers.
#[derive(PartialEq, Eq, Debug)]
pub enum WebSocketMessage {
    /// An item went online (`new_status`) or offline.
    MinerStatusChange(StatusUpdate),
    /// An item was seen.
    MinerPing { type_id: String, id: String },
}

/// The mathematical value of a [`WebSocketMessage`].
pub enum PushModel {
    StatusChange { type_id: Seq<char>, id: Seq<char>, new_status: bool },
    Ping { type_id: Seq<char>, id: Seq<char> },
}

impl View for WebSocketMessage {
    type V = PushModel;

    open spec fn view(&self) -> PushModel {
        match self {
            WebSocketMessage::MinerStatusChange(u) => PushModel::StatusChange {
                type_id: u.type_id@,
                id: u.id@,
                new_status: u.new_status,
            },
            WebSocketMessage::MinerPing { type_id, id } => PushModel::Ping { type_id: type_id@, id: id@ },
        }
    }
}

/// The message that a notification from provider `type_id` becomes: a state
/// change for `WentOnline` and `WentOffline`, a ping for `Seen`, and none for
/// any other reason.
pub open spec fn push_of(type_id: Seq<char>, n: NotificationModel) -> Option<PushModel> {
    match n.reason {
        ReasonModel::WentOnline => Some(PushModel::StatusChange { type_id, id: n.item_id, new_status: true }),
        ReasonModel::WentOffline => Some(PushModel::StatusChange { type_id, id: n.item_id, new_status: false }),
        ReasonModel::Seen => Some(PushModel::Ping { type_id, id: n.item_id }),
        ReasonModel::Other(_) => None,
    }
}

impl WebSocketMessage {
    /// The message for a notification raised by status provider `type_id`.
    pub fn from_notification(type_id: String, notification: Notification) -> (r: Option<WebSocketMessage>)
        ensures
            match r {
                Some(m) => push_of(type_id@, notification@) == Some(m@),
                None => push_of(type_id@, notification@) is None,
            },
    {
        match notification.reason {
            NotificationReason::WentOnline => Some(
                WebSocketMessage::MinerStatusChange(
                    StatusUpdate { type_id, id: notification.item_id, new_status: true },
                ),
            ),
            NotificationReason::WentOffline => Some(
                WebSocketMessage::MinerStatusChange(
                    StatusUpdate { type_id, id: notification.item_id, new_status: false },
                ),
            ),
            NotificationReason::Seen => Some(WebSocketMessage::MinerPing { type_id, id: notification.item_id }),
            NotificationReason::Other(_) => None,
        }
    }
}

/// One row of the status report: an item's id with its status.
#[derive(PartialEq, Eq, Debug)]
pub struct ElementStatus {
    pub id: String,
    pub name: String,
    pub last_ping: Option<i64>,
    pub is_online: bool,
}

/// The rows of the status report for one status provider, in the provider's
/// order: one per item.
pub fn element_statuses(stati: &Table<Status>) -> (r: Vec<ElementStatus>)
    requires
        stati.wf(),
    ensures
        r@.len() == stati@.len(),
        forall|i: int|
            0 <= i < r@.len() ==> {
                let e = #[trigger] r@[i];
                &&& stati@.contains_key(e.id@)
                &&& stati@[e.id@]@ == (StatusModel { name: e.name@, is_online: e.is_online, last_seen: e.last_ping })
            },
        forall|id: Seq<char>| stati@.contains_key(id) ==> exists|i: int| 0 <= i < r@.len() && #[trigger] r@[i].id@ == id,
{
    let ghost ks = stati.keys();
    proof {
        stati.lemma_keys();
        ks.unique_seq_to_set();
    }
    let mut r: Vec<ElementStatus> = Vec::new();
    let mut i: usize = 0;
    while i < stati.len()
        invariant
            stati.wf(),
            ks == stati.keys(),
            0 <= i <= ks.len(),
            r@.len() == i,
            forall|m: int| 0 <= m < i ==> #[trigger] r@[m].id@ == ks[m],
            forall|m: int|
                0 <= m < i ==> {
                    let e = #[trigger] r@[m];
                    &&& stati@.contains_key(e.id@)
                    &&& stati@[e.id@]@ == (StatusModel { name: e.name@, is_online: e.is_online, last_seen: e.last_ping })
                },
        decreases ks.len() - i,
    {
        let (id, st) = stati.entry(i);
        proof {
            stati.lemma_position(i as int);
        }
        r.push(ElementStatus { id: id.clone(), name: st.name.clone(), last_ping: st.last_seen, is_online: st.is_online });
        i = i + 1;
    }
    proof {
        assert forall|id: Seq<char>| stati@.contains_key(id) implies exists|m: int| 0 <= m < r@.len() && #[trigger] r@[m].id@ == id by {
            assert(ks.to_set().contains(id));
            let m = choose|m: int| 0 <= m < ks.len() && ks[m] == id;
            assert(r@[m].id@ == id);
        }
    }
    r
}

} // verus!
