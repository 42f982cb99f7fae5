use vstd::prelude::*;
use crate::notification::{Notification, NotificationModel, NotificationReason, ReasonModel};

verus! {

/// The reasons held in a list, as values.
pub open spec fn reason_models(l: Seq<NotificationReason>) -> Seq<ReasonModel> {
    l.map_values(|r: NotificationReason| r@)
}

/// The strings held in a list, as character sequences.
pub open spec fn string_models(l: Seq<String>) -> Seq<Seq<char>> {
    l.map_values(|s: String| s@)
}

/// Whether `val` is one of the reasons in `list`.
pub fn contains_reason(list: &Vec<NotificationReason>, val: &NotificationReason) -> (r: bool)
    ensures
        r == reason_models(list@).contains(val@),
{
    let mut i: usize = 0;
    while i < list.len()
        invariant
            0 <= i <= list.len(),
            forall|j: int| 0 <= j < i ==> list@[j]@ != val@,
        decreases list.len() - i,
    {
        if list[i].same_as(val) {
            proof {
                assert(reason_models(list@)[i as int] == val@);
            }
            return true;
        }
        i = i + 1;
    }
    proof {
        if reason_models(list@).contains(val@) {
            let k = choose|k: int| 0 <= k < reason_models(list@).len() && reason_models(list@)[k] == val@;
            assert(list@[k]@ == val@);
        }
    }
    false
}

/// Whether `val` is one of the strings in `list`.
pub fn contains_string(list: &Vec<String>, val: &String) -> (r: bool)
    ensures
        r == string_models(list@).contains(val@),
{
    let mut i: usize = 0;
    while i < list.len()
        invariant
            0 <= i <= list.len(),
            forall|j: int| 0 <= j < i ==> list@[j]@ != val@,
        decreases list.len() - i,
    {
        if list[i] == *val {
            proof {
                assert(string_models(list@)[i as int] == val@);
            }
            return true;
        }
        i = i + 1;
    }
    proof {
        if string_models(list@).contains(val@) {
            let k = choose|k: int| 0 <= k < string_models(list@).len() && string_models(list@)[k] == val@;
            assert(list@[k]@ == val@);
        }
    }
    false
}

/// A rule on the reason of a notification: allow only the listed reasons, or
/// all but the listed reasons.
pub enum ReasonFilter {
    WhiteList(Vec<NotificationReason>),
    BlackList(Vec<NotificationReason>),
}

/// A rule on the id of the item that a notification is about.
pub enum IdFilter {
    WhiteList(Vec<String>),
    BlackList(Vec<String>),
}

/// A rule on the id of the status provider that raised a notification.
pub enum TypeFilter {
    WhiteList(Vec<String>),
    BlackList(Vec<String>),
}

impl ReasonFilter {
    /// The reasons that the rule lists.
    pub open spec fn listed(&self) -> Seq<ReasonModel> {
        match self {
            ReasonFilter::WhiteList(l) => reason_models(l@),
            ReasonFilter::BlackList(l) => reason_models(l@),
        }
    }

    pub open spec fn permits(&self, r: ReasonModel) -> bool {
        match self {
            ReasonFilter::WhiteList(l) => reason_models(l@).contains(r),
            ReasonFilter::BlackList(l) => !reason_models(l@).contains(r),
        }
    }

    pub fn allows(&self, val: &NotificationReason) -> (r: bool)
        ensures
            r == self.permits(val@),
    {
        match self {
            ReasonFilter::WhiteList(l) => contains_reason(l, val),
            ReasonFilter::BlackList(l) => !contains_reason(l, val),
        }
    }
}

impl Default for ReasonFilter {
    /// A filter that allows every reason.
    fn default() -> (r: Self)
        ensures
            r matches ReasonFilter::BlackList(l) && l@.len() == 0,
    {
        ReasonFilter::BlackList(Vec::new())
    }
}

impl IdFilter {
    pub open spec fn permits(&self, id: Seq<char>) -> bool {
        match self {
            IdFilter::WhiteList(l) => string_models(l@).contains(id),
            IdFilter::BlackList(l) => !string_models(l@).contains(id),
        }
    }

    pub fn allows(&self, val: &String) -> (r: bool)
        ensures
            r == self.permits(val@),
    {
        match self {
            IdFilter::WhiteList(l) => contains_string(l, val),
            IdFilter::BlackList(l) => !contains_string(l, val),
        }
    }
}

impl Default for IdFilter {
    /// A filter that allows every item id.
    fn default() -> (r: Self)
        ensures
            r matches IdFilter::BlackList(l) && l@.len() == 0,
    {
        IdFilter::BlackList(Vec::new())
    }
}

impl TypeFilter {
    pub open spec fn permits(&self, id: Seq<char>) -> bool {
        match self {
            TypeFilter::WhiteList(l) => string_models(l@).contains(id),
            TypeFilter::BlackList(l) => !string_models(l@).contains(id),
        }
    }

    pub fn allows(&self, val: &String) -> (r: bool)
        ensures
            r == self.permits(val@),
    {
        match self {
            TypeFilter::WhiteList(l) => contains_string(l, val),
            TypeFilter::BlackList(l) => !contains_string(l, val),
        }
    }
}

impl Default for TypeFilter {
    /// A filter that allows every provider id.
    fn default() -> (r: Self)
        ensures
            r matches TypeFilter::BlackList(l) && l@.len() == 0,
    {
        TypeFilter::BlackList(Vec::new())
    }
}

/// The rule set of one notification sink or subscriber: a notification
/// passes only if all three sub-filters allow it.
pub struct Filter {
    pub reason_filter: ReasonFilter,
    pub id_filter: IdFilter,
    pub type_filter: TypeFilter,
}

impl Filter {
    /// Whether a notification raised by provider `source_type_id` passes.
    pub open spec fn permits(&self, source_type_id: Seq<char>, n: NotificationModel) -> bool {
        &&& self.reason_filter.permits(n.reason)
        &&& self.type_filter.permits(source_type_id)
        &&& self.id_filter.permits(n.item_id)
    }

    pub fn allows(&self, source_type_id: &String, notification: &Notification) -> (r: bool)
        ensures
            r == self.permits(source_type_id@, notification@),
    {
        self.reason_filter.allows(&notification.reason) && self.type_filter.allows(source_type_id)
            && self.id_filter.allows(&notification.item_id)
    }

    /// Whether the filter's reason rule allows `reason`.
    pub fn allows_reason(&self, reason: &NotificationReason) -> (r: bool)
        ensures
            r == self.reason_filter.permits(reason@),
    {
        self.reason_filter.allows(reason)
    }

    /// Whether this is the filter used when none is configured.
    pub open spec fn is_default(&self) -> bool {
        &&& self.reason_filter matches ReasonFilter::BlackList(l) && reason_models(l@) == seq![
            ReasonModel::Seen,
        ]
        &&& self.id_filter matches IdFilter::BlackList(l) && l@.len() == 0
        &&& self.type_filter matches TypeFilter::BlackList(l) && l@.len() == 0
    }
}

impl Default for Filter {
    /// Suppresses routine `Seen` notifications and allows everything else.
    fn default() -> (r: Self)
        ensures
            r.is_default(),
    {
        let mut reasons: Vec<NotificationReason> = Vec::new();
        reasons.push(NotificationReason::Seen);
        proof {
            assert(reason_models(reasons@) =~= seq![ReasonModel::Seen]);
        }
        Filter {
            reason_filter: ReasonFilter::BlackList(reasons),
            id_filter: IdFilter::default(),
            type_filter: TypeFilter::default(),
        }
    }
}

/// A reason blacklist that lists `Seen` stops every `Seen` notification, and
/// lets through every `WentOnline` and `WentOffline` notification that it does
/// not list itself and that the id and provider rules allow.
pub proof fn lemma_blacklisted_seen_never_passes(f: Filter, source_type_id: Seq<char>, n: NotificationModel)
    requires
        f.reason_filter is BlackList,
        f.reason_filter.listed().contains(ReasonModel::Seen),
    ensures
        n.reason == ReasonModel::Seen ==> !f.permits(source_type_id, n),
        (n.reason == ReasonModel::WentOnline || n.reason == ReasonModel::WentOffline)
            && !f.reason_filter.listed().contains(n.reason) && f.id_filter.permits(n.item_id)
            && f.type_filter.permits(source_type_id) ==> f.permits(source_type_id, n),
{
}

/// The filter used when none is configured stops `Seen` notifications and
/// lets every `WentOnline` and `WentOffline` notification through.
pub proof fn lemma_default_filter_passes_transitions_only(
    f: Filter,
    source_type_id: Seq<char>,
    n: NotificationModel,
)
    requires
        f.is_default(),
    ensures
        f.permits(source_type_id, n) <==> n.reason != ReasonModel::Seen,
{
    if let ReasonFilter::BlackList(l) = f.reason_filter {
        if n.reason != ReasonModel::Seen {
            assert(!reason_models(l@).contains(n.reason)) by {
                if reason_models(l@).contains(n.reason) {
                    let k = choose|k: int| 0 <= k < reason_models(l@).len() && reason_models(l@)[k] == n.reason;
                    assert(reason_models(l@)[k] == ReasonModel::Seen);
                }
            }
        } else {
            assert(reason_models(l@)[0] == ReasonModel::Seen);
        }
    }
}

/// A reason whitelist that lists nothing but `WentOffline` lets through only
/// `WentOffline` notifications (never `Seen` nor `WentOnline`), and every one
/// of them that the id and provider rules allow, if it lists anything at all.
pub proof fn lemma_offline_whitelist_passes_only_offline(f: Filter, source_type_id: Seq<char>, n: NotificationModel)
    requires
        f.reason_filter is WhiteList,
        forall|i: int| 0 <= i < f.reason_filter.listed().len() ==> f.reason_filter.listed()[i] == ReasonModel::WentOffline,
    ensures
        f.permits(source_type_id, n) ==> n.reason == ReasonModel::WentOffline,
        n.reason == ReasonModel::WentOffline && f.reason_filter.listed().len() > 0 && f.id_filter.permits(n.item_id)
            && f.type_filter.permits(source_type_id) ==> f.permits(source_type_id, n),
{
    if f.permits(source_type_id, n) {
        let k = choose|k: int| 0 <= k < f.reason_filter.listed().len() && f.reason_filter.listed()[k] == n.reason;
    }
    if n.reason == ReasonModel::WentOffline && f.reason_filter.listed().len() > 0 {
        assert(f.reason_filter.listed()[0] == n.reason);
    }
}

} // verus!
