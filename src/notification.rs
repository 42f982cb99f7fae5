use vstd::prelude::*;

verus! {

/// Why a notification was raised.
#[derive(PartialEq, Eq, Debug)]
pub enum NotificationReason {
    WentOnline,
    WentOffline,
    Seen,
    Other(String),
}

/// The mathematical value of a [`NotificationReason`].
pub enum ReasonModel {
    WentOnline,
    WentOffline,
    Seen,
    Other(Seq<char>),
}

impl View for NotificationReason {
    type V = ReasonModel;

    open spec fn view(&self) -> ReasonModel {
        match self {
            NotificationReason::WentOnline => ReasonModel::WentOnline,
            NotificationReason::WentOffline => ReasonModel::WentOffline,
            NotificationReason::Seen => ReasonModel::Seen,
            NotificationReason::Other(s) => ReasonModel::Other(s@),
        }
    }
}

impl Clone for NotificationReason {
    fn clone(&self) -> (r: Self)
        ensures
            r@ == self@,
    {
        match self {
            NotificationReason::WentOnline => NotificationReason::WentOnline,
            NotificationReason::WentOffline => NotificationReason::WentOffline,
            NotificationReason::Seen => NotificationReason::Seen,
            NotificationReason::Other(s) => NotificationReason::Other(s.clone()),
        }
    }
}

impl NotificationReason {
    /// Whether two reasons are the same reason.
    pub fn same_as(&self, o: &NotificationReason) -> (r: bool)
        ensures
            r == (self@ == o@),
    {
        match self {
            NotificationReason::WentOnline => match o {
                NotificationReason::WentOnline => true,
                _ => false,
            },
            NotificationReason::WentOffline => match o {
                NotificationReason::WentOffline => true,
                _ => false,
            },
            NotificationReason::Seen => match o {
                NotificationReason::Seen => true,
                _ => false,
            },
            NotificationReason::Other(a) => match o {
                NotificationReason::Other(b) => *a == *b,
                _ => false,
            },
        }
    }

    /// The phrase that completes "<item> ..." in a human-readable message.
    pub fn text(&self) -> (r: String)
        ensures
            r@ == reason_text(self@),
    {
        match self {
            NotificationReason::WentOnline => "went online".to_string(),
            NotificationReason::WentOffline => "went offline".to_string(),
            NotificationReason::Seen => "was seen".to_string(),
            NotificationReason::Other(s) => s.clone(),
        }
    }
}

/// The human-readable phrase of a reason.
pub open spec fn reason_text(r: ReasonModel) -> Seq<char> {
    match r {
        ReasonModel::WentOnline => "went online"@,
        ReasonModel::WentOffline => "went offline"@,
        ReasonModel::Seen => "was seen"@,
        ReasonModel::Other(s) => s,
    }
}

/// An event about one monitored item, raised by a status provider.
#[derive(PartialEq, Eq, Debug)]
pub struct Notification {
    pub item_name: String,
    pub item_id: String,
    pub reason: NotificationReason,
}

/// The mathematical value of a [`Notification`].
pub struct NotificationModel {
    pub item_name: Seq<char>,
    pub item_id: Seq<char>,
    pub reason: ReasonModel,
}

impl View for Notification {
    type V = NotificationModel;

    open spec fn view(&self) -> NotificationModel {
        NotificationModel { item_name: self.item_name@, item_id: self.item_id@, reason: self.reason@ }
    }
}

impl Clone for Notification {
    fn clone(&self) -> (r: Self)
        ensures
            r@ == self@,
    {
        Notification {
            item_name: self.item_name.clone(),
            item_id: self.item_id.clone(),
            reason: self.reason.clone(),
        }
    }
}

impl Notification {
    pub fn new(item_name: String, item_id: String, reason: NotificationReason) -> (r: Notification)
        ensures
            r@ == (NotificationModel { item_name: item_name@, item_id: item_id@, reason: reason@ }),
    {
        Notification { item_name, item_id, reason }
    }
}

} // verus!
