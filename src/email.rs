use vstd::prelude::*;
use crate::filter::Filter;
use crate::notification::{reason_text, Notification, NotificationModel, NotificationReason, ReasonModel};

verus! {

/// The sender name used when none is configured.
pub fn default_name() -> (r: String)
    ensures
        r@ == "No Reply"@,
{
    "No Reply".to_string()
}

/// The subject of the alert for a notification from provider `source`.
pub open spec fn subject_of(source: Seq<char>, n: NotificationModel) -> Seq<char> {
    source + " `"@ + n.item_name + "` "@ + reason_text(n.reason)
}

/// The closing remark of an alert, by reason.
pub open spec fn remark_of(r: ReasonModel) -> Seq<char> {
    match r {
        ReasonModel::WentOnline => "Everything is fine :)"@,
        ReasonModel::WentOffline => "Might need to do something"@,
        ReasonModel::Seen => "Probably Ok"@,
        ReasonModel::Other(v) => v,
    }
}

/// The HTML body of the alert for a notification from provider `source`.
pub open spec fn body_of(source: Seq<char>, n: NotificationModel) -> Seq<char> {
    "<h1> The "@ + source + " <code>"@ + n.item_name + "</code> just "@ + reason_text(n.reason) + ".</h1>\n<p>"@
        + remark_of(n.reason) + "</p>\n"@
}

/// The subject line of the alert: `<source> `<item name>` <reason>`.
pub fn alert_subject(source_id: &String, notification: &Notification) -> (r: String)
    ensures
        r@ == subject_of(source_id@, notification@),
{
    let reason = notification.reason.text();
    let mut s = source_id.clone();
    s.append(" `");
    s.append(notification.item_name.as_str());
    s.append("` ");
    s.append(reason.as_str());
    s
}

/// The HTML body of the alert.
pub fn alert_body(source_id: &String, notification: &Notification) -> (r: String)
    ensures
        r@ == body_of(source_id@, notification@),
{
    let reason = notification.reason.text();
    let remark = match &notification.reason {
        NotificationReason::WentOnline => "Everything is fine :)".to_string(),
        NotificationReason::WentOffline => "Might need to do something".to_string(),
        NotificationReason::Seen => "Probably Ok".to_string(),
        NotificationReason::Other(v) => v.clone(),
    };
    let mut s = "<h1> The ".to_string();
    s.append(source_id.as_str());
    s.append(" <code>");
    s.append(notification.item_name.as_str());
    s.append("</code> just ");
    s.append(reason.as_str());
    s.append(".</h1>\n<p>");
    s.append(remark.as_str());
    s.append("</p>\n");
    s
}

/// A recipient of e-mail alerts: an address that gets every alert the
/// channel sends, or an address with its own filter.
pub enum Subscriber {
    Default(String),
    Custom { email: String, behaviour: Filter },
}

impl Subscriber {
    /// The address of the subscriber.
    pub open spec fn address(&self) -> Seq<char> {
        match self {
            Subscriber::Default(a) => a@,
            Subscriber::Custom { email, .. } => email@,
        }
    }

    /// Whether the subscriber wants a notification from provider `source`.
    pub open spec fn wants(&self, source: Seq<char>, n: NotificationModel) -> bool {
        match self {
            Subscriber::Default(_) => true,
            Subscriber::Custom { behaviour, .. } => behaviour.permits(source, n),
        }
    }

    pub fn get_email(&self) -> (r: &String)
        ensures
            r@ == self.address(),
    {
        match self {
            Subscriber::Default(address) => address,
            Subscriber::Custom { email, .. } => email,
        }
    }

    pub fn allows(&self, source_id: &String, notification: &Notification) -> (r: bool)
        ensures
            r == self.wants(source_id@, notification@),
    {
        match self {
            Subscriber::Custom { behaviour, .. } => behaviour.allows(source_id, notification),
            _ => true,
        }
    }
}

/// The addresses, in order, of the subscribers that want a notification.
pub open spec fn wanting(subs: Seq<Subscriber>, source: Seq<char>, n: NotificationModel) -> Seq<Seq<char>>
    decreases subs.len(),
{
    if subs.len() == 0 {
        seq![]
    } else if subs.last().wants(source, n) {
        wanting(subs.drop_last(), source, n).push(subs.last().address())
    } else {
        wanting(subs.drop_last(), source, n)
    }
}

/// Configuration of the e-mail channel. The filter, when present, applies to
/// the whole channel; when absent the default filter does.
pub struct Config {
    pub address: String,
    pub password: String,
    pub server: String,
    pub name: String,
    pub subscribers: Vec<Subscriber>,
    pub behaviour: Option<Filter>,
}

impl Default for Config {
    /// A channel with no server, no credentials and no subscribers.
    fn default() -> (r: Config)
        ensures
            r.address@.len() == 0,
            r.password@.len() == 0,
            r.server@.len() == 0,
            r.name@ == "No Reply"@,
            r.subscribers@.len() == 0,
            r.behaviour is None,
    {
        Config {
            address: String::new(),
            password: String::new(),
            server: String::new(),
            name: default_name(),
            subscribers: Vec::new(),
            behaviour: None,
        }
    }
}

impl Config {
    /// Whether the channel as a whole lets a notification through.
    pub open spec fn passes(&self, source: Seq<char>, n: NotificationModel) -> bool {
        match self.behaviour {
            Some(f) => f.permits(source, n),
            None => n.reason != crate::notification::ReasonModel::Seen,
        }
    }

    /// The addresses that an alert for `notification` from provider
    /// `source_id` goes to: none if the channel's filter stops it, else those
    /// of the subscribers that want it, in order.
    pub fn recipients(&self, source_id: &String, notification: &Notification) -> (r: Vec<String>)
        ensures
            r@.map_values(|s: String| s@) == if self.passes(source_id@, notification@) {
                wanting(self.subscribers@, source_id@, notification@)
            } else {
                Seq::<Seq<char>>::empty()
            },
    {
        let mut r: Vec<String> = Vec::new();
        let pass = match &self.behaviour {
            Some(f) => f.allows(source_id, notification),
            None => {
                let f = Filter::default();
                proof {
                    crate::filter::lemma_default_filter_passes_transitions_only(f, source_id@, notification@);
                }
                f.allows(source_id, notification)
            },
        };
        if !pass {
            assert(r@.map_values(|s: String| s@) =~= Seq::<Seq<char>>::empty());
            return r;
        }
        let ghost subs = self.subscribers@;
        let mut i: usize = 0;
        while i < self.subscribers.len()
            invariant
                subs == self.subscribers@,
                0 <= i <= subs.len(),
                r@.map_values(|s: String| s@) == wanting(subs.subrange(0, i as int), source_id@, notification@),
            decreases subs.len() - i,
        {
            let s = &self.subscribers[i];
            proof {
                assert(subs.subrange(0, i + 1).drop_last() =~= subs.subrange(0, i as int));
                assert(subs.subrange(0, i + 1).last() == subs[i as int]);
            }
            if s.allows(source_id, notification) {
                let a = s.get_email().clone();
                let ghost before = r@;
                r.push(a);
                proof {
                    assert(r@.map_values(|s: String| s@) =~= before.map_values(|s: String| s@).push(a@));
                }
            }
            i = i + 1;
        }
        proof {
            assert(subs.subrange(0, i as int) =~= subs);
        }
        r
    }
}

} // verus!
