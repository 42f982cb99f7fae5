use vstd::prelude::*;
use crate::filter::Filter;
use crate::notification::{Notification, NotificationModel, ReasonModel, reason_text};
use crate::status::opt_chars;

verus! {

/// The template filled by the `strfmt` crate from `vars`, or `None` where it
/// fails (a malformed template, or a field with no value).
pub uninterp spec fn strfmt_of(template: Seq<char>, vars: Seq<(Seq<char>, Seq<char>)>) -> Option<Seq<char>>;

/// The views of a list of name/value pairs.
pub open spec fn pair_models(vars: Seq<(String, String)>) -> Seq<(Seq<char>, Seq<char>)> {
    vars.map_values(|p: (String, String)| (p.0@, p.1@))
}

/// Relies on `strfmt::strfmt`: fills the `{name}` fields of `template` from
/// `vars`; its result depends on the template and the pairs alone.
#[verifier::external_body]
fn strfmt_fill(template: &String, vars: &Vec<(String, String)>) -> (r: Option<String>)
    ensures
        match r {
            Some(s) => strfmt_of(template@, pair_models(vars@)) == Some(s@),
            None => strfmt_of(template@, pair_models(vars@)) is None,
        },
{
    let map: std::collections::HashMap<String, String> = vars.iter().cloned().collect();
    strfmt::strfmt(template, &map).ok()
}

/// The message template used when none is configured.
pub fn default_message() -> (r: String)
    ensures
        r@ == "{source_name} {reason}"@,
{
    "{source_name} {reason}".to_string()
}

/// The fields that a template may name, for a notification from provider
/// `type_id`.
pub open spec fn template_vars(type_id: Seq<char>, n: NotificationModel) -> Seq<(Seq<char>, Seq<char>)> {
    seq![
        ("type_id"@, type_id),
        ("reason"@, reason_text(n.reason)),
        ("source_id"@, n.item_id),
        ("source_name"@, n.item_name),
    ]
}

/// The fields that a template may name, for a notification from provider
/// `source_id`.
pub fn format_values(source_id: &String, notification: &Notification) -> (r: Vec<(String, String)>)
    ensures
        pair_models(r@) == template_vars(source_id@, notification@),
{
    let mut r: Vec<(String, String)> = Vec::new();
    r.push(("type_id".to_string(), source_id.clone()));
    r.push(("reason".to_string(), notification.reason.text()));
    r.push(("source_id".to_string(), notification.item_id.clone()));
    r.push(("source_name".to_string(), notification.item_name.clone()));
    assert(pair_models(r@) =~= template_vars(source_id@, notification@));
    r
}

/// A filled template, or the template itself where filling failed.
pub open spec fn filled_or_template(filled: Option<Seq<char>>, template: Seq<char>) -> Seq<char> {
    match filled {
        Some(s) => s,
        None => template,
    }
}

/// The text to send: the filled template when filling succeeded, else the
/// template unchanged.
pub fn text_or_template(filled: Option<String>, template: &String) -> (r: String)
    ensures
        r@ == filled_or_template(opt_chars(filled), template@),
{
    match filled {
        Some(s) => s,
        None => template.clone(),
    }
}

/// A template filled for a notification, falling back to the template.
pub open spec fn render(template: Seq<char>, type_id: Seq<char>, n: NotificationModel) -> Seq<char> {
    filled_or_template(strfmt_of(template, template_vars(type_id, n)), template)
}

/// Fills `template` for a notification from provider `source_id`; where the
/// template cannot be filled it is sent as it stands.
pub fn render_template(template: &String, source_id: &String, notification: &Notification) -> (r: String)
    ensures
        r@ == render(template@, source_id@, notification@),
{
    let vars = format_values(source_id, notification);
    let filled = strfmt_fill(template, &vars);
    text_or_template(filled, template)
}

/// One ntfy target: a server, a topic, the templates of title and message,
/// the message's options, and the filter and token of the target.
pub struct Config {
    pub base: String,
    pub topic: String,
    pub title: Option<String>,
    pub message: String,
    pub tags: Vec<String>,
    pub priority: Option<u8>,
    pub click: Option<String>,
    pub attach: Option<String>,
    pub markdown: Option<bool>,
    pub icon: Option<String>,
    pub filename: Option<String>,
    pub delay: Option<String>,
    pub email: Option<String>,
    pub call: Option<String>,
    pub behaviour: Option<Filter>,
    pub auth_token: Option<String>,
}

/// The JSON body of a message published to ntfy.
pub struct NotificationBody {
    pub topic: String,
    pub message: Option<String>,
    pub title: Option<String>,
    pub tags: Vec<String>,
    pub priority: Option<u8>,
    pub click: Option<String>,
    pub attach: Option<String>,
    pub markdown: Option<bool>,
    pub icon: Option<String>,
    pub filename: Option<String>,
    pub delay: Option<String>,
    pub email: Option<String>,
    pub call: Option<String>,
}

/// A message to publish: the body goes to `base`, with `auth_token` as bearer
/// token when present.
pub struct NtfyRequest {
    pub base: String,
    pub auth_token: Option<String>,
    pub body: NotificationBody,
}

fn clone_opt(o: &Option<String>) -> (r: Option<String>)
    ensures
        opt_chars(r) == opt_chars(*o),
{
    match o {
        Some(s) => Some(s.clone()),
        None => None,
    }
}

fn clone_strings(v: &Vec<String>) -> (r: Vec<String>)
    ensures
        r@.map_values(|s: String| s@) == v@.map_values(|s: String| s@),
{
    let mut r: Vec<String> = Vec::new();
    let mut i: usize = 0;
    while i < v.len()
        invariant
            0 <= i <= v.len(),
            r@.map_values(|s: String| s@) == v@.subrange(0, i as int).map_values(|s: String| s@),
        decreases v.len() - i,
    {
        r.push(v[i].clone());
        proof {
            assert(v@.subrange(0, i + 1).map_values(|s: String| s@) =~= v@.subrange(0, i as int).map_values(
                |s: String| s@,
            ).push(v@[i as int]@));
        }
        i = i + 1;
    }
    assert(v@.subrange(0, i as int) =~= v@);
    r
}

/// Whether `req` is the message of target `c` for a notification from
/// provider `source`: the target's server, token and options, with title and
/// message filled in.
pub open spec fn is_request_for(req: NtfyRequest, c: Config, source: Seq<char>, n: NotificationModel) -> bool {
    &&& req.base@ == c.base@
    &&& opt_chars(req.auth_token) == opt_chars(c.auth_token)
    &&& req.body.topic@ == c.topic@
    &&& req.body.message matches Some(m) && m@ == render(c.message@, source, n)
    &&& match c.title {
        Some(t) => req.body.title matches Some(x) && x@ == render(t@, source, n),
        None => req.body.title is None,
    }
    &&& req.body.tags@.map_values(|s: String| s@) == c.tags@.map_values(|s: String| s@)
    &&& req.body.priority == c.priority
    &&& opt_chars(req.body.click) == opt_chars(c.click)
    &&& opt_chars(req.body.attach) == opt_chars(c.attach)
    &&& req.body.markdown == c.markdown
    &&& opt_chars(req.body.icon) == opt_chars(c.icon)
    &&& opt_chars(req.body.filename) == opt_chars(c.filename)
    &&& opt_chars(req.body.delay) == opt_chars(c.delay)
    &&& opt_chars(req.body.email) == opt_chars(c.email)
    &&& opt_chars(req.body.call) == opt_chars(c.call)
}

impl Config {
    /// Whether this target lets a notification through; the default filter
    /// applies when the target has none.
    pub open spec fn passes(&self, source: Seq<char>, n: NotificationModel) -> bool {
        match self.behaviour {
            Some(f) => f.permits(source, n),
            None => n.reason != ReasonModel::Seen,
        }
    }

    /// Whether this target lets a notification through.
    pub fn allows(&self, source_id: &String, notification: &Notification) -> (r: bool)
        ensures
            r == self.passes(source_id@, notification@),
    {
        match &self.behaviour {
            Some(f) => f.allows(source_id, notification),
            None => {
                let f = Filter::default();
                proof {
                    crate::filter::lemma_default_filter_passes_transitions_only(f, source_id@, notification@);
                }
                f.allows(source_id, notification)
            },
        }
    }

    /// The message for a notification from `source_id`: the options of this
    /// target, with title and message filled in.
    pub fn request_for(&self, source_id: &String, notification: &Notification) -> (r: NtfyRequest)
        ensures
            is_request_for(r, *self, source_id@, notification@),
    {
        let title = match &self.title {
            Some(t) => Some(render_template(t, source_id, notification)),
            None => None,
        };
        let message = render_template(&self.message, source_id, notification);
        NtfyRequest {
            base: self.base.clone(),
            auth_token: clone_opt(&self.auth_token),
            body: NotificationBody {
                topic: self.topic.clone(),
                message: Some(message),
                title,
                tags: clone_strings(&self.tags),
                priority: self.priority,
                click: clone_opt(&self.click),
                attach: clone_opt(&self.attach),
                markdown: self.markdown,
                icon: clone_opt(&self.icon),
                filename: clone_opt(&self.filename),
                delay: clone_opt(&self.delay),
                email: clone_opt(&self.email),
                call: clone_opt(&self.call),
            },
        }
    }
}

/// The ntfy channel: one message per configured target that lets the
/// notification through.
pub struct NtfyNotificationProvider {
    pub config: Vec<Config>,
}

/// The indices, in order, of the targets that let a notification through.
pub open spec fn passing(targets: Seq<Config>, source: Seq<char>, n: NotificationModel) -> Seq<int>
    decreases targets.len(),
{
    if targets.len() == 0 {
        seq![]
    } else if targets.last().passes(source, n) {
        passing(targets.drop_last(), source, n).push(targets.len() - 1)
    } else {
        passing(targets.drop_last(), source, n)
    }
}

proof fn lemma_passing_prefix(targets: Seq<Config>, i: int, source: Seq<char>, n: NotificationModel)
    requires
        0 <= i < targets.len(),
    ensures
        passing(targets.subrange(0, i + 1), source, n) == if targets[i].passes(source, n) {
            passing(targets.subrange(0, i), source, n).push(i)
        } else {
            passing(targets.subrange(0, i), source, n)
        },
{
    assert(targets.subrange(0, i + 1).drop_last() =~= targets.subrange(0, i));
}

impl NtfyNotificationProvider {
    /// The messages to publish for a notification from provider `source_id`:
    /// for each target that lets it through, in order, that target's message.
    pub fn send(&self, source_id: &String, notification: &Notification) -> (r: Vec<NtfyRequest>)
        ensures
            r@.len() == passing(self.config@, source_id@, notification@).len(),
            forall|k: int|
                0 <= k < r@.len() ==> is_request_for(
                    #[trigger] r@[k],
                    self.config@[passing(self.config@, source_id@, notification@)[k]],
                    source_id@,
                    notification@,
                ),
    {
        let ghost cs = self.config@;
        let mut r: Vec<NtfyRequest> = Vec::new();
        let mut i: usize = 0;
        while i < self.config.len()
            invariant
                cs == self.config@,
                0 <= i <= cs.len(),
                r@.len() == passing(cs.subrange(0, i as int), source_id@, notification@).len(),
                forall|k: int|
                    0 <= k < r@.len() ==> 0 <= #[trigger] passing(cs.subrange(0, i as int), source_id@, notification@)[k] < i,
                forall|k: int|
                    0 <= k < r@.len() ==> is_request_for(
                        #[trigger] r@[k],
                        cs[passing(cs.subrange(0, i as int), source_id@, notification@)[k]],
                        source_id@,
                        notification@,
                    ),
            decreases cs.len() - i,
        {
            proof {
                lemma_passing_prefix(cs, i as int, source_id@, notification@);
            }
            let c = &self.config[i];
            if c.allows(source_id, notification) {
                let req = c.request_for(source_id, notification);
                r.push(req);
            }
            i = i + 1;
        }
        proof {
            assert(cs.subrange(0, i as int) =~= cs);
        }
        r
    }
}

} // verus!
