use vstd::prelude::*;

verus! {

/// A presence snapshot of one monitored entity, as a status provider reports
/// it. Timestamps are milliseconds since the Unix epoch, UTC.
#[derive(PartialEq, Eq, Debug)]
pub struct Status {
    pub name: String,
    pub is_online: bool,
    pub last_seen: Option<i64>,
}

/// The mathematical value of a [`Status`].
pub struct StatusModel {
    pub name: Seq<char>,
    pub is_online: bool,
    pub last_seen: Option<i64>,
}

impl View for Status {
    type V = StatusModel;

    open spec fn view(&self) -> StatusModel {
        StatusModel { name: self.name@, is_online: self.is_online, last_seen: self.last_seen }
    }
}

impl Clone for Status {
    fn clone(&self) -> (r: Self)
        ensures
            r@ == self@,
    {
        Status { name: self.name.clone(), is_online: self.is_online, last_seen: self.last_seen }
    }
}

/// The name under which an item is shown: its configured name if it has one,
/// else its id.
pub open spec fn shown_name(name: Option<Seq<char>>, id: Seq<char>) -> Seq<char> {
    match name {
        Some(n) => n,
        None => id,
    }
}

/// An optional string, as an optional character sequence.
pub open spec fn opt_chars(o: Option<String>) -> Option<Seq<char>> {
    match o {
        Some(s) => Some(s@),
        None => None,
    }
}

/// The configured name if there is one, else the id.
pub fn name_or_id(name: &Option<String>, id: &String) -> (r: String)
    ensures
        r@ == shown_name(opt_chars(*name), id@),
{
    match name {
        Some(n) => n.clone(),
        None => id.clone(),
    }
}

} // verus!
