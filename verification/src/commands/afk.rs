//! Away-from-keyboard notes.
use vstd::prelude::*;
use std::collections::HashMap;

verus! {

/// The note a user left when going away.
#[derive(Debug, Clone, PartialEq, Eq)]
pub struct AfkData {
    pub username: String,
    pub reason: String,
    /// When the user went away, in seconds since the epoch.
    pub timestamp: u64,
    pub avatar_url: String,
}

/// The mathematical value of [`AfkData`].
pub struct AfkModel {
    pub username: Seq<char>,
    pub reason: Seq<char>,
    pub timestamp: u64,
    pub avatar_url: Seq<char>,
}

impl View for AfkData {
    type V = AfkModel;

    open spec fn view(&self) -> AfkModel {
        AfkModel {
            username: self.username@,
            reason: self.reason@,
            timestamp: self.timestamp,
            avatar_url: self.avatar_url@,
        }
    }
}

impl AfkData {
    /// A copy of the note.
    pub fn duplicate(&self) -> (copy: AfkData)
        ensures
            copy@ == self@,
    {
        AfkData {
            username: self.username.clone(),
            reason: self.reason.clone(),
            timestamp: self.timestamp,
            avatar_url: self.avatar_url.clone(),
        }
    }
}

/// The users who are away, each with the note they left.
pub struct AfkUsers {
    users: HashMap<u64, AfkData>,
}

impl AfkUsers {
    /// The notes of the users who are away, by user.
    pub closed spec fn notes(&self) -> Map<u64, AfkModel> {
        Map::new(|id: u64| self.users@.contains_key(id), |id: u64| self.users@[id]@)
    }

    /// Nobody is away.
    pub fn new() -> (users: AfkUsers)
        ensures
            users.notes() == Map::<u64, AfkModel>::empty(),
    {
        let users = AfkUsers { users: HashMap::new() };
        assert(users.notes() =~= Map::<u64, AfkModel>::empty());
        users
    }

    /// Notes that a user is away; a note the user left before is replaced.
    pub fn afk(&mut self, user_id: u64, data: AfkData)
        ensures
            final(self).notes() == old(self).notes().insert(user_id, data@),
    {
        broadcast use vstd::std_specs::hash::group_hash_axioms;

        let ghost note = data@;
        self.users.insert(user_id, data);
        assert(self.notes() =~= old(self).notes().insert(user_id, note));
    }

    /// The note of a user who is away.
    pub fn get_afk_data(&self, user_id: u64) -> (data: Option<AfkData>)
        ensures
            match data {
                Some(note) => self.notes().contains_key(user_id) && self.notes()[user_id] == note@,
                None => !self.notes().contains_key(user_id),
            },
    {
        broadcast use vstd::std_specs::hash::group_hash_axioms;

        match self.users.get(&user_id) {
            Some(note) => Some(note.duplicate()),
            None => None,
        }
    }

    /// Notes that a user is back, and returns the note the user had left.
    pub fn remove_afk(&mut self, user_id: u64) -> (data: Option<AfkData>)
        ensures
            final(self).notes() == old(self).notes().remove(user_id),
            match data {
                Some(note) => old(self).notes().contains_key(user_id) && old(self).notes()[user_id]
                    == note@,
                None => !old(self).notes().contains_key(user_id),
            },
    {
        broadcast use vstd::std_specs::hash::group_hash_axioms;

        let data = self.users.remove(&user_id);
        assert(self.notes() =~= old(self).notes().remove(user_id));
        data
    }

    /// Whether a user is away.
    pub fn is_afk(&self, user_id: u64) -> (away: bool)
        ensures
            away == self.notes().contains_key(user_id),
    {
        broadcast use vstd::std_specs::hash::group_hash_axioms;

        self.users.contains_key(&user_id)
    }
}

/// The reason that is noted where a user gives none.
pub fn afk_reason(reason: Option<String>) -> (text: String)
    ensures
        text@ == match reason {
            Some(given) => given@,
            None => "AFK"@,
        },
{
    match reason {
        Some(given) => given,
        None => "AFK".to_string(),
    }
}

} // verus!
