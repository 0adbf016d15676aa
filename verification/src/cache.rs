//! The selection cache: the last-used username and session, globally
//! and per username.  The cache is a value; the caller persists each
//! slot wherever it likes and hands the state back on the next run.

use vstd::prelude::*;

use crate::text::{push_char, str_eq};

verus! {

/// The persisted last-used selections.  Reads report absence as a
/// normal outcome, never an error; writes only ever replace one slot.
pub struct SelectionCache {
    last_username: Option<String>,
    last_session: Option<String>,
    user_sessions: Vec<(String, String)>,
}

/// The mathematical value of a `SelectionCache`: the two global slots
/// and the per-username session map.
pub ghost struct CacheView {
    pub last_username: Option<Seq<char>>,
    pub last_session: Option<Seq<char>>,
    pub user_sessions: Map<Seq<char>, Seq<char>>,
}

/// The map held by an association list where later entries win.
pub open spec fn assoc_map(s: Seq<(Seq<char>, Seq<char>)>) -> Map<Seq<char>, Seq<char>>
    decreases s.len(),
{
    if s.len() == 0 {
        Map::empty()
    } else {
        assoc_map(s.drop_last()).insert(s.last().0, s.last().1)
    }
}

impl View for SelectionCache {
    type V = CacheView;

    closed spec fn view(&self) -> CacheView {
        CacheView {
            last_username: match self.last_username {
                Some(ref s) => Some(s@),
                None => None,
            },
            last_session: match self.last_session {
                Some(ref s) => Some(s@),
                None => None,
            },
            user_sessions: assoc_map(self.user_sessions.deep_view()),
        }
    }
}

/// A cache with nothing remembered yet.
pub open spec fn empty_cache() -> CacheView {
    CacheView { last_username: None, last_session: None, user_sessions: Map::empty() }
}

/// The state after remembering a username.
pub open spec fn with_username(v: CacheView, name: Seq<char>) -> CacheView {
    CacheView { last_username: Some(name), ..v }
}

/// The state after remembering a session.
pub open spec fn with_session(v: CacheView, session: Seq<char>) -> CacheView {
    CacheView { last_session: Some(session), ..v }
}

/// The state after remembering a session for one username.
pub open spec fn with_user_session(v: CacheView, name: Seq<char>, session: Seq<char>) -> CacheView {
    CacheView { user_sessions: v.user_sessions.insert(name, session), ..v }
}

/// The session remembered for one username, if any.
pub open spec fn user_session_of(v: CacheView, name: Seq<char>) -> Option<Seq<char>> {
    if v.user_sessions.contains_key(name) {
        Some(v.user_sessions[name])
    } else {
        None
    }
}

proof fn lemma_assoc_found(s: Seq<(Seq<char>, Seq<char>)>, k: Seq<char>, j: int)
    requires
        0 <= j < s.len(),
        s[j].0 == k,
        forall|l: int| j < l < s.len() ==> (#[trigger] s[l]).0 != k,
    ensures
        assoc_map(s).contains_key(k),
        assoc_map(s)[k] == s[j].1,
    decreases s.len(),
{
    if j < s.len() - 1 {
        assert(s.drop_last()[j] == s[j]);
        lemma_assoc_found(s.drop_last(), k, j);
    }
}

proof fn lemma_assoc_absent(s: Seq<(Seq<char>, Seq<char>)>, k: Seq<char>)
    requires
        forall|l: int| 0 <= l < s.len() ==> (#[trigger] s[l]).0 != k,
    ensures
        !assoc_map(s).contains_key(k),
    decreases s.len(),
{
    if s.len() > 0 {
        assert(s.drop_last().len() == s.len() - 1);
        assert(forall|l: int|
            0 <= l < s.drop_last().len() ==> (#[trigger] s.drop_last()[l]).0 != k);
        lemma_assoc_absent(s.drop_last(), k);
    }
}

impl SelectionCache {
    /// A cache with nothing remembered.
    pub fn new() -> (r: Self)
        ensures
            r@ == empty_cache(),
    {
        let r = SelectionCache { last_username: None, last_session: None, user_sessions: Vec::new() };
        proof {
            assert(r.user_sessions.deep_view() =~= Seq::<(Seq<char>, Seq<char>)>::empty());
            assert(r@.user_sessions =~= empty_cache().user_sessions);
        }
        r
    }

    /// The last username anyone logged in with, if one was remembered.
    pub fn get_last_username(&self) -> (r: Option<String>)
        ensures
            r.deep_view() == self@.last_username,
    {
        match &self.last_username {
            Some(s) => Some(s.clone()),
            None => None,
        }
    }

    /// Remembers the last username.
    pub fn write_last_username(&mut self, username: &str)
        ensures
            final(self)@ == with_username(old(self)@, username@),
    {
        self.last_username = Some(username.to_owned());
    }

    /// The last session anyone chose, if one was remembered.
    pub fn get_last_session(&self) -> (r: Option<String>)
        ensures
            r.deep_view() == self@.last_session,
    {
        match &self.last_session {
            Some(s) => Some(s.clone()),
            None => None,
        }
    }

    /// Remembers the last session.
    pub fn write_last_session(&mut self, session: &str)
        ensures
            final(self)@ == with_session(old(self)@, session@),
    {
        self.last_session = Some(session.to_owned());
    }

    /// The last session this username chose, if one was remembered.
    pub fn get_last_user_session(&self, username: &str) -> (r: Option<String>)
        ensures
            r.deep_view() == user_session_of(self@, username@),
    {
        let ghost s = self.user_sessions.deep_view();
        let mut i: usize = self.user_sessions.len();
        while i > 0
            invariant
                i <= self.user_sessions@.len(),
                s == self.user_sessions.deep_view(),
                forall|l: int| i <= l < s.len() ==> (#[trigger] s[l]).0 != username@,
            decreases i,
        {
            i = i - 1;
            proof {
                assert(s[i as int] == (self.user_sessions@[i as int].0@,
                    self.user_sessions@[i as int].1@));
            }
            if str_eq(self.user_sessions[i].0.as_str(), username) {
                proof {
                    lemma_assoc_found(s, username@, i as int);
                }
                return Some(self.user_sessions[i].1.clone());
            }
        }
        proof {
            lemma_assoc_absent(s, username@);
        }
        None
    }

    /// Remembers the session chosen by one username.
    pub fn write_last_user_session(&mut self, username: &str, session: &str)
        ensures
            final(self)@ == with_user_session(old(self)@, username@, session@),
    {
        let ghost old_entries = self.user_sessions.deep_view();
        self.user_sessions.push((username.to_owned(), session.to_owned()));
        proof {
            let entries = self.user_sessions.deep_view();
            assert(entries.drop_last() =~= old_entries);
            assert(entries.last() == (username@, session@));
            assert(self@.user_sessions =~= with_user_session(
                old(self)@,
                username@,
                session@,
            ).user_sessions);
        }
    }
}

/// The storage slot that holds one username's last session: the
/// session slot's base identifier, a dash, and the username.
pub fn user_session_slot(base: &str, username: &str) -> (r: String)
    ensures
        r@ == base@ + seq!['-'] + username@,
{
    let mut out = base.to_owned();
    push_char(&mut out, '-');
    out.append(username);
    proof {
        assert(base@.push('-') =~= base@ + seq!['-']);
    }
    out
}

/// Writing a username and then reading it back yields that username,
/// and touches no other slot.
pub proof fn lemma_username_round_trip(v: CacheView, name: Seq<char>)
    ensures
        with_username(v, name).last_username == Some(name),
        with_username(v, name).last_session == v.last_session,
        with_username(v, name).user_sessions == v.user_sessions,
{
}

/// Writing a session and then reading it back yields that session,
/// and touches no other slot.
pub proof fn lemma_session_round_trip(v: CacheView, session: Seq<char>)
    ensures
        with_session(v, session).last_session == Some(session),
        with_session(v, session).last_username == v.last_username,
        with_session(v, session).user_sessions == v.user_sessions,
{
}

/// Writing a per-user session and reading it back for the same user
/// yields that session; every other user's answer is unchanged.
pub proof fn lemma_user_session_round_trip(
    v: CacheView,
    name: Seq<char>,
    session: Seq<char>,
    other: Seq<char>,
)
    requires
        other != name,
    ensures
        user_session_of(with_user_session(v, name, session), name) == Some(session),
        user_session_of(with_user_session(v, name, session), other) == user_session_of(v, other),
{
}

/// Before anything was written, every read reports absence.
pub proof fn lemma_fresh_cache_absent(name: Seq<char>)
    ensures
        empty_cache().last_username is None,
        empty_cache().last_session is None,
        user_session_of(empty_cache(), name) is None,
{
}

} // verus!
