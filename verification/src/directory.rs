//! The shared user directory: an append-only sequence of registered users.
//!
//! Registration never deduplicates and nothing is ever removed; a lookup by
//! connection identity yields the first record with that identity, and the
//! nickname snapshot lists every nickname in registration order.

use vstd::prelude::*;

verus! {

/// One registered user: the connection identity it registered from, the
/// chosen nickname, and the online flag (always set at registration, never
/// cleared).
pub struct User {
    pub identity: u64,
    pub nickname: Vec<u8>,
    pub is_online: bool,
}

/// Mathematical view of a `User`.
pub struct UserView {
    pub identity: u64,
    pub nickname: Seq<u8>,
    pub is_online: bool,
}

impl View for User {
    type V = UserView;

    open spec fn view(&self) -> UserView {
        UserView { identity: self.identity, nickname: self.nickname@, is_online: self.is_online }
    }
}

/// The views of a sequence of users, in order.
pub open spec fn users_view(users: Seq<User>) -> Seq<UserView> {
    users.map_values(|u: User| u@)
}

/// The first user from position `i` on whose identity is `identity`.
pub open spec fn find_from(users: Seq<UserView>, identity: u64, i: int) -> Option<UserView>
    decreases users.len() - i,
{
    if i < 0 || i >= users.len() {
        None
    } else if users[i].identity == identity {
        Some(users[i])
    } else {
        find_from(users, identity, i + 1)
    }
}

/// The structurally first user with the given identity, if any.
pub open spec fn find_user(users: Seq<UserView>, identity: u64) -> Option<UserView> {
    find_from(users, identity, 0)
}

/// All nicknames in registration order.
pub open spec fn nicknames_of(users: Seq<UserView>) -> Seq<Seq<u8>> {
    users.map_values(|u: UserView| u.nickname)
}

/// The shared registry of users.
pub struct UserRepository {
    pub users: Vec<User>,
}

impl View for UserRepository {
    type V = Seq<UserView>;

    open spec fn view(&self) -> Seq<UserView> {
        users_view(self.users@)
    }
}

/// Appending a user appends its view.
pub proof fn lemma_users_view_push(users: Seq<User>, u: User)
    ensures
        users_view(users.push(u)) == users_view(users).push(u@),
{
    assert(users_view(users.push(u)) =~= users_view(users).push(u@));
}

/// Appending a user appends its nickname to the snapshot.
pub proof fn lemma_nicknames_push(users: Seq<UserView>, u: UserView)
    ensures
        nicknames_of(users.push(u)) == nicknames_of(users).push(u.nickname),
{
    assert(nicknames_of(users.push(u)) =~= nicknames_of(users).push(u.nickname));
}

/// Where no identity match exists, none is found from any position.
pub proof fn lemma_find_none_no_match(users: Seq<UserView>, identity: u64, i: int)
    requires
        0 <= i <= users.len(),
        find_from(users, identity, i) is None,
    ensures
        forall|k: int| i <= k < users.len() ==> users[k].identity != identity,
    decreases users.len() - i,
{
    if i < users.len() {
        lemma_find_none_no_match(users, identity, i + 1);
    }
}

/// A user appended behind unmatched records is the one found.
pub proof fn lemma_find_push_fresh(users: Seq<UserView>, identity: u64, u: UserView, i: int)
    requires
        0 <= i <= users.len(),
        forall|k: int| i <= k < users.len() ==> users[k].identity != identity,
        u.identity == identity,
    ensures
        find_from(users.push(u), identity, i) == Some(u),
    decreases users.len() - i,
{
    let pushed = users.push(u);
    if i < users.len() {
        assert(pushed[i] == users[i]);
        lemma_find_push_fresh(users, identity, u, i + 1);
    } else {
        assert(pushed[i] == u);
    }
}

/// A match found early is unaffected by a later append.
pub proof fn lemma_find_push_keeps(users: Seq<UserView>, identity: u64, u: UserView, i: int)
    requires
        0 <= i <= users.len(),
        find_from(users, identity, i) is Some,
    ensures
        find_from(users.push(u), identity, i) == find_from(users, identity, i),
    decreases users.len() - i,
{
    let pushed = users.push(u);
    if i < users.len() {
        assert(pushed[i] == users[i]);
        if users[i].identity != identity {
            lemma_find_push_keeps(users, identity, u, i + 1);
        }
    }
}

impl UserRepository {
    /// An empty directory.
    pub fn new() -> (r: UserRepository)
        ensures
            r@ == Seq::<UserView>::empty(),
    {
        let r = UserRepository { users: Vec::new() };
        proof {
            assert(users_view(r.users@) =~= Seq::<UserView>::empty());
        }
        r
    }

    /// Appends a new user record for this identity and nickname, marked
    /// online. Repeated registration from one identity appends again; it
    /// never replaces.
    pub fn register(&mut self, identity: u64, nickname: Vec<u8>)
        ensures
            final(self)@ == old(self)@.push(
                UserView { identity, nickname: nickname@, is_online: true },
            ),
    {
        let ghost nick = nickname@;
        let u = User { identity, nickname, is_online: true };
        proof {
            assert(u@ == UserView { identity, nickname: nick, is_online: true });
            lemma_users_view_push(self.users@, u);
        }
        self.users.push(u);
    }

    /// The structurally first user registered from this identity, or none.
    pub fn find_by_identity(&self, identity: u64) -> (r: Option<&User>)
        ensures
            match r {
                Some(u) => find_user(self@, identity) == Some(u@),
                None => find_user(self@, identity) is None,
            },
    {
        let n = self.users.len();
        let mut i: usize = 0;
        while i < n
            invariant
                n == self.users@.len(),
                i <= n,
                find_user(self@, identity) == find_from(self@, identity, i as int),
            decreases n - i,
        {
            proof {
                assert(self@[i as int] == self.users@[i as int]@);
            }
            if self.users[i].identity == identity {
                return Some(&self.users[i]);
            }
            i = i + 1;
        }
        None
    }

    /// Every nickname, in registration order.
    pub fn snapshot_nicknames(&self) -> (r: Vec<Vec<u8>>)
        ensures
            crate::envelope::seqs_view(r@) == nicknames_of(self@),
    {
        let n = self.users.len();
        let mut out: Vec<Vec<u8>> = Vec::new();
        let mut i: usize = 0;
        proof {
            assert(crate::envelope::seqs_view(out@) =~= nicknames_of(self@.take(0)));
        }
        while i < n
            invariant
                n == self.users@.len(),
                i <= n,
                crate::envelope::seqs_view(out@) == nicknames_of(self@.take(i as int)),
            decreases n - i,
        {
            let nick = crate::codec::clone_bytes(&self.users[i].nickname);
            proof {
                assert(self@[i as int] == self.users@[i as int]@);
                assert(nick@ == self@[i as int].nickname);
                crate::codec::lemma_seqs_view_push(out@, nick);
                assert(self@.take(i as int + 1) =~= self@.take(i as int).push(self@[i as int]));
                lemma_nicknames_push(self@.take(i as int), self@[i as int]);
            }
            out.push(nick);
            i = i + 1;
        }
        proof {
            assert(self@.take(n as int) =~= self@);
        }
        out
    }
}

} // verus!
