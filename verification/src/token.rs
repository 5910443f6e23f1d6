//! The token queue for one channel: an ordered, duplicate-free line of
//! users. The user at position 0 holds the token; the rest are waiting.

use vstd::prelude::*;
use vstd::string::StringExecFns;

verus! {

broadcast use vstd::std_specs::vecdeque::group_vec_dequeue_axioms;

/// One participant: a stable identifier and a display name.
/// Two users are the same participant exactly when their identifiers match;
/// the display name carries no identity.
#[derive(Debug)]
pub struct User {
    user_id: String,
    user_name: String,
}

impl User {
    /// The stable identifier, as a sequence of characters.
    pub closed spec fn id(&self) -> Seq<char> {
        self.user_id@
    }

    /// The display name, as a sequence of characters.
    pub closed spec fn name(&self) -> Seq<char> {
        self.user_name@
    }

    pub fn new(user_id: String, user_name: String) -> (r: User)
        ensures
            r.id() == user_id@,
            r.name() == user_name@,
    {
        User { user_id, user_name }
    }

    /// Renders the user in Slack's `<@id|name>` mention form.
    pub fn as_slack_str(&self) -> (r: String)
        ensures
            r@ == slack_mention(*self),
    {
        let mut s = String::from_str("<@");
        s.append(self.user_id.as_str());
        s.append("|");
        s.append(self.user_name.as_str());
        s.append(">");
        s
    }
}

impl Clone for User {
    fn clone(&self) -> (r: User)
        ensures
            r == *self,
    {
        User { user_id: self.user_id.clone(), user_name: self.user_name.clone() }
    }
}

impl PartialEq for User {
    /// Equality is defined solely by the stable identifier.
    fn eq(&self, other: &User) -> (r: bool)
    {
        self.user_id == other.user_id
    }
}

impl vstd::std_specs::cmp::PartialEqSpecImpl for User {
    open spec fn obeys_eq_spec() -> bool {
        true
    }

    open spec fn eq_spec(&self, other: &User) -> bool {
        self.id() == other.id()
    }
}

/// The ways a queue operation can fail. All are expected, recoverable,
/// user-facing conditions; the queue is left unchanged by a failing
/// operation.
#[derive(Debug, Clone, Copy, PartialEq, Eq)]
pub enum QueueError {
    /// `get`: the user is already somewhere in the queue.
    AlreadyQueued,
    /// `drop`, `step_back`, `to_front`, `steal`: the user is not in the queue.
    NotQueued,
    /// `step_back`: the user is already last and cannot move further back.
    AtEnd,
    /// `to_front`, `steal`: the user already holds the token (position 0).
    AlreadyHolding,
    /// `to_front`: the user is already directly behind the holder (position 1).
    AlreadyNext,
    /// Registry access: the shared lock could not be acquired. The verified
    /// in-process lock used here never fails, so no operation of this crate
    /// returns it; it exists so the transport layer can surface a poisoned
    /// lock distinctly from the domain errors above.
    LockFailure,
}

/// The user-facing message for each error, exactly as the transport layer
/// shows it.
pub open spec fn spec_message(e: QueueError) -> Seq<char> {
    match e {
        QueueError::AlreadyQueued => "You are already in the queue!"@,
        QueueError::NotQueued => "You are not in the queue!"@,
        QueueError::AtEnd => "You are at the end of the queue!"@,
        QueueError::AlreadyHolding => "You are already holding the token!"@,
        QueueError::AlreadyNext => "You are already at the start of the queue!"@,
        QueueError::LockFailure => "unable to lock token"@,
    }
}

impl QueueError {
    /// The user-facing message for this error.
    pub fn message(&self) -> (r: &'static str)
        ensures
            r@ == spec_message(*self),
    {
        match self {
            QueueError::AlreadyQueued => "You are already in the queue!",
            QueueError::NotQueued => "You are not in the queue!",
            QueueError::AtEnd => "You are at the end of the queue!",
            QueueError::AlreadyHolding => "You are already holding the token!",
            QueueError::AlreadyNext => "You are already at the start of the queue!",
            QueueError::LockFailure => "unable to lock token",
        }
    }
}

/// The user rendered in Slack's `<@id|name>` mention form.
pub open spec fn slack_mention(u: User) -> Seq<char> {
    "<@"@ + u.id() + "|"@ + u.name() + ">"@
}

/// Whether some member of `s` has the identifier `id`.
pub open spec fn has_user_id(s: Seq<User>, id: Seq<char>) -> bool {
    exists|i: int| 0 <= i < s.len() && s[i].id() == id
}

/// Whether no two members of `s` share an identifier.
pub open spec fn unique_ids(s: Seq<User>) -> bool {
    forall|i: int, j: int| 0 <= i < j < s.len() ==> s[i].id() != s[j].id()
}

/// The position of the member with identifier `id`; meaningful only when
/// `has_user_id(s, id)` holds (and unambiguous when `unique_ids(s)` holds).
pub open spec fn index_of_id(s: Seq<User>, id: Seq<char>) -> int {
    choose|i: int| 0 <= i < s.len() && s[i].id() == id
}

/// `s` with the members at positions `i` and `j` exchanged.
pub open spec fn swap_seq(s: Seq<User>, i: int, j: int) -> Seq<User> {
    s.update(i, s[j]).update(j, s[i])
}

/// What `Token::get` returns and leaves behind: append `u` at the tail,
/// unless a member already carries its identifier.
pub open spec fn spec_get(s: Seq<User>, u: User) -> (Result<(), QueueError>, Seq<User>) {
    if has_user_id(s, u.id()) {
        (Err(QueueError::AlreadyQueued), s)
    } else {
        (Ok(()), s.push(u))
    }
}

/// What `Token::drop` returns and leaves behind: remove the member with
/// identifier `id`, keeping the relative order of the rest.
pub open spec fn spec_drop(s: Seq<User>, id: Seq<char>) -> (Result<(), QueueError>, Seq<User>) {
    if !has_user_id(s, id) {
        (Err(QueueError::NotQueued), s)
    } else {
        (Ok(()), s.remove(index_of_id(s, id)))
    }
}

/// What `Token::step_back` returns and leaves behind: exchange the member
/// with identifier `id` with its immediate successor.
pub open spec fn spec_step_back(s: Seq<User>, id: Seq<char>) -> (Result<(), QueueError>, Seq<User>) {
    if !has_user_id(s, id) {
        (Err(QueueError::NotQueued), s)
    } else {
        let i = index_of_id(s, id);
        if i >= s.len() - 1 {
            (Err(QueueError::AtEnd), s)
        } else {
            (Ok(()), swap_seq(s, i, i + 1))
        }
    }
}

/// What `Token::to_front` returns and leaves behind: exchange the member
/// with identifier `id` with whoever stands at position 1, directly behind
/// the holder.
pub open spec fn spec_to_front(s: Seq<User>, id: Seq<char>) -> (Result<(), QueueError>, Seq<User>) {
    if !has_user_id(s, id) {
        (Err(QueueError::NotQueued), s)
    } else {
        let i = index_of_id(s, id);
        if i == 0 {
            (Err(QueueError::AlreadyHolding), s)
        } else if i == 1 {
            (Err(QueueError::AlreadyNext), s)
        } else {
            (Ok(()), swap_seq(s, 1, i))
        }
    }
}

/// What `Token::steal` returns and leaves behind: exchange the member with
/// identifier `id` into position 0, then remove the entry now at its old
/// position — the displaced former holder leaves the queue entirely and is
/// returned. This swap-then-remove rule is deliberate: the stolen-from
/// user is not merely moved to the thief's old slot but dropped from the
/// line altogether.
pub open spec fn spec_steal(s: Seq<User>, id: Seq<char>) -> (Result<User, QueueError>, Seq<User>) {
    if !has_user_id(s, id) {
        (Err(QueueError::NotQueued), s)
    } else {
        let i = index_of_id(s, id);
        if i == 0 {
            (Err(QueueError::AlreadyHolding), s)
        } else {
            (Ok(s[0]), swap_seq(s, 0, i).remove(i))
        }
    }
}

/// Distinct positions of a duplicate-free queue hold distinct identifiers,
/// so any two positions carrying the same identifier coincide.
pub proof fn lemma_index_unique(s: Seq<User>, i: int, j: int)
    requires
        unique_ids(s),
        0 <= i < s.len(),
        0 <= j < s.len(),
        s[i].id() == s[j].id(),
    ensures
        i == j,
{
    if i < j {
        assert(s[i].id() != s[j].id());
    }
    if j < i {
        assert(s[j].id() != s[i].id());
    }
}

/// Removing a member keeps identifiers pairwise distinct.
pub proof fn lemma_unique_remove(s: Seq<User>, i: int)
    requires
        unique_ids(s),
        0 <= i < s.len(),
    ensures
        unique_ids(s.remove(i)),
{
    let t = s.remove(i);
    assert forall|a: int, b: int| 0 <= a < b < t.len() implies t[a].id() != t[b].id() by {
        let a0 = if a < i { a } else { a + 1 };
        let b0 = if b < i { b } else { b + 1 };
        assert(t[a] == s[a0]);
        assert(t[b] == s[b0]);
        assert(s[a0].id() != s[b0].id());
    }
}

/// Exchanging two members keeps identifiers pairwise distinct.
pub proof fn lemma_unique_swap(s: Seq<User>, i: int, j: int)
    requires
        unique_ids(s),
        0 <= i < s.len(),
        0 <= j < s.len(),
    ensures
        unique_ids(swap_seq(s, i, j)),
{
    let t = swap_seq(s, i, j);
    assert forall|a: int, b: int| 0 <= a < b < t.len() implies t[a].id() != t[b].id() by {
        let a0 = if a == i { j } else if a == j { i } else { a };
        let b0 = if b == i { j } else if b == j { i } else { b };
        assert(t[a] == s[a0]);
        assert(t[b] == s[b0]);
        if a0 < b0 {
            assert(s[a0].id() != s[b0].id());
        } else {
            assert(s[b0].id() != s[a0].id());
        }
    }
}

/// Join/leave inverse: appending a user not yet present and then removing
/// that user restores the exact prior ordered sequence, and both steps
/// succeed.
pub proof fn lemma_get_then_drop(s: Seq<User>, u: User)
    requires
        unique_ids(s),
        !has_user_id(s, u.id()),
    ensures
        spec_get(s, u).0 is Ok,
        spec_drop(spec_get(s, u).1, u.id()).0 is Ok,
        spec_drop(spec_get(s, u).1, u.id()).1 == s,
{
    let s1 = s.push(u);
    assert(s1[s.len() as int] == u);
    assert(has_user_id(s1, u.id()));
    let i = index_of_id(s1, u.id());
    assert(0 <= i < s1.len() && s1[i].id() == u.id());
    if i < s.len() {
        assert(s[i] == s1[i]);
        assert(0 <= i < s.len() && s[i].id() == u.id());
        assert(false);
    }
    assert(s1.remove(s.len() as int) =~= s);
}

/// The waiting line for one channel's token. The member at position 0, if
/// any, holds the token. Invariant: no two members share an identifier.
pub struct Token {
    users: std::collections::VecDeque<User>,
}

impl View for Token {
    type V = Seq<User>;

    closed spec fn view(&self) -> Seq<User> {
        self.users@
    }
}

impl Token {
    /// The queue's invariant: member identifiers are pairwise distinct.
    pub open spec fn wf(&self) -> bool {
        unique_ids(self@)
    }

    /// Constructs a new, empty queue: no holder, no waiters.
    pub fn new() -> (r: Token)
        ensures
            r@ == Seq::<User>::empty(),
            r.wf(),
    {
        let users = std::collections::VecDeque::new();
        Token { users }
    }

    /// Count of members; 0 means nobody holds the token.
    pub fn len(&self) -> (r: usize)
        ensures
            r == self@.len(),
    {
        self.users.len()
    }

    /// The position of the member with `user`'s identifier, scanning from
    /// the front, or `None` if no member carries it.
    fn position_of(&self, user: &User) -> (r: Option<usize>)
        ensures
            match r {
                Some(i) => {
                    &&& i < self@.len()
                    &&& self@[i as int].id() == user.id()
                    &&& forall|k: int| 0 <= k < i ==> self@[k].id() != user.id()
                },
                None => !has_user_id(self@, user.id()),
            },
    {
        let n = self.users.len();
        let mut i: usize = 0;
        while i < n
            invariant
                n == self@.len(),
                i <= n,
                forall|k: int| 0 <= k < i ==> self@[k].id() != user.id(),
            decreases n - i,
        {
            if self.users[i].user_id == user.user_id {
                return Some(i);
            }
            i = i + 1;
        }
        None
    }

    /// Appends `user` at the tail of the queue; rejects a user whose
    /// identifier is already present, leaving the queue unchanged. If the
    /// queue was empty, the new member immediately holds the token.
    pub fn get(&mut self, user: User) -> (r: Result<(), QueueError>)
        requires
            old(self).wf(),
        ensures
            final(self).wf(),
            r == spec_get(old(self)@, user).0,
            final(self)@ == spec_get(old(self)@, user).1,
    {
        match self.position_of(&user) {
            None => {
                self.users.push_back(user);
                Ok(())
            },
            Some(_) => Err(QueueError::AlreadyQueued),
        }
    }

    /// Exchanges the members at positions `i` and `j`, `i < j`.
    fn swap(&mut self, i: usize, j: usize)
        requires
            i < j,
            j < old(self)@.len(),
        ensures
            final(self)@ == swap_seq(old(self)@, i as int, j as int),
    {
        let b = self.users.remove(j).unwrap();
        let a = self.users.remove(i).unwrap();
        self.users.insert(i, b);
        self.users.insert(j, a);
        proof {
            assert(final(self)@ =~= swap_seq(old(self)@, i as int, j as int));
        }
    }

    /// Removes the member carrying `user`'s identifier, keeping the relative
    /// order of the rest; rejects a user whose identifier is absent, leaving
    /// the queue unchanged.
    pub fn drop(&mut self, user: &User) -> (r: Result<(), QueueError>)
        requires
            old(self).wf(),
        ensures
            final(self).wf(),
            r == spec_drop(old(self)@, user.id()).0,
            final(self)@ == spec_drop(old(self)@, user.id()).1,
    {
        match self.position_of(user) {
            Some(i) => {
                proof {
                    assert(has_user_id(self@, user.id()));
                    lemma_index_unique(self@, i as int, index_of_id(self@, user.id()));
                    lemma_unique_remove(self@, i as int);
                }
                self.users.remove(i);
                Ok(())
            },
            None => Err(QueueError::NotQueued),
        }
    }

    /// Moves the member carrying `user`'s identifier one position toward the
    /// tail, by a strict pairwise exchange with its immediate successor.
    /// Rejects an absent user, and a user already at the very end.
    pub fn step_back(&mut self, user: &User) -> (r: Result<(), QueueError>)
        requires
            old(self).wf(),
        ensures
            final(self).wf(),
            r == spec_step_back(old(self)@, user.id()).0,
            final(self)@ == spec_step_back(old(self)@, user.id()).1,
    {
        match self.position_of(user) {
            Some(pos) => {
                proof {
                    assert(has_user_id(self@, user.id()));
                    lemma_index_unique(self@, pos as int, index_of_id(self@, user.id()));
                }
                if pos >= self.users.len() - 1 {
                    Err(QueueError::AtEnd)
                } else {
                    proof {
                        lemma_unique_swap(self@, pos as int, pos as int + 1);
                    }
                    self.swap(pos, pos + 1);
                    Ok(())
                }
            },
            None => Err(QueueError::NotQueued),
        }
    }

    /// Moves the member carrying `user`'s identifier to position 1, directly
    /// behind the holder, by exchanging it with whoever stands there.
    /// Rejects an absent user, the current holder, and a user already at
    /// position 1.
    pub fn to_front(&mut self, user: &User) -> (r: Result<(), QueueError>)
        requires
            old(self).wf(),
        ensures
            final(self).wf(),
            r == spec_to_front(old(self)@, user.id()).0,
            final(self)@ == spec_to_front(old(self)@, user.id()).1,
    {
        match self.position_of(user) {
            Some(pos) => {
                proof {
                    assert(has_user_id(self@, user.id()));
                    lemma_index_unique(self@, pos as int, index_of_id(self@, user.id()));
                }
                if pos == 0 {
                    Err(QueueError::AlreadyHolding)
                } else if pos == 1 {
                    Err(QueueError::AlreadyNext)
                } else {
                    proof {
                        lemma_unique_swap(self@, 1, pos as int);
                    }
                    self.swap(1, pos);
                    Ok(())
                }
            },
            None => Err(QueueError::NotQueued),
        }
    }

    /// Forcibly takes the holder position: exchanges the member carrying
    /// `user`'s identifier with the holder, then removes the entry now at
    /// the member's old position. The displaced former holder thus leaves
    /// the queue entirely and is returned, so the caller may announce who
    /// lost the token. Rejects an absent user and the current holder.
    pub fn steal(&mut self, user: &User) -> (r: Result<User, QueueError>)
        requires
            old(self).wf(),
        ensures
            final(self).wf(),
            r == spec_steal(old(self)@, user.id()).0,
            final(self)@ == spec_steal(old(self)@, user.id()).1,
    {
        match self.position_of(user) {
            Some(pos) => {
                proof {
                    assert(has_user_id(self@, user.id()));
                    lemma_index_unique(self@, pos as int, index_of_id(self@, user.id()));
                }
                if pos == 0 {
                    Err(QueueError::AlreadyHolding)
                } else {
                    proof {
                        lemma_unique_swap(self@, 0, pos as int);
                        lemma_unique_remove(swap_seq(self@, 0, pos as int), pos as int);
                    }
                    self.swap(0, pos);
                    let displaced = self.users.remove(pos).unwrap();
                    Ok(displaced)
                }
            },
            None => Err(QueueError::NotQueued),
        }
    }

    /// The ordered membership at the instant of the call, front first, as
    /// an owned list.
    pub fn iter(&self) -> (r: Vec<User>)
        ensures
            r@ == self@,
    {
        let n = self.users.len();
        let mut out: Vec<User> = Vec::new();
        let mut i: usize = 0;
        while i < n
            invariant
                n == self@.len(),
                i <= n,
                out@ == self@.subrange(0, i as int),
            decreases n - i,
        {
            out.push(self.users[i].clone());
            proof {
                assert(out@ =~= self@.subrange(0, i as int + 1));
            }
            i = i + 1;
        }
        proof {
            assert(out@ =~= self@);
        }
        out
    }

    /// The display names of the members, front first.
    pub fn list_user_name<'a>(&'a self) -> (r: Vec<&'a str>)
        ensures
            r@.len() == self@.len(),
            forall|i: int| 0 <= i < self@.len() ==> r@[i]@ == self@[i].name(),
    {
        let n = self.users.len();
        let mut out: Vec<&str> = Vec::new();
        let mut i: usize = 0;
        while i < n
            invariant
                n == self@.len(),
                i <= n,
                out@.len() == i,
                forall|k: int| 0 <= k < i ==> out@[k]@ == self@[k].name(),
            decreases n - i,
        {
            out.push(self.users[i].user_name.as_str());
            i = i + 1;
        }
        out
    }

    /// Tests whether `user` holds the token, i.e. stands at position 0.
    pub fn is_holding(&self, user: &User) -> (r: bool)
        ensures
            r == (self@.len() > 0 && self@[0].id() == user.id()),
    {
        if self.users.len() == 0 {
            false
        } else {
            self.users[0].user_id == user.user_id
        }
    }
}

} // verus!
