use vstd::prelude::*;
use crate::auth::{argon2_accepts, check_credentials, registration, AuthError, MAX_PASSWORD_CHARS};
use crate::token::{token_claims, Claims};
use crate::models::User;

verus! {

/// An in-process store of accounts. The account at position `i` has the
/// user identifier `i + 1`; no two accounts share a username.
pub struct UserDirectory {
    users: Vec<User>,
}

impl UserDirectory {
    /// The accounts as (username, password hash) pairs, by position.
    pub closed spec fn accounts(&self) -> Seq<(Seq<char>, Seq<char>)> {
        self.users@.map_values(|u: User| (u.username@, u.password_hash@))
    }

    /// Whether the account at position `i` is named `name`.
    pub open spec fn holds(&self, i: int, name: Seq<char>) -> bool {
        0 <= i < self.accounts().len() && self.accounts()[i].0 == name
    }

    /// Whether some account is named `name`.
    pub open spec fn has(&self, name: Seq<char>) -> bool {
        exists|i: int| self.holds(i, name)
    }

    /// What a login of `name` with `password` comes to: `NotFound` where no
    /// account has that name, else the account's user identifier where
    /// Argon2 accepts the password against its hash, else
    /// `InvalidCredential`.
    pub open spec fn login_outcome(&self, name: Seq<char>, password: Seq<char>) -> Result<
        i32,
        AuthError,
    > {
        if !self.has(name) {
            Err(AuthError::NotFound)
        } else {
            let i = choose|i: int| self.holds(i, name);
            if argon2_accepts(password, self.accounts()[i].1) {
                Ok((i + 1) as i32)
            } else {
                Err(AuthError::InvalidCredential)
            }
        }
    }

    /// The store's invariant: usernames are unique.
    pub open spec fn wf(&self) -> bool {
        forall|i: int, j: int|
            0 <= i < self.accounts().len() && 0 <= j < self.accounts().len() && i != j
                ==> #[trigger] self.accounts()[i].0 != #[trigger] self.accounts()[j].0
    }

    /// An empty store.
    pub fn new() -> (r: UserDirectory)
        ensures
            r.wf(),
            r.accounts().len() == 0,
    {
        let r = UserDirectory { users: Vec::new() };
        assert(r.accounts().len() == 0);
        r
    }

    /// The position of the account named `username`, if there is one.
    fn position(&self, username: &String) -> (r: Option<usize>)
        ensures
            match r {
                Some(i) => self.holds(i as int, username@),
                None => !self.has(username@),
            },
    {
        let mut i: usize = 0;
        while i < self.users.len()
            invariant
                0 <= i <= self.users@.len(),
                forall|k: int| 0 <= k < i ==> !self.holds(k, username@),
            decreases self.users@.len() - i,
        {
            if self.users[i].username == *username {
                return Some(i);
            }
            i = i + 1;
        }
        None
    }

    /// Registers `username` with `password`, returning its user identifier.
    /// A name already taken is refused and the store left as it was.
    pub fn register(&mut self, username: String, password: &str) -> (r: Result<i32, AuthError>)
        requires
            old(self).wf(),
            old(self).accounts().len() < i32::MAX,
        ensures
            final(self).wf(),
            old(self).has(username@) ==> r == Err::<i32, AuthError>(AuthError::DuplicateUser),
            !old(self).has(username@) ==> r is Ok || r == Err::<i32, AuthError>(
                AuthError::HashingError,
            ),
            !old(self).has(username@) && password@.len() <= MAX_PASSWORD_CHARS ==> r is Ok,
            r is Err ==> final(self).accounts() == old(self).accounts(),
            r is Ok ==> {
                let n = old(self).accounts().len();
                &&& r->Ok_0 == n + 1
                &&& final(self).accounts().len() == n + 1
                &&& final(self).accounts().take(n as int) == old(self).accounts()
                &&& final(self).accounts()[n as int].0 == username@
                &&& argon2_accepts(password@, final(self).accounts()[n as int].1)
            },
    {
        let taken = self.position(&username).is_some();
        let ghost name = username@;
        match registration(username, taken, password) {
            Ok(u) => {
                let ghost old_accounts = self.accounts();
                let id = self.users.len() as i32 + 1;
                self.users.push(u);
                assert(self.accounts().take(old_accounts.len() as int) =~= old_accounts);
                assert forall|i: int, j: int|
                    0 <= i < self.accounts().len() && 0 <= j < self.accounts().len() && i != j
                        implies #[trigger] self.accounts()[i].0 != #[trigger] self.accounts()[j].0 by {
                    if i < old_accounts.len() && j < old_accounts.len() {
                        assert(self.accounts()[i] == old_accounts[i]);
                        assert(self.accounts()[j] == old_accounts[j]);
                    } else if i < old_accounts.len() {
                        assert(self.accounts()[i] == old_accounts[i]);
                        assert(!old(self).holds(i, name));
                    } else {
                        assert(self.accounts()[j] == old_accounts[j]);
                        assert(!old(self).holds(j, name));
                    }
                }
                Ok(id)
            },
            Err(e) => Err(e),
        }
    }

    /// Checks a login: the user identifier of `username` where `password`
    /// matches its hash.
    pub fn login(&self, username: &String, password: &str) -> (r: Result<i32, AuthError>)
        requires
            self.wf(),
            self.accounts().len() < i32::MAX,
        ensures
            r == self.login_outcome(username@, password@),
            !self.has(username@) <==> r == Err::<i32, AuthError>(AuthError::NotFound),
            forall|i: int|
                #[trigger] self.holds(i, username@) ==> if argon2_accepts(
                    password@,
                    self.accounts()[i].1,
                ) {
                    r == Ok::<i32, AuthError>((i + 1) as i32)
                } else {
                    r == Err::<i32, AuthError>(AuthError::InvalidCredential)
                },
    {
        match self.position(username) {
            None => Err(AuthError::NotFound),
            Some(i) => {
                let ghost accounts = self.accounts();
                assert(accounts[i as int].1 == self.users@[i as int].password_hash@);
                assert forall|k: int| #[trigger] self.holds(k, username@) implies k == i by {}
                assert(self.holds(i as int, username@));
                match check_credentials(Some(&self.users[i]), password) {
                    Ok(()) => Ok(i as i32 + 1),
                    Err(e) => Err(e),
                }
            },
        }
    }

    /// A login that issues the claims of a token only where the
    /// credentials are accepted: on any refusal no claims exist.
    pub fn login_with_token(&self, username: &String, password: &str) -> (r: Result<
        (i32, Claims),
        AuthError,
    >)
        requires
            self.wf(),
            self.accounts().len() < i32::MAX,
        ensures
            self.login_outcome(username@, password@) is Err ==> r == Err::<(i32, Claims), AuthError>(
                self.login_outcome(username@, password@)->Err_0,
            ),
            r is Ok ==> self.login_outcome(username@, password@) == Ok::<i32, AuthError>(
                r->Ok_0.0,
            ) && r->Ok_0.1.sub@ == username@,
            self.login_outcome(username@, password@) is Ok ==> r is Ok || r == Err::<
                (i32, Claims),
                AuthError,
            >(AuthError::TokenError),
    {
        let id = match self.login(username, password) {
            Ok(id) => id,
            Err(e) => return Err(e),
        };
        match token_claims(username.as_str()) {
            Ok(c) => Ok((id, c)),
            Err(e) => Err(e),
        }
    }
}

/// A login with the right username and a wrong password is refused with
/// `InvalidCredential`, so no token is issued for it.
pub proof fn lemma_wrong_password_refused(
    dir: UserDirectory,
    i: int,
    name: Seq<char>,
    password: Seq<char>,
)
    requires
        dir.wf(),
        dir.holds(i, name),
        !argon2_accepts(password, dir.accounts()[i].1),
    ensures
        dir.login_outcome(name, password) == Err::<i32, AuthError>(AuthError::InvalidCredential),
{
    let k = choose|k: int| dir.holds(k, name);
    assert(k == i);
}

} // verus!
