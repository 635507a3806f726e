//! Accounts, their roles, and the account repository.

use vstd::prelude::*;

verus! {

/// What an account may do: only organizers register fairs.
#[derive(Clone, Copy, Debug, PartialEq, Eq, Structural)]
pub enum Role {
    Standard,
    Organizer,
}

impl Role {
    /// The role that a registration asks for: organizer only when the flag
    /// was given and true.
    pub open spec fn spec_from_flag(flag: Option<bool>) -> Role {
        if flag == Some(true) {
            Role::Organizer
        } else {
            Role::Standard
        }
    }

    pub open spec fn spec_name(self) -> Seq<char> {
        match self {
            Role::Standard => "user"@,
            Role::Organizer => "organizer"@,
        }
    }

    pub fn from_flag(flag: Option<bool>) -> (r: Role)
        ensures
            r == Role::spec_from_flag(flag),
    {
        match flag {
            Some(true) => Role::Organizer,
            _ => Role::Standard,
        }
    }

    pub open spec fn spec_parse(name: Seq<char>) -> Option<Role> {
        if name == "organizer"@ {
            Some(Role::Organizer)
        } else if name == "user"@ {
            Some(Role::Standard)
        } else {
            None
        }
    }

    /// The role stored under `name`, if `name` is one.
    pub fn parse(name: &String) -> (r: Option<Role>)
        ensures
            r == Role::spec_parse(name@),
    {
        let organizer = "organizer".to_owned();
        let user = "user".to_owned();
        if name.eq(&organizer) {
            Some(Role::Organizer)
        } else if name.eq(&user) {
            Some(Role::Standard)
        } else {
            None
        }
    }

    /// The name under which the role is stored.
    pub fn as_str(&self) -> (r: &'static str)
        ensures
            r@ == self.spec_name(),
    {
        match self {
            Role::Standard => "user",
            Role::Organizer => "organizer",
        }
    }
}

/// A registered identity. `password` holds the bcrypt digest, never the
/// plaintext; times are milliseconds since the Unix epoch.
pub struct User {
    pub id: String,
    pub apikey: String,
    pub email: String,
    pub first_name: String,
    pub last_name: String,
    pub phone_number: String,
    pub password: String,
    pub role: Role,
    pub created_at: i64,
    pub updated_at: i64,
}

/// The field by which an account is looked up.
#[derive(Clone, Copy, Debug, PartialEq, Eq, Structural)]
pub enum UserSearchMode {
    Email,
    Id,
    ApiKey,
}

pub open spec fn search_key(u: User, mode: UserSearchMode) -> Seq<char> {
    match mode {
        UserSearchMode::Email => u.email@,
        UserSearchMode::Id => u.id@,
        UserSearchMode::ApiKey => u.apikey@,
    }
}

/// Whether some account has `key` in the field that `mode` names.
pub open spec fn has_key(s: Seq<User>, key: Seq<char>, mode: UserSearchMode) -> bool {
    exists|i: int| 0 <= i < s.len() && #[trigger] search_key(s[i], mode) == key
}

/// The position of an account that has `key` in the field named by `mode`;
/// with unique keys it is the only one.
pub open spec fn key_index(s: Seq<User>, key: Seq<char>, mode: UserSearchMode) -> int {
    choose|i: int| 0 <= i < s.len() && #[trigger] search_key(s[i], mode) == key
}

/// No two accounts share an e-mail address, an identifier or a token.
pub open spec fn accounts_unique(s: Seq<User>) -> bool {
    forall|i: int, j: int, mode: UserSearchMode|
        0 <= i < s.len() && 0 <= j < s.len() && i != j ==> #[trigger] search_key(s[i], mode)
            != #[trigger] search_key(s[j], mode)
}

/// Whether the account with token `key` has `role`.
pub open spec fn holds_role(s: Seq<User>, key: Seq<char>, role: Role) -> bool {
    exists|i: int| 0 <= i < s.len() && #[trigger] s[i].apikey@ == key && s[i].role == role
}

pub proof fn lemma_key_index(s: Seq<User>, key: Seq<char>, mode: UserSearchMode, i: int)
    requires
        accounts_unique(s),
        0 <= i < s.len(),
        search_key(s[i], mode) == key,
    ensures
        key_index(s, key, mode) == i,
{
    let k = key_index(s, key, mode);
    assert(0 <= k < s.len() && search_key(s[k], mode) == key);
    if k != i {
        assert(search_key(s[k], mode) != search_key(s[i], mode));
    }
}

fn search_field(u: &User, mode: UserSearchMode) -> (r: &String)
    ensures
        r@ == search_key(*u, mode),
{
    match mode {
        UserSearchMode::Email => &u.email,
        UserSearchMode::Id => &u.id,
        UserSearchMode::ApiKey => &u.apikey,
    }
}

/// The account repository: every account, with unique e-mail addresses,
/// identifiers and tokens.
pub struct AccountStore {
    pub users: Vec<User>,
}

impl View for AccountStore {
    type V = Seq<User>;

    open spec fn view(&self) -> Seq<User> {
        self.users@
    }
}

impl AccountStore {
    pub open spec fn wf(&self) -> bool {
        accounts_unique(self@)
    }

    pub fn new() -> (r: AccountStore)
        ensures
            r@ == Seq::<User>::empty(),
            r.wf(),
    {
        AccountStore { users: Vec::new() }
    }

    pub fn len(&self) -> (r: usize)
        ensures
            r == self@.len(),
    {
        self.users.len()
    }

    /// The position of the account whose field named by `mode` is `src`.
    pub fn find(&self, src: &String, mode: UserSearchMode) -> (r: Option<usize>)
        ensures
            r is Some <==> has_key(self@, src@, mode),
            r is Some ==> r->0 < self@.len() && search_key(self@[r->0 as int], mode) == src@,
            r is Some && accounts_unique(self@) ==> r->0 == key_index(self@, src@, mode),
    {
        let mut i: usize = 0;
        while i < self.users.len()
            invariant
                i <= self.users@.len(),
                forall|k: int| 0 <= k < i ==> #[trigger] search_key(self@[k], mode) != src@,
            decreases self.users@.len() - i,
        {
            let field = search_field(&self.users[i], mode);
            if field.eq(src) {
                proof {
                    if accounts_unique(self@) {
                        lemma_key_index(self@, src@, mode, i as int);
                    }
                }
                return Some(i);
            }
            i = i + 1;
        }
        None
    }

}

} // verus!
