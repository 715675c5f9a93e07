//! Accounts and password checking.
//!
//! A user account pairs a username with a salted, self-describing password
//! hash; the plaintext exists only transiently inside a login or signup
//! request.  The hash embeds algorithm, version, parameters and salt, so
//! verification always runs with the parameters the hash was created with.
//!
//! The memory-hard hashing itself is an outside call (Argon2id); its results
//! are named by the two uninterpreted functions below, and everything the
//! library claims about accounts is stated over those names.

use vstd::prelude::*;

verus! {

/// True when a stored hash string is a well-formed PHC string, i.e. parsing
/// it back succeeds.  Parsing is a pure function of the string.
pub uninterp spec fn phc_valid(hash: Seq<char>) -> bool;

/// True when verifying `password` against the stored `hash` succeeds.
/// Verification reads all of its parameters out of the hash string, so the
/// outcome is a pure function of the two arguments.
pub uninterp spec fn password_matches(password: Seq<char>, hash: Seq<char>) -> bool;

/// The character of one decimal digit.
pub open spec fn decimal_digit_char(d: int) -> char
    recommends
        0 <= d <= 9,
{
    ((d + ('0' as int)) as u8) as char
}

/// The decimal rendering of a non-negative number, most significant digit
/// first, without leading zeroes.
pub open spec fn decimal_digits(n: int) -> Seq<char>
    recommends
        n >= 0,
    decreases n,
{
    if n <= 9 {
        seq![decimal_digit_char(n)]
    } else {
        decimal_digits(n / 10).push(decimal_digit_char(n % 10))
    }
}

/// The self-describing head of an Argon2id v19 PHC string with these costs:
/// algorithm, version and parameters, up to and including the separator
/// before the salt.
pub open spec fn argon2id_prefix(m_cost: u32, t_cost: u32, p_cost: u32) -> Seq<char> {
    "$argon2id$v=19$m="@ + decimal_digits(m_cost as int) + ",t="@ + decimal_digits(t_cost as int)
        + ",p="@ + decimal_digits(p_cost as int) + "$"@
}

/// True when a stored value is an Argon2id v19 PHC string with these costs:
/// it opens with the self-describing head, followed by the 22 characters of
/// the encoded 16-byte salt, a separator, and the 43 characters of the
/// encoded 32-byte digest — so it is never the plaintext it was derived
/// from.
pub open spec fn is_argon2id_hash(h: Seq<char>, m_cost: u32, t_cost: u32, p_cost: u32) -> bool {
    let prefix = argon2id_prefix(m_cost, t_cost, p_cost);
    h.len() == prefix.len() + 66 && h.subrange(0, prefix.len() as int) == prefix
}

/// Memory cost of freshly created password hashes, in KiB blocks.
pub const ARGON2_M_COST: u32 = 65536;

/// Iteration count of freshly created password hashes.
pub const ARGON2_T_COST: u32 = 2;

/// Degree of parallelism of freshly created password hashes.
pub const ARGON2_P_COST: u32 = 2;

/// Relies on `argon2::Argon2::hash_password` (RustCrypto `password-hash`):
/// on success the result is the PHC rendering
/// `$argon2id$v=19$m=..,t=..,p=..$salt$digest` — the given costs in
/// decimal, a fresh random 16-byte salt as 22 characters, and the 32-byte
/// digest as 43 characters; it parses back with `PasswordHash::new` and
/// verifies against the password it was created from.  Fails when the
/// costs are rejected, the password is overlong, or the system random
/// source fails.
#[verifier::external_body]
fn argon2_hash(password: &str, m_cost: u32, t_cost: u32, p_cost: u32) -> (r: Option<String>)
    ensures
        r matches Some(h) ==> phc_valid(h@) && password_matches(password@, h@)
            && is_argon2id_hash(h@, m_cost, t_cost, p_cost),
{
    let params = match argon2::Params::new(m_cost, t_cost, p_cost, None) {
        Ok(p) => p,
        Err(_) => return None,
    };
    let ctx = argon2::Argon2::new(argon2::Algorithm::Argon2id, argon2::Version::V0x13, params);
    match argon2::PasswordHasher::hash_password(&ctx, password.as_bytes()) {
        Ok(h) => Some(h.to_string()),
        Err(_) => None,
    }
}

/// Relies on `password_hash::phc::PasswordHash::new` and on
/// `argon2::PasswordVerifier::verify_password`: parsing succeeds exactly for
/// well-formed PHC strings, and verification recomputes the hash with the
/// parameters and salt embedded in it, so both outcomes are pure functions
/// of the password and the hash string.
#[verifier::external_body]
fn argon2_verify(password: &str, hash: &str) -> (r: Option<bool>)
    ensures
        r is Some <==> phc_valid(hash@),
        r matches Some(m) ==> m == password_matches(password@, hash@),
{
    let parsed = match argon2::password_hash::phc::PasswordHash::new(hash) {
        Ok(p) => p,
        Err(_) => return None,
    };
    let ctx = argon2::Argon2::default();
    Some(argon2::PasswordVerifier::verify_password(&ctx, password.as_bytes(), &parsed).is_ok())
}

/// A login or signup request: the only place plaintext passwords appear.
pub struct UserCredentials {
    pub username: String,
    pub password: String,
}

/// Spec-level image of a stored account.
pub struct UserView {
    pub username: Seq<char>,
    pub password: Seq<char>,
    pub created_at: u64,
}

/// A stored account.  `password` holds the salted hash, never the plaintext.
pub struct User {
    pub username: String,
    pub password: String,
    pub created_at: u64,
}

impl View for User {
    type V = UserView;

    open spec fn view(&self) -> UserView {
        UserView {
            username: self.username@,
            password: self.password@,
            created_at: self.created_at,
        }
    }
}

impl Clone for User {
    fn clone(&self) -> (r: Self)
        ensures
            r@ == self@,
    {
        User {
            username: self.username.clone(),
            password: self.password.clone(),
            created_at: self.created_at,
        }
    }
}

/// Why an account operation failed.  A wrong password and an unknown
/// username share one variant on purpose, to resist username enumeration;
/// `HashError` covers the internal failures of the hashing layer (malformed
/// stored hash, rejected parameters, random source failure).
#[derive(Debug, PartialEq, Eq, Structural)]
pub enum UserError {
    UsernameExists,
    InvalidCredentials,
    HashError,
}

/// True when some stored account carries this username.
pub open spec fn has_username(s: Seq<UserView>, name: Seq<char>) -> bool {
    exists|i: int| 0 <= i < s.len() && s[i].username == name
}

/// The account carrying this username; meaningful only under uniqueness.
pub open spec fn user_with(s: Seq<UserView>, name: Seq<char>) -> UserView
    recommends
        has_username(s, name),
{
    s[choose|i: int| 0 <= i < s.len() && s[i].username == name]
}

/// The account table: usernames are unique, so an account is addressable by
/// its username alone.
pub struct UserStore {
    users: Vec<User>,
}

impl View for UserStore {
    type V = Seq<UserView>;

    closed spec fn view(&self) -> Seq<UserView> {
        self.users@.map_values(|u: User| u@)
    }
}

impl UserStore {
    /// Usernames are pairwise distinct.
    pub open spec fn wf(&self) -> bool {
        forall|i: int, j: int|
            0 <= i < j < self@.len() ==> self@[i].username != self@[j].username
    }

    pub fn new() -> (r: UserStore)
        ensures
            r@ == Seq::<UserView>::empty(),
            r.wf(),
    {
        let r = UserStore { users: Vec::new() };
        proof {
            assert(r@ =~= Seq::<UserView>::empty());
        }
        r
    }

    /// Index of the account with this username, if any.
    fn find_index(&self, username: &String) -> (r: Option<usize>)
        ensures
            match r {
                Some(i) => i < self@.len() && self@[i as int].username == username@,
                None => !has_username(self@, username@),
            },
    {
        let n = self.users.len();
        let mut i: usize = 0;
        while i < n
            invariant
                n == self.users.len(),
                i <= n,
                self@.len() == n,
                forall|k: int| 0 <= k < i ==> self@[k].username != username@,
            decreases n - i,
        {
            if self.users[i].username == *username {
                return Some(i);
            }
            i += 1;
        }
        None
    }
}

/// Create a new account: reject a taken username, otherwise hash the
/// password with the default costs and append the account.
pub fn create_user(store: &mut UserStore, credentials: &UserCredentials, created_at: u64) -> (r:
    Result<User, UserError>)
    requires
        old(store).wf(),
    ensures
        final(store).wf(),
        match r {
            Ok(u) => {
                &&& !has_username(old(store)@, credentials.username@)
                &&& u.username@ == credentials.username@
                &&& u.created_at == created_at
                &&& phc_valid(u.password@)
                &&& password_matches(credentials.password@, u.password@)
                &&& is_argon2id_hash(u.password@, ARGON2_M_COST, ARGON2_T_COST, ARGON2_P_COST)
                &&& final(store)@ == old(store)@.push(u@)
            },
            Err(UserError::UsernameExists) => {
                &&& has_username(old(store)@, credentials.username@)
                &&& final(store)@ == old(store)@
            },
            Err(UserError::HashError) => {
                &&& !has_username(old(store)@, credentials.username@)
                &&& final(store)@ == old(store)@
            },
            Err(UserError::InvalidCredentials) => false,
        },
{
    create_user_with_costs(
        store,
        credentials,
        created_at,
        ARGON2_M_COST,
        ARGON2_T_COST,
        ARGON2_P_COST,
    )
}

/// Create a new account with explicit hashing costs: reject a taken
/// username, otherwise hash the password and append the account.  The costs
/// are baked into the stored hash, so later verification is independent of
/// what they are tuned to here.
pub fn create_user_with_costs(
    store: &mut UserStore,
    credentials: &UserCredentials,
    created_at: u64,
    m_cost: u32,
    t_cost: u32,
    p_cost: u32,
) -> (r: Result<User, UserError>)
    requires
        old(store).wf(),
    ensures
        final(store).wf(),
        match r {
            Ok(u) => {
                &&& !has_username(old(store)@, credentials.username@)
                &&& u.username@ == credentials.username@
                &&& u.created_at == created_at
                &&& phc_valid(u.password@)
                &&& password_matches(credentials.password@, u.password@)
                &&& is_argon2id_hash(u.password@, m_cost, t_cost, p_cost)
                &&& final(store)@ == old(store)@.push(u@)
            },
            Err(UserError::UsernameExists) => {
                &&& has_username(old(store)@, credentials.username@)
                &&& final(store)@ == old(store)@
            },
            Err(UserError::HashError) => {
                &&& !has_username(old(store)@, credentials.username@)
                &&& final(store)@ == old(store)@
            },
            Err(UserError::InvalidCredentials) => false,
        },
{
    if let Some(_) = store.find_index(&credentials.username) {
        return Err(UserError::UsernameExists);
    }
    match argon2_hash(credentials.password.as_str(), m_cost, t_cost, p_cost) {
        None => Err(UserError::HashError),
        Some(hash) => {
            let user = User {
                username: credentials.username.clone(),
                password: hash,
                created_at,
            };
            let ghost prev = store@;
            store.users.push(user.clone());
            proof {
                assert(store@ =~= prev.push(user@));
            }
            Ok(user)
        },
    }
}

/// Validate a login: look the account up by username and verify the
/// password against its stored hash.  An unknown username and a wrong
/// password yield the same answer.
pub fn validate_user(store: &UserStore, credentials: &UserCredentials) -> (r: Result<
    User,
    UserError,
>)
    requires
        store.wf(),
    ensures
        match r {
            Ok(u) => {
                &&& has_username(store@, credentials.username@)
                &&& u@ == user_with(store@, credentials.username@)
                &&& phc_valid(u.password@)
                &&& password_matches(credentials.password@, u.password@)
            },
            Err(UserError::InvalidCredentials) => {
                ||| !has_username(store@, credentials.username@)
                ||| {
                    &&& phc_valid(user_with(store@, credentials.username@).password)
                    &&& !password_matches(
                        credentials.password@,
                        user_with(store@, credentials.username@).password,
                    )
                }
            },
            Err(UserError::HashError) => {
                &&& has_username(store@, credentials.username@)
                &&& !phc_valid(user_with(store@, credentials.username@).password)
            },
            Err(UserError::UsernameExists) => false,
        },
{
    match store.find_index(&credentials.username) {
        None => Err(UserError::InvalidCredentials),
        Some(i) => {
            let user = &store.users[i];
            proof {
                assert(user@ == store@[i as int]);
                assert(user_with(store@, credentials.username@) == store@[i as int]);
            }
            match argon2_verify(credentials.password.as_str(), user.password.as_str()) {
                None => Err(UserError::HashError),
                Some(true) => Ok(user.clone()),
                Some(false) => Err(UserError::InvalidCredentials),
            }
        },
    }
}

} // verus!
