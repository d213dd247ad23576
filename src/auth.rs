use vstd::prelude::*;

use crate::state::Address;

verus! {

/// The body answered to a successful login.
pub struct AuthBody {
    pub access_token: String,
    pub token_type: String,
}

impl AuthBody {
    /// A bearer token body.
    pub fn new(access_token: String) -> (body: AuthBody)
        ensures
            body.access_token@ == access_token@,
            body.token_type@ == "Bearer"@,
    {
        AuthBody { access_token, token_type: String::from_str("Bearer") }
    }
}

/// The claims of a session token issued at login.
#[derive(Clone, Copy, Debug)]
pub struct Claims {
    pub address: Address,
    pub exp: i64,
}

/// How long a session token is valid, in seconds.
pub const SESSION_SECONDS: i64 = 86400;

/// How old a login signature may be, in seconds.
pub const LOGIN_WINDOW_SECONDS: i64 = 30;

/// Why a login timestamp was refused.
#[derive(Clone, Copy, Debug, PartialEq, Eq, Structural)]
pub enum LoginTimeError {
    /// The signature is older than the login window.
    TooOld,
    /// The timestamp lies after the present.
    InFuture,
}

/// A login signed at `timestamp` is accepted at time `now` if it is at most
/// thirty seconds old and not from the future.
pub fn check_login_time(timestamp: i64, now: i64) -> (r: Result<(), LoginTimeError>)
    ensures
        timestamp < now - LOGIN_WINDOW_SECONDS ==> r == Err::<(), LoginTimeError>(LoginTimeError::TooOld),
        now - LOGIN_WINDOW_SECONDS <= timestamp && timestamp > now ==> r == Err::<(), LoginTimeError>(
            LoginTimeError::InFuture,
        ),
        now - LOGIN_WINDOW_SECONDS <= timestamp <= now ==> r == Ok::<(), LoginTimeError>(()),
{
    if (timestamp as i128) < (now as i128) - (LOGIN_WINDOW_SECONDS as i128) {
        Err(LoginTimeError::TooOld)
    } else if timestamp > now {
        Err(LoginTimeError::InFuture)
    } else {
        Ok(())
    }
}

/// The claims of a session opened at `now` by `address`, valid for a day.
pub fn session_claims(address: Address, now: i64) -> (c: Claims)
    requires
        now + SESSION_SECONDS <= i64::MAX,
    ensures
        c.address == address,
        c.exp == now + SESSION_SECONDS,
{
    Claims { address, exp: now + SESSION_SECONDS }
}

/// Why a session token was refused or could not be made.
#[derive(Clone, Copy, Debug, PartialEq, Eq, Structural)]
pub enum AuthError {
    InvalidToken,
    TokenCreation,
}

impl AuthError {
    /// The HTTP status the error is answered with: a bad token is the
    /// client's error, a failure to make one the server's.
    pub fn status_code(&self) -> (code: u16)
        ensures
            *self == AuthError::InvalidToken ==> code == 400,
            *self == AuthError::TokenCreation ==> code == 500,
    {
        match self {
            AuthError::InvalidToken => 400,
            AuthError::TokenCreation => 500,
        }
    }
}

/// The settings of the identity provider's app.
pub struct PrivyConfig {
    pub app_id: String,
    pub app_secret: String,
    pub verification_key: String,
}

/// The claims of an access token from the identity provider.
pub struct PrivyClaims {
    pub app_id: String,
    pub expiration: i64,
    pub issuer: String,
    pub user_id: String,
    pub issued_at: i64,
    pub session_id: String,
}

/// An email account linked to a user.
pub struct EmailAccount {
    pub address: String,
    pub first_verified_at: u64,
    pub latest_verified_at: u64,
    pub verified_at: u64,
}

/// A wallet linked to a user.
pub struct WalletAccount {
    pub address: String,
    /// `eip155:<id>` or `solana:<id>`
    pub chain_id: Option<String>,
    /// `ethereum` or `solana`
    pub chain_type: String,
    pub connector_type: String,
    pub first_verified_at: u64,
    pub latest_verified_at: u64,
    pub verified_at: u64,
    pub wallet_client: String,
    pub wallet_client_type: String,
    pub delegated: bool,
    pub imported: Option<bool>,
    pub public_key: Option<String>,
    pub recovery_method: Option<String>,
    pub wallet_index: Option<u64>,
    pub id: Option<String>,
}

/// An account linked to a user; kinds this service does not read are `Unknown`.
pub enum LinkedAccount {
    Email(EmailAccount),
    Wallet(WalletAccount),
    Unknown,
}

/// Account `i` is a wallet on this chain type.
pub open spec fn is_wallet_on(accounts: Seq<LinkedAccount>, chain_type: Seq<char>, i: int) -> bool {
    &&& 0 <= i < accounts.len()
    &&& accounts[i] matches LinkedAccount::Wallet(w)
    &&& w.chain_type@ == chain_type
}

/// The first linked wallet on the given chain type, if there is one.
pub fn find_wallet<'a>(linked_accounts: &'a [LinkedAccount], chain_type: &str) -> (r: Option<
    &'a WalletAccount,
>)
    ensures
        r is None <==> forall|i: int| !is_wallet_on(linked_accounts@, chain_type@, i),
        r matches Some(w) ==> exists|i: int|
            #[trigger] is_wallet_on(linked_accounts@, chain_type@, i)
                && linked_accounts@[i] == LinkedAccount::Wallet(*w)
                && forall|j: int| 0 <= j < i ==> !is_wallet_on(linked_accounts@, chain_type@, j),
{
    let target = chain_type.to_owned();
    let mut i: usize = 0;
    while i < linked_accounts.len()
        invariant
            i <= linked_accounts@.len(),
            target@ == chain_type@,
            forall|j: int| 0 <= j < i ==> !is_wallet_on(linked_accounts@, chain_type@, j),
        decreases linked_accounts@.len() - i,
    {
        if let LinkedAccount::Wallet(w) = &linked_accounts[i] {
            if w.chain_type == target {
                assert(is_wallet_on(linked_accounts@, chain_type@, i as int));
                return Some(w);
            }
        }
        i += 1;
    }
    None
}

} // verus!
