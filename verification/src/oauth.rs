//! Sign-in through an OAuth provider (GitHub): the identity obtained and
//! the table of accounts that signed in.
//!
//! The token exchange itself is made by the program around the library.

use vstd::prelude::*;
use crate::keyed::{Keyed, value_of};
use crate::text::{decimal_digits, push_char, push_str, trim, trim_range, u64_to_decimal};

verus! {

/// Errors of the sign-in flow.
#[derive(Debug, Clone)]
pub enum AuthProviderError {
    /// A required credential (named by its environment variable) is not
    /// configured.
    MissingCredential(String),
    TokenExchangeFailed(String),
    UnexpectedResponse(String),
}

impl AuthProviderError {
    /// Human-readable description of the error.
    pub fn message(&self) -> (r: String)
        ensures
            r@ == match self {
                AuthProviderError::MissingCredential(s) => "required credential is not configured: "@ + s@,
                AuthProviderError::TokenExchangeFailed(s) => "OAuth token exchange failed: "@ + s@,
                AuthProviderError::UnexpectedResponse(s) =>
                    "OAuth provider API returned an unexpected response: "@ + s@,
            },
    {
        let mut r = String::new();
        match self {
            AuthProviderError::MissingCredential(s) => {
                push_str(&mut r, "required credential is not configured: ");
                push_str(&mut r, s.as_str());
            },
            AuthProviderError::TokenExchangeFailed(s) => {
                push_str(&mut r, "OAuth token exchange failed: ");
                push_str(&mut r, s.as_str());
            },
            AuthProviderError::UnexpectedResponse(s) => {
                push_str(&mut r, "OAuth provider API returned an unexpected response: ");
                push_str(&mut r, s.as_str());
            },
        }
        r
    }
}

/// Who signed in.
#[derive(Debug, Clone, PartialEq, Eq)]
pub struct OAuthUserInfo {
    /// Provider name (`"github"`).
    pub provider: String,
    /// The provider's stable user id.
    pub provider_user_id: String,
    pub login: String,
    pub email: Option<String>,
}

/// `provider:provider_user_id`, the account key.
pub open spec fn account_id_spec(provider: Seq<char>, user_id: Seq<char>) -> Seq<char> {
    provider + seq![':'] + user_id
}

impl OAuthUserInfo {
    /// The unique account key `"<provider>:<provider_user_id>"`.
    pub fn unified_account_id(&self) -> (r: String)
        ensures
            r@ == account_id_spec(self.provider@, self.provider_user_id@),
    {
        let mut r = String::new();
        push_str(&mut r, self.provider.as_str());
        push_char(&mut r, ':');
        push_str(&mut r, self.provider_user_id.as_str());
        r
    }
}

/// The identity of a GitHub user from the user API's `id`, `login` and
/// `email`.
pub fn github_user_info(id: u64, login: String, email: Option<String>) -> (r: OAuthUserInfo)
    ensures
        r.provider@ == "github"@,
        r.provider_user_id@ == decimal_digits(id as nat),
        r.login == login,
        r.email == email,
{
    let mut provider = String::new();
    push_str(&mut provider, "github");
    OAuthUserInfo { provider, provider_user_id: u64_to_decimal(id), login, email }
}

/// Whether a credential value is usable: present and not blank.
pub open spec fn usable(v: Option<Seq<char>>) -> bool {
    v matches Some(s) && trim(s).len() > 0
}

fn is_usable(v: Option<&str>) -> (b: bool)
    ensures
        b == usable(
            match v {
                Some(s) => Some(s@),
                None => None,
            },
        ),
{
    match v {
        Some(s) => {
            let c = crate::text::chars_of(s);
            proof {
                assert(c@.subrange(0, c@.len() as int) =~= c@);
            }
            let (a, b) = trim_range(&c, 0, c.len());
            a < b
        },
        None => false,
    }
}

/// The GitHub app credentials (client id, client secret) from their
/// settings. A missing id or secret is reported under its own variable
/// name; when both are present but one is blank, under the id's name.
pub fn github_credentials(client_id: Option<&str>, client_secret: Option<&str>) -> (r: Result<
    (String, String),
    AuthProviderError,
>)
    ensures
        client_id is None ==> (r matches Err(AuthProviderError::MissingCredential(n)) && n@
            == "OPEN_EASY_WEB_GITHUB_CLIENT_ID"@),
        client_id is Some && client_secret is None ==> (r matches Err(
            AuthProviderError::MissingCredential(n),
        ) && n@ == "OPEN_EASY_WEB_GITHUB_CLIENT_SECRET"@),
        match (client_id, client_secret) {
            (Some(i), Some(s)) => if usable(Some(i@)) && usable(Some(s@)) {
                r matches Ok((a, b)) && a@ == i@ && b@ == s@
            } else {
                r matches Err(AuthProviderError::MissingCredential(n)) && n@
                    == "OPEN_EASY_WEB_GITHUB_CLIENT_ID"@
            },
            _ => true,
        },
{
    let mut id_name = String::new();
    push_str(&mut id_name, "OPEN_EASY_WEB_GITHUB_CLIENT_ID");
    let i = match client_id {
        Some(i) => i,
        None => return Err(AuthProviderError::MissingCredential(id_name)),
    };
    let s = match client_secret {
        Some(s) => s,
        None => {
            let mut secret_name = String::new();
            push_str(&mut secret_name, "OPEN_EASY_WEB_GITHUB_CLIENT_SECRET");
            return Err(AuthProviderError::MissingCredential(secret_name));
        },
    };
    if !is_usable(Some(i)) || !is_usable(Some(s)) {
        return Err(AuthProviderError::MissingCredential(id_name));
    }
    Ok((i.to_owned(), s.to_owned()))
}

/// Accounts that signed in, by account key.
pub struct AccountRegistry {
    accounts: Keyed<OAuthUserInfo>,
}

impl View for AccountRegistry {
    type V = Seq<(Seq<char>, OAuthUserInfo)>;

    closed spec fn view(&self) -> Seq<(Seq<char>, OAuthUserInfo)> {
        self.accounts@
    }
}

impl AccountRegistry {
    /// Whether the table is consistent.
    pub closed spec fn wf(&self) -> bool {
        self.accounts.wf()
    }

    /// An empty table.
    pub fn new() -> (r: Self)
        ensures
            r.wf(),
            r@.len() == 0,
    {
        AccountRegistry { accounts: Keyed::new() }
    }

    /// Records a sign-in and returns the account key.
    pub fn upsert_login(&mut self, info: OAuthUserInfo) -> (r: String)
        requires
            old(self).wf(),
        ensures
            final(self).wf(),
            r@ == account_id_spec(info.provider@, info.provider_user_id@),
            value_of(final(self)@, r@) == Some(info),
            forall|k: Seq<char>| k != r@ ==> value_of(final(self)@, k) == value_of(old(self)@, k),
    {
        let key = info.unified_account_id();
        self.accounts.insert(key.clone(), info);
        key
    }

    /// The account with this key.
    pub fn get(&self, unified_account_id: &str) -> (r: Option<&OAuthUserInfo>)
        requires
            self.wf(),
        ensures
            match r {
                Some(i) => value_of(self@, unified_account_id@) == Some(*i),
                None => value_of(self@, unified_account_id@) is None,
            },
    {
        self.accounts.get(unified_account_id)
    }

    /// Number of accounts.
    pub fn len(&self) -> (n: usize)
        ensures
            n == self@.len(),
    {
        self.accounts.len()
    }
}

} // verus!
