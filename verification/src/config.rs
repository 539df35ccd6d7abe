//! Account configuration: what each account must carry, and how it authenticates.
use vstd::prelude::*;

use crate::error::{concat3, CalDavError, CalDavErrorView};

verus! {

/// The configured accounts.
pub struct AppConfig {
    pub accounts: Vec<Account>,
}

/// One CalDAV account.
pub struct Account {
    pub name: String,
    pub url: String,
    pub auth_type: AuthType,
    pub credentials: Credentials,
}

/// How an account authenticates.
#[derive(Clone, Copy, Debug, PartialEq, Eq, Structural)]
pub enum AuthType {
    Basic,
    AppPassword,
    OAuth2,
}

/// The secrets of an account; which ones are needed depends on its `AuthType`.
pub struct Credentials {
    pub user: Option<String>,
    pub pass: Option<String>,
    pub token: Option<String>,
    /// Kept for a later OAuth2 refresh flow.
    pub refresh_token: Option<String>,
}

/// The credentials that a request carries.
pub enum AuthScheme {
    /// HTTP Basic authentication.
    Basic { user: String, pass: Option<String> },
    /// A bearer token.
    Bearer { token: String },
}

/// The mathematical value of an `AuthScheme`.
pub enum AuthSchemeView {
    Basic { user: Seq<char>, pass: Option<Seq<char>> },
    Bearer { token: Seq<char> },
}

impl View for AuthScheme {
    type V = AuthSchemeView;

    open spec fn view(&self) -> AuthSchemeView {
        match self {
            AuthScheme::Basic { user, pass } => AuthSchemeView::Basic {
                user: user@,
                pass: match pass {
                    Some(p) => Some(p@),
                    None => None,
                },
            },
            AuthScheme::Bearer { token } => AuthSchemeView::Bearer { token: token@ },
        }
    }
}

/// The credentials that requests of an account carry: Basic/AppPassword
/// send `user` (empty when absent) and `pass`; OAuth2 sends `token` (empty
/// when absent) as a bearer token.
pub open spec fn auth_scheme_of(a: Account) -> AuthSchemeView {
    match a.auth_type {
        AuthType::Basic | AuthType::AppPassword => AuthSchemeView::Basic {
            user: text_or_empty(a.credentials.user),
            pass: match a.credentials.pass {
                Some(p) => Some(p@),
                None => None,
            },
        },
        AuthType::OAuth2 => AuthSchemeView::Bearer { token: text_or_empty(a.credentials.token) },
    }
}

/// The configuration error of an account, if its credentials lack what its
/// `AuthType` needs.
pub open spec fn account_problem(a: Account) -> Option<CalDavErrorView> {
    match a.auth_type {
        AuthType::Basic | AuthType::AppPassword => {
            if a.credentials.user is None || a.credentials.pass is None {
                Some(
                    CalDavErrorView::Config(
                        "account '"@ + a.name@
                            + "': Basic/AppPassword auth requires 'user' and 'pass'"@,
                    ),
                )
            } else {
                None
            }
        },
        AuthType::OAuth2 => {
            if a.credentials.token is None {
                Some(
                    CalDavErrorView::Config(
                        "account '"@ + a.name@ + "': OAuth2 auth requires 'token'"@,
                    ),
                )
            } else {
                None
            }
        },
    }
}

/// The problem of the first account in `accounts` that has one.
pub open spec fn first_problem(accounts: Seq<Account>) -> Option<CalDavErrorView>
    decreases accounts.len(),
{
    if accounts.len() == 0 {
        None
    } else {
        match account_problem(accounts[0]) {
            Some(e) => Some(e),
            None => first_problem(accounts.drop_first()),
        }
    }
}

/// The text of an optional string, or the empty text.
pub open spec fn text_or_empty(s: Option<String>) -> Seq<char> {
    match s {
        Some(t) => t@,
        None => Seq::empty(),
    }
}

/// A copy of a string.
pub fn copy_string(s: &String) -> (r: String)
    ensures
        r@ == s@,
{
    String::from_str(s.as_str())
}

/// A copy of an optional string.
pub fn copy_opt_string(s: &Option<String>) -> (r: Option<String>)
    ensures
        match (r, *s) {
            (Some(a), Some(b)) => a@ == b@,
            (None, None) => true,
            _ => false,
        },
{
    match s {
        Some(t) => Some(copy_string(t)),
        None => None,
    }
}

impl Account {
    /// Checks that the credentials hold what the auth type needs:
    /// `user` and `pass` for Basic/AppPassword, `token` for OAuth2.
    pub fn validate(&self) -> (r: Result<(), CalDavError>)
        ensures
            match r {
                Ok(()) => account_problem(*self) is None,
                Err(e) => account_problem(*self) == Some(e@),
            },
    {
        match self.auth_type {
            AuthType::Basic | AuthType::AppPassword => {
                if self.credentials.user.is_none() || self.credentials.pass.is_none() {
                    return Err(
                        CalDavError::Config(
                            concat3(
                                "account '",
                                self.name.as_str(),
                                "': Basic/AppPassword auth requires 'user' and 'pass'",
                            ),
                        ),
                    );
                }
            },
            AuthType::OAuth2 => {
                if self.credentials.token.is_none() {
                    return Err(
                        CalDavError::Config(
                            concat3(
                                "account '",
                                self.name.as_str(),
                                "': OAuth2 auth requires 'token'",
                            ),
                        ),
                    );
                }
            },
        }
        Ok(())
    }

    /// The credentials a request for this account carries: Basic/AppPassword
    /// send `user` (empty when absent) and `pass`; OAuth2 sends `token`
    /// (empty when absent) as a bearer token.
    pub fn auth_scheme(&self) -> (r: AuthScheme)
        ensures
            r@ == auth_scheme_of(*self),
    {
        match self.auth_type {
            AuthType::Basic | AuthType::AppPassword => {
                let user = match &self.credentials.user {
                    Some(u) => copy_string(u),
                    None => String::new(),
                };
                AuthScheme::Basic { user, pass: copy_opt_string(&self.credentials.pass) }
            },
            AuthType::OAuth2 => {
                let token = match &self.credentials.token {
                    Some(t) => copy_string(t),
                    None => String::new(),
                };
                AuthScheme::Bearer { token }
            },
        }
    }
}

impl AppConfig {
    /// Checks every account in order and reports the first problem found.
    pub fn validate(&self) -> (r: Result<(), CalDavError>)
        ensures
            match r {
                Ok(()) => first_problem(self.accounts@) is None,
                Err(e) => first_problem(self.accounts@) == Some(e@),
            },
    {
        let mut i: usize = 0;
        assert(self.accounts@.skip(0) =~= self.accounts@);
        while i < self.accounts.len()
            invariant
                0 <= i <= self.accounts@.len(),
                first_problem(self.accounts@) == first_problem(self.accounts@.skip(i as int)),
            decreases self.accounts@.len() - i,
        {
            assert(self.accounts@.skip(i as int).drop_first() =~= self.accounts@.skip(i + 1));
            assert(self.accounts@.skip(i as int)[0] == self.accounts@[i as int]);
            self.accounts[i].validate()?;
            i += 1;
        }
        Ok(())
    }
}

} // verus!

verus! {

/// Law: a configuration passes validation exactly when every one of its
/// accounts carries what its auth type needs.
pub proof fn law_config_valid_iff_all_accounts_valid(accounts: Seq<Account>)
    ensures
        first_problem(accounts) is None <==> forall|i: int|
            0 <= i < accounts.len() ==> account_problem(#[trigger] accounts[i]) is None,
    decreases accounts.len(),
{
    if accounts.len() > 0 {
        let rest = accounts.drop_first();
        law_config_valid_iff_all_accounts_valid(rest);
        if first_problem(accounts) is None {
            assert forall|i: int| 0 <= i < accounts.len() implies account_problem(
                #[trigger] accounts[i],
            ) is None by {
                if i > 0 {
                    assert(accounts[i] == rest[i - 1]);
                }
            }
        } else {
            if account_problem(accounts[0]) is None {
                assert(!(forall|i: int|
                    0 <= i < rest.len() ==> account_problem(#[trigger] rest[i]) is None));
                let i = choose|i: int| 0 <= i < rest.len() && !(account_problem(rest[i]) is None);
                assert(accounts[i + 1] == rest[i]);
            }
        }
    }
}

/// Law: an AppPassword account authenticates exactly as a Basic account with
/// the same credentials would: the two labels differ in name only.
pub proof fn law_app_password_is_basic_on_the_wire(a: Account, b: Account)
    requires
        a.auth_type == AuthType::AppPassword,
        b.auth_type == AuthType::Basic,
        a.credentials == b.credentials,
    ensures
        auth_scheme_of(a) == auth_scheme_of(b),
{
}

} // verus!
