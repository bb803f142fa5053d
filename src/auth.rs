use vstd::prelude::*;
use vstd::string::*;
use crate::model::{copy_opt, AuthError, Identity, StoreFault, UserRecord};
use crate::resolve::{admin_email, email_of, is_global_admin};
use crate::text::has_prefix;

verus! {

/// The query of a login request.
pub struct LoginQuery {
    pub redirect_uri: Option<String>,
}

/// Where a finished login sends the browser: the requested address when it
/// starts with the application's base URL, else the base URL itself.
pub open spec fn redirect_target(redirect_uri: Option<String>, app_url: Seq<char>) -> Seq<char> {
    match redirect_uri {
        Some(u) => if app_url.is_prefix_of(u@) {
            u@
        } else {
            app_url
        },
        None => app_url,
    }
}

/// The address a finished login redirects to; the prefix check keeps the
/// redirect on the application.
pub fn login_redirect(query: LoginQuery, app_url: &str) -> (r: String)
    ensures
        r@ == redirect_target(query.redirect_uri, app_url@),
{
    match query.redirect_uri {
        Some(u) => {
            if has_prefix(u.as_str(), app_url) {
                u
            } else {
                String::from_str(app_url)
            }
        },
        None => String::from_str(app_url),
    }
}

pub open spec fn digit_char(d: int) -> char {
    if d == 0 {
        '0'
    } else if d == 1 {
        '1'
    } else if d == 2 {
        '2'
    } else if d == 3 {
        '3'
    } else if d == 4 {
        '4'
    } else if d == 5 {
        '5'
    } else if d == 6 {
        '6'
    } else if d == 7 {
        '7'
    } else if d == 8 {
        '8'
    } else {
        '9'
    }
}

/// The decimal digits of `n`, most significant first, without leading zeros.
pub open spec fn digits_of(n: nat) -> Seq<char>
    decreases n,
{
    if n < 10 {
        seq![digit_char(n as int)]
    } else {
        digits_of(n / 10).push(digit_char((n % 10) as int))
    }
}

/// The decimal spelling of `n`, with a leading `-` when negative.
pub open spec fn decimal_text(n: int) -> Seq<char> {
    if n < 0 {
        seq!['-'] + digits_of((-n) as nat)
    } else {
        digits_of(n as nat)
    }
}

/// The one-character spelling of digit `d`.
fn digit_str(d: u32) -> (r: &'static str)
    requires
        d < 10,
    ensures
        r@ == seq![digit_char(d as int)],
{
    proof {
        reveal_strlit("0");
        reveal_strlit("1");
        reveal_strlit("2");
        reveal_strlit("3");
        reveal_strlit("4");
        reveal_strlit("5");
        reveal_strlit("6");
        reveal_strlit("7");
        reveal_strlit("8");
        reveal_strlit("9");
    }
    if d == 0 {
        "0"
    } else if d == 1 {
        "1"
    } else if d == 2 {
        "2"
    } else if d == 3 {
        "3"
    } else if d == 4 {
        "4"
    } else if d == 5 {
        "5"
    } else if d == 6 {
        "6"
    } else if d == 7 {
        "7"
    } else if d == 8 {
        "8"
    } else {
        "9"
    }
}

/// Appends the decimal digits of `n` to `s`.
fn append_digits(s: &mut String, n: u32)
    ensures
        final(s)@ == old(s)@ + digits_of(n as nat),
    decreases n,
{
    if n >= 10 {
        append_digits(s, n / 10);
    }
    s.append(digit_str(n % 10));
    assert(digits_of(n as nat) == if n < 10 {
        seq![digit_char(n as int)]
    } else {
        digits_of((n / 10) as nat).push(digit_char((n % 10) as int))
    });
}

/// The decimal spelling of `n`.
pub fn decimal(n: i32) -> (r: String)
    ensures
        r@ == decimal_text(n as int),
{
    let mut s = String::new();
    if n < 0 {
        s.append("-");
        proof {
            reveal_strlit("-");
        }
        let m: u32 = (0i64 - n as i64) as u32;
        append_digits(&mut s, m);
    } else {
        append_digits(&mut s, n as u32);
    }
    s
}

/// What the status endpoint reports of the signed-in user.
pub struct UserInfo {
    pub id: String,
    pub email: String,
    pub name: Option<String>,
    pub picture: Option<String>,
    pub is_admin: bool,
}

/// The status report, given the caller's identity and the answer of the
/// lookup of their user row: without an identity or an email the caller is
/// `Unauthenticated`; a failed lookup is `Internal`; no row is
/// `Unauthenticated`.
pub fn user_status(
    identity: Option<&Identity>,
    admins: &Vec<String>,
    user: Result<Option<&UserRecord>, StoreFault>,
) -> (r: Result<UserInfo, AuthError>)
    ensures
        match email_of(identity) {
            None => r == Err::<UserInfo, AuthError>(AuthError::Unauthenticated),
            Some(e) => match user {
                Err(_) => r == Err::<UserInfo, AuthError>(AuthError::Internal),
                Ok(None) => r == Err::<UserInfo, AuthError>(AuthError::Unauthenticated),
                Ok(Some(u)) => {
                    &&& r is Ok
                    &&& r->Ok_0.id@ == decimal_text(u.id as int)
                    &&& r->Ok_0.email@ == u.email@
                    &&& r->Ok_0.name == u.name
                    &&& r->Ok_0.picture == u.picture
                    &&& r->Ok_0.is_admin == admin_email(admins@, e)
                },
            },
        },
{
    let email = match identity {
        None => return Err(AuthError::Unauthenticated),
        Some(i) => match &i.email {
            None => return Err(AuthError::Unauthenticated),
            Some(e) => e,
        },
    };
    let is_admin = is_global_admin(email.as_str(), admins);
    match user {
        Err(_) => Err(AuthError::Internal),
        Ok(None) => Err(AuthError::Unauthenticated),
        Ok(Some(u)) => Ok(
            UserInfo {
                id: decimal(u.id),
                email: u.email.clone(),
                name: copy_opt(&u.name),
                picture: copy_opt(&u.picture),
                is_admin,
            },
        ),
    }
}

} // verus!
