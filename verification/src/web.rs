//! Web-facing types: HTTP methods, data transfer objects and their
//! validation rules.

use vstd::prelude::*;
use crate::text::{byte_len, byte_len_at_least, chars_of, contains_char};

verus! {

/// An HTTP method a route answers to.
#[derive(Debug, Clone, Copy, PartialEq, Eq, Hash, Structural)]
pub enum Method {
    GET,
    POST,
    PUT,
    DELETE,
    PATCH,
}

/// The upper-case name of a method.
pub open spec fn method_name(m: Method) -> Seq<char> {
    match m {
        Method::GET => "GET"@,
        Method::POST => "POST"@,
        Method::PUT => "PUT"@,
        Method::DELETE => "DELETE"@,
        Method::PATCH => "PATCH"@,
    }
}

impl Method {
    /// The method's name as it appears on the wire.
    pub fn as_str(&self) -> (r: &'static str)
        ensures
            r@ == method_name(*self),
    {
        match self {
            Method::GET => "GET",
            Method::POST => "POST",
            Method::PUT => "PUT",
            Method::DELETE => "DELETE",
            Method::PATCH => "PATCH",
        }
    }
}

/// A data transfer object that can check its own contents.
pub trait Dto: Sized + Send + Sync {
    fn validate(&self) -> Result<(), String>;
}

/// A value that can check its own contents.
pub trait Validatable {
    fn validate(&self) -> Result<(), String>;
}

/// The request body for creating a user.
#[derive(Debug)]
pub struct CreateUserDto {
    pub username: String,
    pub email: String,
    pub age: Option<u8>,
}

/// Message for a username shorter than three bytes.
pub open spec fn short_username_message() -> Seq<char> {
    "Username troppo corto (min 3 caratteri)"@
}

/// Message for an email without `@`.
pub open spec fn bad_email_message() -> Seq<char> {
    "Email non valida"@
}

/// Message for an age under eighteen.
pub open spec fn under_age_message() -> Seq<char> {
    "Età minima 18 anni"@
}

/// The first rule a user request breaks, checked in order: username at
/// least three bytes long, an `@` in the email, age (when given) at least
/// eighteen.
pub open spec fn user_violation(username: Seq<char>, email: Seq<char>, age: Option<u8>) -> Option<
    Seq<char>,
> {
    if byte_len(username) < 3 {
        Some(short_username_message())
    } else if !email.contains('@') {
        Some(bad_email_message())
    } else if age matches Some(a) && a < 18 {
        Some(under_age_message())
    } else {
        None
    }
}

impl Validatable for CreateUserDto {
    /// `Ok` when the request keeps every rule, else the message of the
    /// first rule it breaks.
    fn validate(&self) -> (r: Result<(), String>)
        ensures
            user_violation(self.username@, self.email@, self.age) matches Some(m) ==> (r matches Err(
                e,
            ) && e@ == m),
            user_violation(self.username@, self.email@, self.age) is None ==> r is Ok,
    {
        let chars = chars_of(self.username.as_str());
        if !byte_len_at_least(&chars, 3) {
            proof {
                reveal_strlit("Username troppo corto (min 3 caratteri)");
            }
            return Err(String::from_str("Username troppo corto (min 3 caratteri)"));
        }
        if !contains_char(self.email.as_str(), '@') {
            proof {
                reveal_strlit("Email non valida");
            }
            return Err(String::from_str("Email non valida"));
        }
        if let Some(age) = self.age {
            if age < 18 {
                proof {
                    reveal_strlit("Età minima 18 anni");
                }
                return Err(String::from_str("Età minima 18 anni"));
            }
        }
        Ok(())
    }
}

} // verus!
