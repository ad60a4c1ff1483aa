use vstd::prelude::*;

verus! {

/// What a session token asserts: the user it was issued to, and when it was
/// issued and expires, in seconds since the Unix epoch.
#[derive(Clone, Debug)]
pub struct Claims {
    pub sub: String,
    pub exp: usize,
    pub iat: usize,
}

/// Credentials offered to open a session.
#[derive(Clone, Debug)]
pub struct LoginRequest {
    pub email: String,
    pub password: String,
}

/// What a new user supplies to register.
#[derive(Clone, Debug)]
pub struct RegisterRequest {
    pub name: String,
    pub email: String,
    pub password: String,
}

/// The session handed back on registration or login.
#[derive(Clone, Debug)]
pub struct AuthResponse {
    pub token: String,
    pub user_id: String,
    pub user_name: String,
}

/// The bearer token that authenticated a request.
#[derive(Clone, Debug)]
pub struct AuthToken(String);

impl View for AuthToken {
    type V = Seq<char>;

    closed spec fn view(&self) -> Seq<char> {
        self.0@
    }
}

impl AuthToken {
    pub fn new(token: String) -> (r: AuthToken)
        ensures
            r@ == token@,
    {
        AuthToken(token)
    }

    /// The token's text.
    pub fn token(&self) -> (r: &str)
        ensures
            r@ == self@,
    {
        self.0.as_str()
    }
}

} // verus!
