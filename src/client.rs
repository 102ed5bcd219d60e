//! The session store and the typed API operations, each framed as one
//! outgoing request that carries the session token when there is one.

use vstd::prelude::*;
use crate::dispatch::{ApiError, Loading};
use crate::json::{
    bool_json, bool_text, credentials_body, credentials_text, decimal, decimal_text, json_string,
    json_string_of, new_project_body, new_project_text,
};

verus! {

pub const API_BASE: &'static str = "http://localhost:1337/api";

/// The name of the header that carries the session token.
pub const SESSION_HEADER: &'static str = "Session";

/// An opaque token that names an authenticated session.
pub struct Session {
    id: String,
}

impl Session {
    pub closed spec fn token(&self) -> Seq<char> {
        self.id@
    }

    pub fn new(id: String) -> (r: Self)
        ensures
            r.token() == id@,
    {
        Session { id }
    }

    pub fn id(&self) -> (r: &String)
        ensures
            r@ == self.token(),
    {
        &self.id
    }
}

/// The signed-in user.
pub struct UserData {
    pub email: String,
    pub id: usize,
    pub session: Session,
}

/// What a sign-up or a log-in answers.
pub struct LoginReply {
    pub user_id: usize,
    pub session_id: String,
}

/// A project as the server lists it.
pub struct ProjectEntry {
    pub id: i32,
    pub name: String,
    pub is_public: bool,
    /// Milliseconds since the Unix epoch.
    pub created_at: i64,
}

/// A project as the server holds it.
pub struct Project {
    pub id: i32,
    pub user_id: i32,
    pub name: String,
    /// The payload, as JSON text.
    pub data: String,
    pub is_public: bool,
    /// Milliseconds since the Unix epoch.
    pub created_at: i64,
}

pub enum Method {
    Get,
    Post,
}

/// One request, ready for the transport.
pub struct ApiRequest {
    pub method: Method,
    pub url: String,
    /// The JSON body of a `POST`.
    pub body: Option<String>,
    /// The value of the session header, when one is sent.
    pub session: Option<String>,
}

/// The address of an API path.
pub open spec fn url_of(path: Seq<char>) -> Seq<char> {
    API_BASE@ + "/"@ + path
}

/// The path of a project, with `suffix` after its id.
pub open spec fn project_path(id: i32, suffix: Seq<char>) -> Seq<char> {
    "project/"@ + decimal(id as int) + suffix
}

/// The session store: at most one signed-in user.
pub struct Client {
    user_data: Option<UserData>,
}

impl Client {
    /// The signed-in user, if any.
    pub closed spec fn identity(&self) -> Option<UserData> {
        self.user_data
    }

    /// The token that requests carry, if anybody is signed in.
    pub open spec fn token(&self) -> Option<Seq<char>> {
        match self.identity() {
            Some(u) => Some(u.session.token()),
            None => None,
        }
    }

    /// `r` is a `method` request to `path`, with `body`, carrying the
    /// session token exactly when somebody is signed in.
    pub open spec fn frames(&self, r: ApiRequest, method: Method, path: Seq<char>, body: Option<Seq<char>>) -> bool {
        &&& r.method == method
        &&& r.url@ == url_of(path)
        &&& match (r.body, body) {
            (Some(b), Some(c)) => b@ == c,
            (None, None) => true,
            _ => false,
        }
        &&& match (r.session, self.token()) {
            (Some(s), Some(t)) => s@ == t,
            (None, None) => true,
            _ => false,
        }
    }

    /// Nobody signed in.
    pub fn new() -> (r: Self)
        ensures
            r.identity() is None,
    {
        Client { user_data: None }
    }

    /// A store holding `user_data`, as restored from persisted state.
    pub fn with_user_data(user_data: Option<UserData>) -> (r: Self)
        ensures
            r.identity() == user_data,
    {
        Client { user_data }
    }

    pub fn into_user_data(self) -> (r: Option<UserData>)
        ensures
            r == self.identity(),
    {
        self.user_data
    }

    pub fn user_data(&self) -> (r: &Option<UserData>)
        ensures
            *r == self.identity(),
    {
        &self.user_data
    }

    /// Counts the request in, and frames it with the session token if
    /// somebody is signed in.
    fn fetch_json(&self, loading: &mut Loading, method: Method, path: &str, body: Option<String>) -> (r: ApiRequest)
        requires
            old(loading).in_flight() < u64::MAX,
        ensures
            final(loading).in_flight() == old(loading).in_flight() + 1,
            self.frames(r, method, path@, match body {
                Some(b) => Some(b@),
                None => None,
            }),
    {
        loading.start_loading();
        let url = String::from_str(API_BASE).concat("/").concat(path);
        let session = match &self.user_data {
            Some(u) => Some(u.session.id.clone()),
            None => None,
        };
        ApiRequest { method, url, body, session }
    }

    /// A `GET` of `path`.
    pub fn get_json(&self, loading: &mut Loading, path: &str) -> (r: ApiRequest)
        requires
            old(loading).in_flight() < u64::MAX,
        ensures
            final(loading).in_flight() == old(loading).in_flight() + 1,
            self.frames(r, Method::Get, path@, None),
    {
        self.fetch_json(loading, Method::Get, path, None)
    }

    /// A `POST` of the JSON text `body` to `path`.
    pub fn post_json(&self, loading: &mut Loading, path: &str, body: String) -> (r: ApiRequest)
        requires
            old(loading).in_flight() < u64::MAX,
        ensures
            final(loading).in_flight() == old(loading).in_flight() + 1,
            self.frames(r, Method::Post, path@, Some(body@)),
    {
        self.fetch_json(loading, Method::Post, path, Some(body))
    }

    /// Creates an account.
    pub fn signup(&self, loading: &mut Loading, email: &str, password: &str) -> (r: ApiRequest)
        requires
            old(loading).in_flight() < u64::MAX,
        ensures
            final(loading).in_flight() == old(loading).in_flight() + 1,
            self.frames(r, Method::Post, "user/create"@, Some(credentials_text(email@, password@))),
    {
        self.post_json(loading, "user/create", credentials_body(email, password))
    }

    /// Logs in.
    pub fn login(&self, loading: &mut Loading, email: &str, password: &str) -> (r: ApiRequest)
        requires
            old(loading).in_flight() < u64::MAX,
        ensures
            final(loading).in_flight() == old(loading).in_flight() + 1,
            self.frames(r, Method::Post, "user/login"@, Some(credentials_text(email@, password@))),
    {
        self.post_json(loading, "user/login", credentials_body(email, password))
    }

    /// Ends the session on the server; its body is `null`.
    pub fn logout(&self, loading: &mut Loading) -> (r: ApiRequest)
        requires
            old(loading).in_flight() < u64::MAX,
        ensures
            final(loading).in_flight() == old(loading).in_flight() + 1,
            self.frames(r, Method::Post, "user/logout"@, Some("null"@)),
    {
        self.post_json(loading, "user/logout", String::from_str("null"))
    }

    /// Stores a new private project with the payload `data` (JSON text).
    pub fn create_project(&self, loading: &mut Loading, name: &str, data: &str) -> (r: ApiRequest)
        requires
            old(loading).in_flight() < u64::MAX,
        ensures
            final(loading).in_flight() == old(loading).in_flight() + 1,
            self.frames(r, Method::Post, "project/create"@, Some(new_project_text(name@, data@))),
    {
        self.post_json(loading, "project/create", new_project_body(name, data))
    }

    /// Lists the user's projects.
    pub fn list_projects(&self, loading: &mut Loading) -> (r: ApiRequest)
        requires
            old(loading).in_flight() < u64::MAX,
        ensures
            final(loading).in_flight() == old(loading).in_flight() + 1,
            self.frames(r, Method::Get, "projects"@, None),
    {
        self.get_json(loading, "projects")
    }

    fn project_path(project_id: i32, suffix: &str) -> (r: String)
        ensures
            r@ == project_path(project_id, suffix@),
    {
        String::from_str("project/").concat(decimal_text(project_id).as_str()).concat(suffix)
    }

    /// Loads one project.
    pub fn load_project(&self, loading: &mut Loading, project_id: i32) -> (r: ApiRequest)
        requires
            old(loading).in_flight() < u64::MAX,
        ensures
            final(loading).in_flight() == old(loading).in_flight() + 1,
            self.frames(r, Method::Get, project_path(project_id, ""@), None),
    {
        let path = Self::project_path(project_id, "");
        self.get_json(loading, path.as_str())
    }

    /// Sets whether a project is public.
    pub fn set_project_public(&self, loading: &mut Loading, project_id: i32, is_public: bool) -> (r: ApiRequest)
        requires
            old(loading).in_flight() < u64::MAX,
        ensures
            final(loading).in_flight() == old(loading).in_flight() + 1,
            self.frames(r, Method::Post, project_path(project_id, "/public"@), Some(bool_text(is_public))),
    {
        let path = Self::project_path(project_id, "/public");
        self.post_json(loading, path.as_str(), bool_json(is_public))
    }

    /// Overwrites a project's payload with `data` (JSON text).
    pub fn set_project_data(&self, loading: &mut Loading, project_id: i32, data: &str) -> (r: ApiRequest)
        requires
            old(loading).in_flight() < u64::MAX,
        ensures
            final(loading).in_flight() == old(loading).in_flight() + 1,
            self.frames(r, Method::Post, project_path(project_id, "/data"@), Some(data@)),
    {
        let path = Self::project_path(project_id, "/data");
        self.post_json(loading, path.as_str(), String::from_str(data))
    }

    /// Renames a project.
    pub fn set_project_name(&self, loading: &mut Loading, project_id: i32, name: &str) -> (r: ApiRequest)
        requires
            old(loading).in_flight() < u64::MAX,
        ensures
            final(loading).in_flight() == old(loading).in_flight() + 1,
            self.frames(r, Method::Post, project_path(project_id, "/name"@), Some(json_string_of(name@))),
    {
        let path = Self::project_path(project_id, "/name");
        self.post_json(loading, path.as_str(), json_string(name))
    }

    /// Ends a sign-up or a log-in as `email`: on success the new user
    /// replaces whoever was signed in, and their session is returned; on
    /// failure the store is left as it was.
    pub fn finish_login(&mut self, email: &str, outcome: Result<LoginReply, ApiError>) -> (r: Option<Session>)
        ensures
            match outcome {
                Ok(reply) => {
                    &&& final(self).identity() matches Some(u)
                    &&& u.email@ == email@
                    &&& u.id == reply.user_id
                    &&& u.session.token() == reply.session_id@
                    &&& r matches Some(s) && s.token() == reply.session_id@
                },
                Err(_) => final(self).identity() == old(self).identity() && r is None,
            },
    {
        match outcome {
            Ok(reply) => {
                let session = Session { id: reply.session_id.clone() };
                self.user_data = Some(
                    UserData {
                        email: String::from_str(email),
                        id: reply.user_id,
                        session: Session { id: reply.session_id },
                    },
                );
                Some(session)
            },
            Err(_) => None,
        }
    }

    /// Ends a log-out: nobody is signed in afterwards, whatever the server
    /// answered.
    pub fn finish_logout(&mut self, outcome: Result<(), ApiError>)
        ensures
            final(self).identity() is None,
    {
        self.user_data = None;
    }
}

} // verus!
