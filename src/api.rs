use vstd::prelude::*;

verus! {

/// The answer to a mutation that succeeded.
pub struct MutationOk;

impl MutationOk {
    pub fn ok() -> (r: bool)
        ensures
            r,
    {
        true
    }
}

/// Command-line arguments of the contest server.
pub struct ContestArgs {
    /// url of the database
    pub database_url: String,
}

/// Configuration of the contest API.
pub struct ApiConfig {
    /// Skip all authentication
    pub skip_auth: bool,
    /// Secret code to use for authenticating a JWT token.
    pub secret: Option<Vec<u8>>,
    /// Path of the database on the filesystem
    pub database_url: String,
}

/// Why a request was refused.
#[derive(Clone, Copy, Debug, PartialEq, Eq, Structural)]
pub enum AuthError {
    /// Admin operations need authentication to be skipped.
    Forbidden,
    /// The token belongs to another user.
    ForbiddenForUser,
    /// A token is needed and none was given.
    AuthenticationRequired,
}

impl Default for ApiConfig {
    fn default() -> (r: ApiConfig)
        ensures
            !r.skip_auth,
            r.secret is None,
            r.database_url@ == Seq::<char>::empty(),
    {
        ApiConfig { skip_auth: false, secret: None, database_url: String::new() }
    }
}

impl ApiConfig {
    pub fn with_args(self, args: ContestArgs) -> (r: ApiConfig)
        ensures
            r.skip_auth == self.skip_auth,
            r.secret == self.secret,
            r.database_url == args.database_url,
    {
        self.with_database_url(args.database_url)
    }

    /// Set the database URL
    pub fn with_database_url(self, database_url: String) -> (r: ApiConfig)
        ensures
            r.skip_auth == self.skip_auth,
            r.secret == self.secret,
            r.database_url == database_url,
    {
        ApiConfig { database_url, ..self }
    }

    /// Sets a secret
    pub fn with_secret(self, secret: Option<Vec<u8>>) -> (r: ApiConfig)
        ensures
            r.skip_auth == self.skip_auth,
            r.secret == secret,
            r.database_url == self.database_url,
    {
        ApiConfig { secret, ..self }
    }

    /// Sets if to skip authentication
    pub fn with_skip_auth(self, skip_auth: bool) -> (r: ApiConfig)
        ensures
            r.skip_auth == skip_auth,
            r.secret == self.secret,
            r.database_url == self.database_url,
    {
        ApiConfig { skip_auth, ..self }
    }

    /// Authorizes admin operations: allowed only when authentication is skipped.
    pub fn authorize_admin(&self) -> (r: Result<(), AuthError>)
        ensures
            r is Ok <==> self.skip_auth,
            r is Err ==> r->Err_0 == AuthError::Forbidden,
    {
        if self.skip_auth {
            Ok(())
        } else {
            Err(AuthError::Forbidden)
        }
    }

    /// Authorizes access to the data of `user_id`, for a request that carries
    /// a token of `token_user` (if any). Access is checked only when a user is
    /// named and a secret is configured; then the token must be of that user.
    pub fn authorize_user(&self, token_user: &Option<String>, user_id: &Option<String>) -> (r:
        Result<(), AuthError>)
        ensures
            self.skip_auth || user_id is None || self.secret is None ==> r is Ok,
            !self.skip_auth && user_id is Some && self.secret is Some ==> match token_user {
                None => r == Err::<(), AuthError>(AuthError::AuthenticationRequired),
                Some(u) => if u@ == user_id->0@ {
                    r is Ok
                } else {
                    r == Err::<(), AuthError>(AuthError::ForbiddenForUser)
                },
            },
    {
        if self.skip_auth {
            return Ok(());
        }
        if let Some(id) = user_id {
            if self.secret.is_some() {
                match token_user {
                    Some(u) => {
                        if *u != *id {
                            return Err(AuthError::ForbiddenForUser);
                        }
                    },
                    None => {
                        return Err(AuthError::AuthenticationRequired);
                    },
                }
            }
        }
        Ok(())
    }
}

/// The content of a file, encoded in base64.
pub struct FileContentInput {
    pub base64: String,
}

/// Changes to the contest configuration; absent fields stay as they are.
pub struct ContestUpdateInput {
    pub archive_content: Option<FileContentInput>,
    pub start_time: Option<String>,
    pub end_time: Option<String>,
}

/// The configuration of a contest.
pub struct ContestData {
    /// Primary key of the table. Should be *always* 0!
    pub id: i32,
    pub archive_content: Vec<u8>,
    /// Starting time of the contest, as RFC3339 date
    pub start_time: String,
    /// End time of the contest, as RFC3339 date
    pub end_time: String,
}

/// The commands of the administration tool.
pub enum AdminCommand {
    ViewContest,
    InitDb,
    UpdateContest { path: Option<String>, start_time: Option<String>, end_time: Option<String> },
    ListUsers,
    AddUser { id: String, display_name: String, token: String },
    DeleteUser { id: String },
    AddProblem { name: String, path: String },
    DeleteProblem { name: String },
    ImportFile {
        /// Path of the contest to import
        path: String,
    },
}

} // verus!
