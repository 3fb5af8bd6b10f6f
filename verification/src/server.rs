//! Starting up and wiring: where the connection string comes from, when the
//! process may serve, the address it binds and the four routes.

use vstd::prelude::*;

verus! {

/// Why the process does not start. Both are fatal: no request is served.
#[derive(Clone, Copy, Debug, PartialEq, Eq, Structural)]
pub enum StartupError {
    /// The environment holds no connection string.
    MissingUrl,
    /// The database could not be reached.
    Unreachable,
}

/// The four operations, one route each.
#[derive(Clone, Copy, Debug, PartialEq, Eq, Structural)]
pub enum Route {
    AddBook,
    ListBooks,
    UpdateBook,
    DeleteBook,
}

/// The environment variable that holds the connection string.
pub open spec fn url_variable_name() -> Seq<char> {
    "SUPABASE_URL"@
}

impl StartupError {
    /// The diagnostic of each failure.
    pub open spec fn diagnostic(&self) -> Seq<char> {
        match self {
            StartupError::MissingUrl => "Please put a proper SUPABASE_URL in .env"@,
            StartupError::Unreachable => "Cant connect to the database url"@,
        }
    }

    /// The message to fail with.
    pub fn message(&self) -> (text: &'static str)
        ensures
            text@ == self.diagnostic(),
    {
        match self {
            StartupError::MissingUrl => "Please put a proper SUPABASE_URL in .env",
            StartupError::Unreachable => "Cant connect to the database url",
        }
    }
}

impl Route {
    /// The HTTP method of each route.
    pub open spec fn method_name(&self) -> Seq<char> {
        match self {
            Route::AddBook => "POST"@,
            Route::ListBooks => "GET"@,
            Route::UpdateBook => "PUT"@,
            Route::DeleteBook => "DELETE"@,
        }
    }

    /// The path of each route. Update and delete name the book in the path.
    pub open spec fn path_pattern(&self) -> Seq<char> {
        match self {
            Route::AddBook => "/books"@,
            Route::ListBooks => "/books"@,
            Route::UpdateBook => "/books/{id}"@,
            Route::DeleteBook => "/books/{id}"@,
        }
    }

    /// The HTTP method that the route answers.
    pub fn method(&self) -> (name: &'static str)
        ensures
            name@ == self.method_name(),
    {
        match self {
            Route::AddBook => "POST",
            Route::ListBooks => "GET",
            Route::UpdateBook => "PUT",
            Route::DeleteBook => "DELETE",
        }
    }

    /// The path that the route answers, with `{id}` where the identifier goes.
    pub fn pattern(&self) -> (path: &'static str)
        ensures
            path@ == self.path_pattern(),
    {
        match self {
            Route::AddBook => "/books",
            Route::ListBooks => "/books",
            Route::UpdateBook => "/books/{id}",
            Route::DeleteBook => "/books/{id}",
        }
    }
}

/// The name of the environment variable to read the connection string from.
pub fn url_variable() -> (name: &'static str)
    ensures
        name@ == url_variable_name(),
{
    "SUPABASE_URL"
}

/// The connection string to connect with, given what the environment holds
/// under [`url_variable`]: that value, or the failure where there is none.
pub fn connect_to_db(url: Option<String>) -> (target: Result<String, StartupError>)
    ensures
        target == match url {
            Some(value) => Ok::<String, StartupError>(value),
            None => Err(StartupError::MissingUrl),
        },
{
    match url {
        Some(value) => Ok(value),
        None => Err(StartupError::MissingUrl),
    }
}

/// The address to bind once the connection attempt has ended: the loopback
/// address and port 8080 if it succeeded, and the failure if it did not, so
/// that nothing is bound against a database that cannot be reached.
pub fn bind_address(connected: bool) -> (address: Result<(&'static str, u16), StartupError>)
    ensures
        match address {
            Ok(pair) => connected && pair.0@ == "127.0.0.1"@ && pair.1 == 8080,
            Err(error) => !connected && error == StartupError::Unreachable,
        },
{
    if connected {
        Ok(("127.0.0.1", 8080))
    } else {
        Err(StartupError::Unreachable)
    }
}

} // verus!
