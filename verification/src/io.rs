use vstd::prelude::*;
use crate::region::Sheet;
use crate::update::CharacterData;

verus! {

/// Errors of the server's user and character storage.
#[derive(PartialEq, Eq, Structural, Clone, Copy, Debug)]
pub enum IOError {
    NotImplemented,
    UserNotFound,
    UserAlreadyExists,
    WrongPassword,
}

/// All IO of the server, like creating or listing users and their characters.
/// Implementations can do this locally in the file system or access databases; every
/// operation an implementation does not provide answers `NotImplemented`.
pub trait ServerIO {
    /// Creates a new IO for the server.
    fn new() -> Self where Self: Sized;

    /// For local file servers, sets the path of the directory where users and their
    /// characters are stored.
    fn set_local_path(&mut self, path: String) {
    }

    /// Logs in to the storage, for database based implementations and similar.
    fn system_login(&mut self, url: String, password: String) -> (r: Result<bool, IOError>)
        default_ensures
            r == Err::<bool, IOError>(IOError::NotImplemented),
    {
        Err(IOError::NotImplemented)
    }

    /// Logs in the given user.
    fn login_user(&self, user_name: String, password: String) -> (r: Result<(), IOError>)
        default_ensures
            r == Err::<(), IOError>(IOError::NotImplemented),
    {
        Err(IOError::NotImplemented)
    }

    /// Whether the user exists.
    fn does_user_exist(&mut self, user_name: String) -> (r: Result<bool, IOError>)
        default_ensures
            r == Err::<bool, IOError>(IOError::NotImplemented),
    {
        Err(IOError::NotImplemented)
    }

    /// Creates a new user.
    fn create_user(&self, user_name: String, password: String) -> (r: Result<(), IOError>)
        default_ensures
            r == Err::<(), IOError>(IOError::NotImplemented),
    {
        Err(IOError::NotImplemented)
    }

    /// Stores a character of the user.
    fn save_user_character(&self, user_name: String, sheet: Sheet) -> (r: Result<(), IOError>)
        default_ensures
            r == Err::<(), IOError>(IOError::NotImplemented),
    {
        Err(IOError::NotImplemented)
    }

    /// Lists the characters of the user.
    fn list_user_characters(&self, user_name: String) -> (r: Result<Vec<CharacterData>, IOError>)
        default_ensures
            r matches Err(e) && e == IOError::NotImplemented,
    {
        Err(IOError::NotImplemented)
    }
}

} // verus!

verus! {

/// What logging in or registering a user in the lobby came to: whether the user is
/// valid, the storage's error otherwise, and the user's characters where the storage
/// listed them.
pub struct LoginOutcome {
    pub valid_user: bool,
    pub error: Option<IOError>,
    pub characters: Option<Vec<CharacterData>>,
}

/// What logging in or registering came to, given the storage's answer to the login and,
/// for a valid user, its answer to the listing of the user's characters: the user is
/// valid exactly when the storage accepted it, the error is the storage's, and the
/// characters are those listed, where the listing succeeded.
pub fn login_outcome(rc: Result<(), IOError>, listed: Option<Result<Vec<CharacterData>, IOError>>) -> (r: LoginOutcome)
    ensures
        r.valid_user == rc is Ok,
        r.error == match rc {
            Ok(_) => None,
            Err(e) => Some(e),
        },
        r.characters == match rc {
            Ok(_) => match listed {
                Some(Ok(list)) => Some(list),
                _ => None,
            },
            Err(_) => None,
        },
{
    match rc {
        Ok(_) => {
            let characters = match listed {
                Some(Ok(list)) => Some(list),
                _ => None,
            };
            LoginOutcome { valid_user: true, error: None, characters }
        },
        Err(e) => LoginOutcome { valid_user: false, error: Some(e), characters: None },
    }
}

/// The storage operation a login asks for.
pub enum LoginRequest {
    /// Create the user with the password.
    CreateUser { user: String, password: String },
    /// Log the user in with the password.
    LoginUser { user: String, password: String },
}

/// Decides the storage operation of a login: registering creates the user, otherwise the
/// user logs in; both with the given name and password.
pub fn login_request(register: bool, user: String, password: String) -> (r: LoginRequest)
    ensures
        r == if register {
            LoginRequest::CreateUser { user, password }
        } else {
            LoginRequest::LoginUser { user, password }
        },
{
    if register {
        LoginRequest::CreateUser { user, password }
    } else {
        LoginRequest::LoginUser { user, password }
    }
}

/// Registers (with `register`) or logs in a user through the storage, as
/// [`login_request`] decides, then lists the characters of a valid user (see
/// [`login_outcome`]). Without a storage nothing happens.
pub fn login_or_register<I: ServerIO>(io: &mut Option<I>, register: bool, user: String, password: String) -> (r: LoginOutcome)
    ensures
        *old(io) is None ==> !r.valid_user && r.error is None && r.characters is None && *final(io) is None,
        *old(io) is Some ==> (r.valid_user <==> r.error is None),
        r.characters is Some ==> r.valid_user,
{
    match io {
        Some(storage) => {
            let listed_user = user.clone();
            let rc = match login_request(register, user, password) {
                LoginRequest::CreateUser { user, password } => storage.create_user(user, password),
                LoginRequest::LoginUser { user, password } => storage.login_user(user, password),
            };
            let listed = match rc {
                Ok(_) => Some(storage.list_user_characters(listed_user)),
                Err(_) => None,
            };
            login_outcome(rc, listed)
        },
        None => LoginOutcome { valid_user: false, error: None, characters: None },
    }
}

} // verus!
