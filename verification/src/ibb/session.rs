//! Choices a command-line session makes: credentials, the user site to visit, the album
//! privacy named on the command line and the logging level.
use vstd::prelude::*;

use super::login::IbbLoginSession;
use super::manage::IbbAlbumPrivacy;
use super::ImgbbError;
use crate::config::AppConfig;
use crate::text::{chars_of, trim, trim_str};
use crate::url::opt_text;

verus! {

/// The default file of the saved login session.
pub const DEFAULT_SESSION_PATH: &'static str = ".imgbb-session.json";

/// The logging level of command-line runs.
pub const CLI_LOG_LEVEL: &'static str = "warn";

/// An album privacy as named on the command line.
#[derive(Clone, Copy, Debug, PartialEq, Eq, Structural)]
pub enum IbbPrivacyArg {
    Public,
    Private,
    Password,
}

/// The library's privacy for a command-line privacy.
pub open spec fn privacy_model(p: IbbPrivacyArg) -> IbbAlbumPrivacy {
    match p {
        IbbPrivacyArg::Public => IbbAlbumPrivacy::Public,
        IbbPrivacyArg::Private => IbbAlbumPrivacy::Private,
        IbbPrivacyArg::Password => IbbAlbumPrivacy::Password,
    }
}

/// Converts a command-line privacy to the library's privacy.
pub fn privacy_arg_to_model(privacy: IbbPrivacyArg) -> (r: IbbAlbumPrivacy)
    ensures
        r == privacy_model(privacy),
{
    match privacy {
        IbbPrivacyArg::Public => IbbAlbumPrivacy::Public,
        IbbPrivacyArg::Private => IbbAlbumPrivacy::Private,
        IbbPrivacyArg::Password => IbbAlbumPrivacy::Password,
    }
}

/// Lowers the logging level of a configuration to `warn` for command-line runs, leaving
/// everything else as it was.
pub fn apply_cli_logging_defaults(config: &mut AppConfig)
    ensures
        final(config).logging.level@ == CLI_LOG_LEVEL@,
        final(config).logging.target == old(config).logging.target,
        final(config).logging.format == old(config).logging.format,
        final(config).logging.file_path == old(config).logging.file_path,
        final(config).logging.color == old(config).logging.color,
        final(config).request == old(config).request,
{
    config.logging.level = String::from_str(CLI_LOG_LEVEL);
}

/// The credentials to log in with, from the login name and password given (on the command
/// line or in the environment): the trimmed name and the password when both are non-empty,
/// nothing when neither is, and a refusal when only one is.
pub open spec fn credentials_spec(login_subject: Option<Seq<char>>, password: Option<Seq<char>>) -> Result<Option<(Seq<char>, Seq<char>)>, ImgbbError> {
    let subject = match login_subject {
        Some(s) => if trim(s).len() > 0 {
            Some(trim(s))
        } else {
            None
        },
        None => None,
    };
    let pass = match password {
        Some(p) => if p.len() > 0 {
            Some(p)
        } else {
            None
        },
        None => None,
    };
    match (subject, pass) {
        (Some(s), Some(p)) => Ok(Some((s, p))),
        (None, None) => Ok(None),
        _ => Err(ImgbbError::IncompleteCredentials),
    }
}

/// Resolves the credentials of a command from the login name and password it was given.
pub fn resolve_credentials(login_subject: Option<String>, password: Option<String>) -> (r: Result<Option<(String, String)>, ImgbbError>)
    ensures
        match credentials_spec(opt_text(login_subject), opt_text(password)) {
            Ok(Some((s, p))) => r matches Ok(Some(x)) && x.0@ == s && x.1@ == p,
            Ok(None) => r matches Ok(None),
            Err(e) => r == Err::<Option<(String, String)>, ImgbbError>(e),
        },
{
    let subject = match login_subject {
        Some(s) => {
            let t = trim_str(s.as_str());
            if chars_of(t.as_str()).len() > 0 {
                Some(t)
            } else {
                None
            }
        },
        None => None,
    };
    let pass = match password {
        Some(p) => {
            if chars_of(p.as_str()).len() > 0 {
                Some(p)
            } else {
                None
            }
        },
        None => None,
    };
    match (subject, pass) {
        (Some(s), Some(p)) => Ok(Some((s, p))),
        (None, None) => Ok(None),
        _ => Err(ImgbbError::IncompleteCredentials),
    }
}

/// The user site to visit: the URL given, else the site of the saved session.
pub open spec fn profile_url_choice(url: Option<Seq<char>>, session_url: Option<Seq<char>>) -> Result<Seq<char>, ImgbbError> {
    match url {
        Some(u) => Ok(u),
        None => match session_url {
            Some(s) => Ok(s),
            None => Err(ImgbbError::ProfileUrlMissing),
        },
    }
}

/// Chooses the user site of a command: the URL given, else the one of the session.
pub fn resolve_profile_url(url: Option<String>, session: Option<&IbbLoginSession>) -> (r: Result<String, ImgbbError>)
    ensures
        match profile_url_choice(
            opt_text(url),
            match session { Some(s) => Some(s.profile.url@), None => None },
        ) {
            Ok(u) => r matches Ok(x) && x@ == u,
            Err(e) => r == Err::<String, ImgbbError>(e),
        },
{
    if let Some(u) = url {
        return Ok(u);
    }
    match session {
        Some(s) => Ok(s.profile.url.clone()),
        None => Err(ImgbbError::ProfileUrlMissing),
    }
}

} // verus!
