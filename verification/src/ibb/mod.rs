//! The ImgBB site workflow: URL handling, page parsing, login state and download plans.
use vstd::prelude::*;

pub mod album;
pub mod login;
pub mod name_generator;
pub mod options;
pub mod profile;
pub mod session;
pub mod manage;
pub mod manage_response;
pub mod utils;

verus! {

/// Reasons an ImgBB operation is refused.
#[derive(Clone, Copy, Debug, PartialEq, Eq, Structural)]
pub enum ImgbbError {
    /// The page has no `auth_token` marker.
    AuthTokenMissing,
    /// The `auth_token` value is not terminated.
    AuthTokenMalformed,
    /// The `auth_token` value is empty.
    AuthTokenEmpty,
    /// The page has no owner ID marker.
    OwnerIdMissing,
    /// The owner ID value is not terminated.
    OwnerIdMalformed,
    /// The owner ID value is empty.
    OwnerIdEmpty,
    /// An e-mail address was given where a user name is needed.
    EmailLoginUnsupported,
    /// The user name holds characters other than ASCII letters, digits and `-`.
    UnsupportedUsername,
    /// The album name is empty once cleaned for the file system.
    EmptyAlbumName,
    /// A file name is empty once cleaned for the file system.
    EmptyFileName,
    /// A counting name pattern is blank.
    EmptyCountPattern,
    /// A counting name pattern has neither `{count}` nor `{}`.
    MissingCountPlaceholder,
    /// A counting name pattern holds a placeholder other than `{count}`, `{}`, `{album}` and
    /// `{name}`.
    UnknownPlaceholder,
    /// A counting name pattern produced an empty name.
    EmptyRenderedName,
    /// Every candidate name for a file is taken.
    NamesExhausted,
    /// The text is not a URL.
    InvalidUrl,
    /// The URL is not on ibb.co.
    NotIbbHost,
    /// The URL is not an album URL.
    NotAlbumUrl,
    /// The album URL has an empty id.
    EmptyAlbumId,
    /// The URL is not on a user's imgbb.com site.
    NotProfileHost,
    /// The URL is not a user's album list.
    NotAlbumList,
    /// The album list is not the `albums` list.
    UnsupportedList,
    /// No image was chosen.
    NoImageSelected,
    /// None of the chosen images is in the album.
    SelectionNotInAlbum,
    /// A required JSON field is missing or empty.
    JsonField,
    /// A header could not be built.
    InvalidHeader,
    /// A CSS selector could not be parsed.
    InvalidSelector,
    /// Some downloads failed.
    DownloadsFailed,
    /// A password album was asked for without a password.
    PasswordRequired,
    /// An image id is empty.
    EmptyImageId,
    /// A request was answered with a status other than 2xx.
    RequestFailed,
    /// The API answered with a status code other than 200.
    ApiStatus,
    /// A login user name or password is empty.
    EmptyCredentials,
    /// Only one of user name and password was given.
    IncompleteCredentials,
    /// The login was answered with a status other than 2xx or 3xx.
    LoginFailed,
    /// The login redirected somewhere unexpected.
    UnexpectedRedirect,
    /// The login set no `LID` cookie.
    MissingLoginCookie,
    /// The session cookie did not log in.
    NotLoggedIn,
    /// No user site URL was given and no session is at hand.
    ProfileUrlMissing,
    /// The login page has no auth token.
    LoginTokenMissing,
    /// The login page's auth token is empty.
    LoginTokenEmpty,
}

} // verus!
