//! The failures that the client reports.

use vstd::prelude::*;
use vstd::string::*;

verus! {

/// Why a request gave no value.
#[derive(Debug)]
pub enum FetchError {
    /// The request could not be sent, or no answer arrived. Holds the
    /// transport's account of what went wrong.
    Transport(String),
    /// An answer arrived, but its body did not have the expected shape.
    /// Holds the decoder's account of what went wrong.
    Decode(String),
}

impl FetchError {
    /// The account that the failure carries.
    pub open spec fn detail(&self) -> Seq<char> {
        match self {
            FetchError::Transport(s) => s@,
            FetchError::Decode(s) => s@,
        }
    }

    /// The account that the failure carries, as text to show.
    pub fn message(&self) -> (s: String)
        ensures
            s@ == self.detail(),
    {
        match self {
            FetchError::Transport(s) => s.clone(),
            FetchError::Decode(s) => s.clone(),
        }
    }
}

impl Clone for FetchError {
    fn clone(&self) -> (r: Self)
        ensures
            r == *self,
    {
        match self {
            FetchError::Transport(s) => FetchError::Transport(s.clone()),
            FetchError::Decode(s) => FetchError::Decode(s.clone()),
        }
    }
}

/// What the session reports to its caller when a query fails.
#[derive(Debug)]
pub enum TwitchError {
    /// The clips of a broadcaster could not be read; holds the failure's account.
    ClipsError(String),
    /// Users could not be read; holds the failure's account.
    RetrievingUsersError(String),
    /// No user goes by the name that it holds.
    UserNotFoundError(String),
}

impl TwitchError {
    /// The text that `message` gives.
    pub open spec fn text(&self) -> Seq<char> {
        match self {
            TwitchError::ClipsError(s) => "Error retrieving clips "@ + s@,
            TwitchError::RetrievingUsersError(s) => "Error retrieving users "@ + s@,
            TwitchError::UserNotFoundError(s) => "User not found "@ + s@,
        }
    }

    /// The error as a line of text.
    pub fn message(&self) -> (s: String)
        ensures
            s@ == self.text(),
    {
        match self {
            TwitchError::ClipsError(s) => String::from_str("Error retrieving clips ").concat(
                s.as_str(),
            ),
            TwitchError::RetrievingUsersError(s) => String::from_str(
                "Error retrieving users ",
            ).concat(s.as_str()),
            TwitchError::UserNotFoundError(s) => String::from_str("User not found ").concat(
                s.as_str(),
            ),
        }
    }
}

} // verus!
