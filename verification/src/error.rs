use vstd::prelude::*;

verus! {

/// The ways a command of the bot can fail.
#[derive(Debug, Clone, Copy, PartialEq, Eq, Structural)]
pub enum AugurError {
    /// The novel is not in the database.
    NonExistentNovel,
    /// No novel is set up in the guild.
    NonExistentGuild,
    /// The novel has already been set up in this channel.
    UniqueConstraint,
    /// No chapters were found for the novel.
    NoChapters,
    /// The link given for the novel is invalid.
    InvalidLink,
    /// A query to the database failed.
    FailedQuery,
    /// A request to the Discord API failed.
    FailedDiscordRequest,
}

impl AugurError {
    /// The text that reports this error to the user: the variant's name, then
    /// what went wrong.
    pub open spec fn spec_text(self) -> Seq<char> {
        match self {
            AugurError::NonExistentNovel => "NonExistentNovel, Novel not found"@,
            AugurError::NonExistentGuild => "NonExistentGuild, No novels setup in Guild"@,
            AugurError::UniqueConstraint =>
                "UniqueConstraint, Novel has already been setup in this channel"@,
            AugurError::NoChapters => "NoChapters, No chapters found for provided novel"@,
            AugurError::InvalidLink => "InvalidLink, Provided novel link is invalid"@,
            AugurError::FailedQuery =>
                "FailedQuery, Something went wrong while querying the database"@,
            AugurError::FailedDiscordRequest =>
                "FailedDiscordRequest, Request to Discord API failed"@,
        }
    }

    /// The text that reports this error to the user.
    pub fn text(&self) -> (s: String)
        ensures
            s@ == self.spec_text(),
    {
        match self {
            AugurError::NonExistentNovel => "NonExistentNovel, Novel not found".to_string(),
            AugurError::NonExistentGuild => "NonExistentGuild, No novels setup in Guild".to_string(),
            AugurError::UniqueConstraint =>
                "UniqueConstraint, Novel has already been setup in this channel".to_string(),
            AugurError::NoChapters => "NoChapters, No chapters found for provided novel".to_string(),
            AugurError::InvalidLink => "InvalidLink, Provided novel link is invalid".to_string(),
            AugurError::FailedQuery =>
                "FailedQuery, Something went wrong while querying the database".to_string(),
            AugurError::FailedDiscordRequest =>
                "FailedDiscordRequest, Request to Discord API failed".to_string(),
        }
    }
}

/// A message that waits to be sent back to the user who gave a command.
pub struct PendingMessage(pub String);

impl View for PendingMessage {
    type V = Seq<char>;

    open spec fn view(&self) -> Seq<char> {
        self.0@
    }
}

impl PendingMessage {
    /// The text of the message.
    pub fn text(&self) -> (s: &str)
        ensures
            s@ == self@,
    {
        self.0.as_str()
    }
}

} // verus!
