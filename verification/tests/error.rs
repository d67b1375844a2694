use augur::error::{AugurError, PendingMessage};

#[test]
fn every_error_names_itself_and_what_went_wrong() {
    let cases = [
        (AugurError::NonExistentNovel, "NonExistentNovel, Novel not found"),
        (AugurError::NonExistentGuild, "NonExistentGuild, No novels setup in Guild"),
        (AugurError::UniqueConstraint, "UniqueConstraint, Novel has already been setup in this channel"),
        (AugurError::NoChapters, "NoChapters, No chapters found for provided novel"),
        (AugurError::InvalidLink, "InvalidLink, Provided novel link is invalid"),
        (AugurError::FailedQuery, "FailedQuery, Something went wrong while querying the database"),
        (AugurError::FailedDiscordRequest, "FailedDiscordRequest, Request to Discord API failed"),
    ];
    for (e, text) in cases {
        assert_eq!(e.text(), text);
        assert!(e.text().starts_with(&format!("{:?}, ", e)));
    }
}

#[test]
fn a_pending_message_shows_its_text() {
    assert_eq!(PendingMessage("Setup has been successful".to_string()).text(), "Setup has been successful");
}
