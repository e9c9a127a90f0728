use archive_parser::mastodon::MediaIdError;
use archive_parser::MediaResponse;

#[test]
fn media_response_ids_are_read() {
    let r = MediaResponse { id: "109399109809644293".to_string() };
    assert_eq!(r.id(), Ok(109399109809644293));
}

#[test]
fn media_response_ids_that_are_no_number_are_refused() {
    let r = MediaResponse { id: "abc".to_string() };
    assert_eq!(r.id(), Err(MediaIdError::NotANumber));
    let r = MediaResponse { id: "".to_string() };
    assert_eq!(r.id(), Err(MediaIdError::NotANumber));
}
