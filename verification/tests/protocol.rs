use ghbf_lib::{check_body, check_status, Error};

#[test]
fn success_statuses_pass() {
    assert_eq!(check_status("top repos", 200), Ok(()));
    assert_eq!(check_status("top repos", 204), Ok(()));
    assert_eq!(check_status("top repos", 299), Ok(()));
}

#[test]
fn bad_statuses_are_reported_with_their_code() {
    assert_eq!(
        check_status("top repos", 404),
        Err(Error::BadStatus("top repos".to_owned(), 404))
    );
    assert_eq!(
        check_status("owner/repo", 500),
        Err(Error::BadStatus("owner/repo".to_owned(), 500))
    );
    assert_eq!(
        check_status("owner/repo", 199),
        Err(Error::BadStatus("owner/repo".to_owned(), 199))
    );
    assert_eq!(
        check_status("owner/repo", 300),
        Err(Error::BadStatus("owner/repo".to_owned(), 300))
    );
}

#[test]
fn placeholder_body_is_an_empty_body_error() {
    assert_eq!(
        check_body("owner/repo", Ok("{}".to_owned())),
        Err(Error::EmptyBody("owner/repo".to_owned()))
    );
}

#[test]
fn ordinary_bodies_pass_through_unchanged() {
    assert_eq!(
        check_body("owner/repo", Ok("[{\"weeks\":[]}]".to_owned())),
        Ok("[{\"weeks\":[]}]".to_owned())
    );
    assert_eq!(check_body("owner/repo", Ok(String::new())), Ok(String::new()));
}

#[test]
fn failed_reads_become_response_body_errors() {
    assert_eq!(
        check_body("top repos", Err("connection reset".to_owned())),
        Err(Error::ResponseBody(
            "top repos".to_owned(),
            "connection reset".to_owned()
        ))
    );
}

#[test]
fn error_variants_carry_their_labels() {
    let fetch = Error::Fetch("top repos".to_owned(), "dns failure".to_owned());
    let deser = Error::Deserialization("repo".to_owned(), "unexpected token".to_owned());
    assert_ne!(fetch, deser);
    assert_eq!(
        fetch,
        Error::Fetch("top repos".to_owned(), "dns failure".to_owned())
    );
    assert_eq!(
        deser,
        Error::Deserialization("repo".to_owned(), "unexpected token".to_owned())
    );
}
