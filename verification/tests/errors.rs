use reg_core::CompareError;

#[test]
fn message_of_each_error() {
    assert_eq!(
        CompareError::File("No such file".to_string()).message(),
        "file io error, No such file"
    );
    assert_eq!(
        CompareError::ImageDiff("bad header".to_string()).message(),
        "image diff error, bad header"
    );
    assert_eq!(
        CompareError::TemplateRender("unclosed tag".to_string()).message(),
        "template render error, unclosed tag"
    );
    assert_eq!(
        CompareError::PathResolution("rel/images".to_string()).message(),
        "path resolution error, rel/images"
    );
    assert_eq!(CompareError::Unknown.message(), "unknown error");
}

#[test]
fn clone_of_an_error_is_the_same_error() {
    let errors = vec![
        CompareError::File("a".to_string()),
        CompareError::ImageDiff("b".to_string()),
        CompareError::TemplateRender("c".to_string()),
        CompareError::PathResolution("d".to_string()),
        CompareError::Unknown,
    ];
    for error in errors.iter() {
        assert_eq!(&error.clone(), error);
    }
}
