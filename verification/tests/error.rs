use rs_cel_repl::error::Error;

#[test]
fn each_kind_of_error_has_its_label() {
    assert_eq!(Error::Io("broken pipe".to_string()).message(), "IO error: broken pipe");
    assert_eq!(Error::Readline("EOF".to_string()).message(), "Readline error: EOF");
    assert_eq!(Error::Cel("No such key: a".to_string()).message(), "CEL error: No such key: a");
    assert_eq!(
        Error::SerdeJson("expected value at line 1 column 1".to_string()).message(),
        "JSON error: expected value at line 1 column 1"
    );
}

#[test]
fn an_error_without_detail_is_its_label() {
    assert_eq!(Error::Cel(String::new()).message(), "CEL error: ");
}
