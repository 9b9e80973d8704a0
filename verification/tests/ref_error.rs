use imag::ref_error::{RefError, RefErrorKind};

#[test]
fn ref_error_descriptions() {
    assert_eq!(RefErrorKind::StoreReadError.description(), "Store read error");
    assert_eq!(RefErrorKind::RefTargetCannotBeHashed.description(), "Ref Target cannot be hashed (is it a directory?)");
    assert_eq!(RefErrorKind::RefHashingError.description(), "Error while hashing");
}

#[test]
fn ref_error_keeps_kind_and_cause() {
    let e = RefError::new(RefErrorKind::RefNotInStore, Some(String::from("no such file")));
    assert_eq!(e.err_type(), RefErrorKind::RefNotInStore);
    assert_eq!(e.cause().map(|c| c.as_str()), Some("no such file"));
    assert!(RefError::new(RefErrorKind::IOError, None).cause().is_none());
}
