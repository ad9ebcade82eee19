use render_slides::transport::{TransportError, TransportRouter};

#[test]
fn rejects_unknown_scheme() {
    let router = TransportRouter::new();
    let result = router.open_read("s3://bucket/key");

    let error = match result {
        Err(error) => error,
        Ok(_) => panic!("expected unsupported scheme error"),
    };

    if let TransportError::UnsupportedScheme(scheme) = error {
        assert_eq!(scheme, "s3");
    } else {
        panic!("expected unsupported scheme error");
    }
}
