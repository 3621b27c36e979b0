use rust_tour::workflow::{use_request_builder, ConfigurationError, RequestBuilder};

#[test]
fn finished_request_names_target_and_payload() {
    let instruction = RequestBuilder::new("x".to_string())
        .with_body("payload".to_string())
        .finalize()
        .unwrap();
    assert_eq!(instruction.target, "x");
    assert_eq!(instruction.payload, "payload");
    assert_eq!(instruction.operation, "GET");
}

#[test]
fn empty_body_is_refused() {
    let result = RequestBuilder::new("x".to_string()).with_body(String::new()).finalize();
    assert_eq!(result.unwrap_err(), ConfigurationError::EmptyPayload);
}

#[test]
fn body_of_one_space_is_accepted() {
    let instruction =
        RequestBuilder::new(String::new()).with_body(" ".to_string()).finalize().unwrap();
    assert_eq!(instruction.target, "");
    assert_eq!(instruction.payload, " ");
}

#[test]
fn example_request_goes_to_example_com() {
    let instruction = use_request_builder().unwrap();
    assert_eq!(instruction.target, "https://example.com");
    assert_eq!(instruction.operation, "GET");
    assert_eq!(instruction.payload, "Hello, World!");
}
