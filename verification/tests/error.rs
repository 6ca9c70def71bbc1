use texe::error::{ErrorCategory, TexeError};

#[test]
fn only_structured_network_errors_use_the_network_category() {
    let network = TexeError::Network { message: "request failed".to_string() };
    assert_eq!(network.category(), ErrorCategory::Network);

    let integrity = TexeError::Toolchain("downloaded mirror response failed SHA-512".to_string());
    assert_eq!(integrity.category(), ErrorCategory::Tool);

    let build = TexeError::Build("connection diagram is invalid".to_string());
    assert_eq!(build.category(), ErrorCategory::Build);
}
