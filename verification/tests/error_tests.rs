use lightstreamer_client::{IllegalArgumentException, IllegalStateException};

// The library's error types carry their message behind `message()`; the
// standard formatting traits are out of its reach, so the checks on the
// message go through that accessor.

#[test]
fn test_illegal_argument_exception_creation() {
    let error_msg = "Test error message";
    let exception = IllegalArgumentException::new(error_msg);

    assert_eq!(exception.message(), error_msg);

    let debug_output = format!("{:?}", exception);
    assert!(debug_output.contains(error_msg));
}

#[test]
fn test_illegal_state_exception_creation() {
    let error_msg = "Test state error";
    let exception = IllegalStateException::new(error_msg);

    assert_eq!(exception.message(), error_msg);

    let debug_output = format!("{:?}", exception);
    assert!(debug_output.contains(error_msg));
}

#[test]
fn test_error_propagation() {
    fn function_that_fails() -> Result<(), IllegalArgumentException> {
        Err(IllegalArgumentException::new("Test propagation"))
    }

    fn propagate_error() -> Result<(), IllegalArgumentException> {
        function_that_fails()?;
        Ok(())
    }

    let result = propagate_error();
    assert!(result.is_err());
    if let Err(error) = result {
        assert_eq!(error.message(), "Test propagation");
    }
}

#[test]
fn test_error_conversion() {
    // the message survives moving the error around as a value
    let arg_exception = IllegalArgumentException::new("Invalid argument");
    let moved: IllegalArgumentException = arg_exception;
    assert_eq!(moved.message(), "Invalid argument");

    let state_exception = IllegalStateException::new("Invalid state");
    let moved: IllegalStateException = state_exception;
    assert_eq!(moved.message(), "Invalid state");
}

#[test]
fn test_error_as_return_type() {
    enum EitherError {
        Argument(IllegalArgumentException),
        State(IllegalStateException),
    }

    fn may_fail(value: i32) -> Result<(), EitherError> {
        if value < 0 {
            Err(EitherError::Argument(IllegalArgumentException::new("Value cannot be negative")))
        } else if value > 100 {
            Err(EitherError::State(IllegalStateException::new("Value too large")))
        } else {
            Ok(())
        }
    }

    let result = may_fail(-10);
    assert!(result.is_err());
    if let Err(EitherError::Argument(error)) = result {
        assert_eq!(error.message(), "Value cannot be negative");
    } else {
        panic!("expected an argument error");
    }

    let result = may_fail(150);
    assert!(result.is_err());
    if let Err(EitherError::State(error)) = result {
        assert_eq!(error.message(), "Value too large");
    } else {
        panic!("expected a state error");
    }

    let result = may_fail(50);
    assert!(result.is_ok());
}

#[test]
fn test_error_trait_methods() {
    // the errors wrap nothing: the message is all they carry
    let arg_exception = IllegalArgumentException::new("Test error");
    assert_eq!(arg_exception.message(), "Test error");

    let state_exception = IllegalStateException::new("Test state error");
    assert_eq!(state_exception.message(), "Test state error");
}

#[test]
fn test_debug_formatting() {
    let arg_exception = IllegalArgumentException::new("Test arg error");
    let debug_str = format!("{:?}", arg_exception);
    assert!(debug_str.contains("IllegalArgumentException"));
    assert!(debug_str.contains("Test arg error"));

    let state_exception = IllegalStateException::new("Test state error");
    let debug_str = format!("{:?}", state_exception);
    assert!(debug_str.contains("IllegalStateException"));
    assert!(debug_str.contains("Test state error"));
}
