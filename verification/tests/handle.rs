use pdf_service::error::{PdfParseError, PdfServiceError};
use pdf_service::handle::{received, received_result, sent};

#[test]
fn a_job_that_was_handed_over_is_no_failure() {
    assert_eq!(sent(Ok(())), Ok(()));
}

#[test]
fn a_job_that_could_not_be_handed_over_is_a_send_error() {
    let told = sent(Err("channel closed".to_string()));
    assert_eq!(told, Err(PdfServiceError::SendError("channel closed".to_string())));
    assert!(told.unwrap_err().is_unavailable());
}

#[test]
fn an_answer_is_passed_on() {
    assert_eq!(received(Ok(true)), Ok(true));
    assert_eq!(received(Ok(vec!["a".to_string()])), Ok(vec!["a".to_string()]));
    assert_eq!(received_result(Ok(Ok(vec![1u8, 2, 3]))), Ok(vec![1u8, 2, 3]));
}

#[test]
fn an_answer_that_never_came_is_a_receive_error() {
    let told: Result<bool, PdfServiceError> = received(Err("channel closed".to_string()));
    assert_eq!(told, Err(PdfServiceError::RecvError("channel closed".to_string())));
    assert!(told.unwrap_err().is_unavailable());
    let told: Result<String, PdfServiceError> = received_result(Err("dropped".to_string()));
    assert_eq!(told, Err(PdfServiceError::RecvError("dropped".to_string())));
    assert!(told.unwrap_err().is_unavailable());
}

#[test]
fn a_failed_operation_is_told_apart_from_a_missing_actor() {
    let told: Result<String, PdfServiceError> =
        received_result(Ok(Err(PdfParseError::PageOutOfRange(3))));
    assert_eq!(told, Err(PdfServiceError::ParseError(PdfParseError::PageOutOfRange(3))));
    assert!(!told.unwrap_err().is_unavailable());
    let told: Result<u8, PdfServiceError> =
        received_result(Ok(Err(PdfParseError::RenderError("no bitmap".to_string()))));
    assert_eq!(
        told,
        Err(PdfServiceError::ParseError(PdfParseError::RenderError("no bitmap".to_string())))
    );
    let told: Result<u8, PdfServiceError> =
        received_result(Ok(Err(PdfParseError::not_loaded("book"))));
    assert_eq!(
        told,
        Err(PdfServiceError::ParseError(PdfParseError::LoadError(
            "PDF book not loaded".to_string()
        )))
    );
}
