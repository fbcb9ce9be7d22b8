use log_inspector::analysis::ServiceCallError;
use log_inspector::chat::{read_response, ChatMessage, ChatRequest};

#[test]
fn request_holds_address_credentials_and_messages() {
    let request = ChatRequest::new("https://api.openai.com", "sk-test", "Classify.", "log text");
    assert_eq!(
        request,
        ChatRequest {
            url: "https://api.openai.com/v1/chat/completions".to_string(),
            authorization: "Bearer sk-test".to_string(),
            model: "gpt-3.5-turbo".to_string(),
            messages: vec![
                ChatMessage { role: "system".to_string(), content: "Classify.".to_string() },
                ChatMessage { role: "user".to_string(), content: "log text".to_string() },
            ],
        }
    );
}

#[test]
fn first_choice_is_the_answer() {
    let choices = vec!["SPARK_ERROR".to_string(), "SUCCESS".to_string()];
    assert_eq!(read_response(200, &choices), Ok("SPARK_ERROR".to_string()));
    assert_eq!(read_response(299, &choices), Ok("SPARK_ERROR".to_string()));
}

#[test]
fn status_outside_success_is_a_failure() {
    let choices = vec!["SPARK_ERROR".to_string()];
    for status in [0u16, 199, 300, 404, 500, 65535] {
        assert_eq!(read_response(status, &choices), Err(ServiceCallError::Status { code: status }));
        assert_eq!(read_response(status, &Vec::new()), Err(ServiceCallError::Status { code: status }));
    }
}

#[test]
fn response_without_choice_is_malformed() {
    assert_eq!(
        read_response(200, &Vec::new()),
        Err(ServiceCallError::MalformedPayload { reason: "response holds no choice".to_string() })
    );
}
