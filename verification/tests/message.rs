use load_balancer::Message;

#[test]
fn message_renders_request_and_both_addresses() {
    let message = Message {
        message: "GET / HTTP/1.1".to_string(),
        worker_addr: "127.0.0.1:9001".to_string(),
        client_addr: "127.0.0.1:5000".to_string(),
    };
    assert_eq!(
        message.to_string(),
        "[MESSAGE]: message: GET / HTTP/1.1\n\tworker_addr: 127.0.0.1:9001\n\tclient_addr: 127.0.0.1:5000\n\t\n"
    );
}

#[test]
fn empty_message_renders_its_frame() {
    let message = Message {
        message: String::new(),
        worker_addr: String::new(),
        client_addr: String::new(),
    };
    assert_eq!(
        message.to_string(),
        "[MESSAGE]: message: \n\tworker_addr: \n\tclient_addr: \n\t\n"
    );
}
