use rung::serve::ServerOptions;

#[test]
fn builds_addr_and_url() {
    let options = ServerOptions {
        host: "127.0.0.1".to_string(),
        port: "8080".to_string(),
        root_dir: "public".to_string(),
        open: false,
    };

    assert_eq!("127.0.0.1:8080", options.get_addr());
    assert_eq!("http://127.0.0.1:8080", options.get_url());
}
